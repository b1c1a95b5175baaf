use vstd::prelude::*;

verus! {

/// Number of bytes in the key bitmap reported by the input-state query.
pub const RAW_LEN: usize = 32;

/// Number of entries in a decoded key table (one per bit of the bitmap).
pub const TABLE_LEN: usize = 256;

/// The protocol shifts every physical key code by this amount in the bitmap.
pub const CODE_OFFSET: u8 = 8;

/// The largest physical code whose shifted index still lies in the table.
pub const MAX_CODE: u8 = 247;

/// Bit `i % 8` of byte `i / 8` of the raw bitmap.
pub open spec fn raw_bit(raw: Seq<u8>, i: int) -> bool {
    (raw[i / 8] >> ((i % 8) as u8)) & 1u8 != 0u8
}

/// The decoded table of a raw bitmap: entry `i` is bit `i % 8` of byte `i / 8`.
pub open spec fn decoded(raw: Seq<u8>) -> Seq<bool> {
    Seq::new(256, |i: int| raw_bit(raw, i))
}

/// The table entry of physical code `c` is bit `(c + 8) % 8` of byte
/// `(c + 8) / 8` of the raw bitmap, for every code up to 247.
pub proof fn lemma_code_bit(raw: Seq<u8>, c: u8)
    requires
        c <= MAX_CODE,
    ensures
        decoded(raw)[c + 8] == ((raw[(c + 8) / 8] >> (((c + 8) % 8) as u8)) & 1u8 != 0u8),
{
}

/// Decodes a raw 32-byte bitmap into a table of 256 flags.
pub fn decode(raw: &[u8; 32]) -> (r: Vec<bool>)
    ensures
        r@ == decoded(raw@),
{
    let mut table: Vec<bool> = Vec::with_capacity(TABLE_LEN);
    let mut i: usize = 0;
    while i < TABLE_LEN
        invariant
            i <= 256,
            raw@.len() == 32,
            table@.len() == i,
            forall|j: int| 0 <= j < i ==> table@[j] == raw_bit(raw@, j),
        decreases 256 - i,
    {
        let byte: u8 = raw[i / 8];
        let bit: u8 = (i % 8) as u8;
        table.push((byte >> bit) & 1u8 != 0u8);
        i = i + 1;
    }
    assert(table@ =~= decoded(raw@));
    table
}

/// The per-code pressed state of the keyboard, as last sampled.
pub struct Keymap {
    keypresses: Vec<bool>,
}

impl View for Keymap {
    type V = Seq<bool>;

    closed spec fn view(&self) -> Seq<bool> {
        self.keypresses@
    }
}

impl Keymap {
    /// The table always has one entry per bitmap bit.
    pub closed spec fn wf(&self) -> bool {
        self.keypresses@.len() == 256
    }

    /// A keymap in which no key is pressed.
    pub fn new() -> (r: Keymap)
        ensures
            r.wf(),
            r@ == Seq::new(256, |i: int| false),
    {
        let mut keypresses: Vec<bool> = Vec::with_capacity(TABLE_LEN);
        let mut i: usize = 0;
        while i < TABLE_LEN
            invariant
                i <= 256,
                keypresses@.len() == i,
                forall|j: int| 0 <= j < i ==> !keypresses@[j],
            decreases 256 - i,
        {
            keypresses.push(false);
            i = i + 1;
        }
        let r = Keymap { keypresses };
        assert(r@ =~= Seq::new(256, |i: int| false));
        r
    }

    /// Whether the key with physical code `keycode` is pressed; the table is
    /// read at `keycode + 8`.
    pub fn get_key(&self, keycode: u8) -> (r: bool)
        requires
            self.wf(),
            keycode <= MAX_CODE,
        ensures
            r == self@[keycode + 8],
    {
        self.keypresses[keycode as usize + 8]
    }

    /// Replaces the sampled state by the decoding of a fresh raw bitmap.
    pub fn update_keymap(&mut self, raw: &[u8; 32])
        ensures
            final(self).wf(),
            final(self)@ == decoded(raw@),
    {
        self.keypresses = decode(raw);
    }

    /// The physical codes `0..=247` that are pressed, in increasing order.
    pub fn pressed_codes(&self) -> (r: Vec<u8>)
        requires
            self.wf(),
        ensures
            forall|i: int, j: int| 0 <= i < j < r@.len() ==> r@[i] < r@[j],
            forall|i: int| 0 <= i < r@.len() ==> r@[i] <= MAX_CODE && self@[r@[i] + 8],
            forall|c: u8| c <= MAX_CODE && #[trigger] self@[c + 8] ==> r@.contains(c),
    {
        let mut codes: Vec<u8> = Vec::new();
        let mut c: u16 = 0;
        while c <= MAX_CODE as u16
            invariant
                self.wf(),
                c <= 248,
                forall|i: int, j: int| 0 <= i < j < codes@.len() ==> codes@[i] < codes@[j],
                forall|i: int| 0 <= i < codes@.len() ==> codes@[i] < c && self@[codes@[i] + 8],
                forall|d: u8| d < c && #[trigger] self@[d + 8] ==> codes@.contains(d),
            decreases 248 - c,
        {
            let ghost before = codes@;
            if self.get_key(c as u8) {
                codes.push(c as u8);
                assert forall|d: u8| d < c + 1 && #[trigger] self@[d + 8] implies codes@.contains(
                    d,
                ) by {
                    if d < c {
                        let k = choose|k: int| 0 <= k < before.len() && before[k] == d;
                        assert(codes@[k] == d);
                    } else {
                        assert(codes@[codes@.len() - 1] == d);
                    }
                }
            }
            c = c + 1;
        }
        codes
    }
}

} // verus!
