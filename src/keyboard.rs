use vstd::prelude::*;
use crate::geometry::Rectangle;
use crate::keymap::{Keymap, MAX_CODE};

verus! {

/// An RGBA color, one channel per byte (`0..=255`).
#[derive(Clone, Copy, Debug, PartialEq, Eq, Structural)]
pub struct Color(pub u8, pub u8, pub u8, pub u8);

/// A highlightable region bound to one or more physical key codes.
pub struct KeyboardElement {
    pub pressed: bool,
    pub area: Rectangle,
    pub keys: Vec<u8>,
}

/// The full set of regions and the two colors they are drawn with.
pub struct Keyboard {
    pub keys: Vec<KeyboardElement>,
    pub background: Color,
    pub pressed: Color,
}

/// Whether a region bound to `codes` is pressed in `state`: at least one of
/// its codes is pressed (the table is read at `code + 8`).
pub open spec fn region_pressed(codes: Seq<u8>, state: Seq<bool>) -> bool {
    exists|i: int| 0 <= i < codes.len() && #[trigger] state[codes[i] + 8]
}

/// A usable code list: non-empty, and every code's shifted index in the table.
pub open spec fn valid_codes(codes: Seq<u8>) -> bool {
    codes.len() >= 1 && forall|i: int| 0 <= i < codes.len() ==> #[trigger] codes[i] <= MAX_CODE
}

/// The indices of the pressed regions, in the order the regions were added.
pub open spec fn pressed_indices(flags: Seq<bool>) -> Seq<usize>
    decreases flags.len(),
{
    if flags.len() == 0 {
        Seq::empty()
    } else {
        let rest = pressed_indices(flags.drop_last());
        if flags.last() {
            rest.push((flags.len() - 1) as usize)
        } else {
            rest
        }
    }
}

/// `after` is `before` with every region's pressed flag recomputed from `state`.
pub open spec fn refreshed(before: Keyboard, after: Keyboard, state: Seq<bool>) -> bool {
    &&& after.keys@.len() == before.keys@.len()
    &&& forall|i: int|
        0 <= i < before.keys@.len() ==> {
            &&& (#[trigger] after.keys@[i]).pressed == region_pressed(before.keys@[i].keys@, state)
            &&& after.keys@[i].area == before.keys@[i].area
            &&& after.keys@[i].keys@ == before.keys@[i].keys@
        }
    &&& after.background == before.background
    &&& after.pressed == before.pressed
}

/// A region bound to two codes is pressed iff either code is pressed.
pub proof fn lemma_two_codes_or(state: Seq<bool>, a: u8, b: u8)
    ensures
        region_pressed(seq![a, b], state) == (state[a + 8] || state[b + 8]),
{
    let codes = seq![a, b];
    if state[a + 8] {
        assert(state[codes[0] + 8]);
    }
    if state[b + 8] {
        assert(state[codes[1] + 8]);
    }
}

/// Refreshing twice from the same state leaves the same pressed flags as
/// refreshing once, and changes nothing else.
pub proof fn lemma_refresh_idempotent(k0: Keyboard, k1: Keyboard, k2: Keyboard, state: Seq<bool>)
    requires
        refreshed(k0, k1, state),
        refreshed(k1, k2, state),
    ensures
        k2.flags() == k1.flags(),
        k2.keys@.len() == k1.keys@.len(),
        forall|i: int| 0 <= i < k1.keys@.len() ==> (#[trigger] k2.keys@[i]).area == k1.keys@[i].area,
{
    assert forall|i: int| 0 <= i < k1.keys@.len() implies k2.flags()[i] == k1.flags()[i] by {
        assert(k2.keys@[i].pressed == region_pressed(k1.keys@[i].keys@, state));
        assert(k1.keys@[i].pressed == region_pressed(k0.keys@[i].keys@, state));
    }
    assert(k2.flags() =~= k1.flags());
}

impl KeyboardElement {
    pub open spec fn wf(&self) -> bool {
        valid_codes(self.keys@)
    }

    /// A region, not pressed yet, over `area` and bound to `keys`.
    pub fn new(area: Rectangle, keys: Vec<u8>) -> (r: KeyboardElement)
        ensures
            !r.pressed,
            r.area == area,
            r.keys@ == keys@,
    {
        KeyboardElement { pressed: false, area, keys }
    }

    /// Recomputes the pressed flag: true iff any bound code is pressed.
    pub fn update(&mut self, keymap: &Keymap)
        requires
            old(self).wf(),
            keymap.wf(),
        ensures
            final(self).pressed == region_pressed(old(self).keys@, keymap@),
            final(self).area == old(self).area,
            final(self).keys@ == old(self).keys@,
    {
        let mut pressed = false;
        let mut i: usize = 0;
        while i < self.keys.len()
            invariant
                self.wf(),
                keymap.wf(),
                i <= self.keys@.len(),
                pressed == exists|j: int| 0 <= j < i && #[trigger] keymap@[self.keys@[j] + 8],
            decreases self.keys@.len() - i,
        {
            let code = self.keys[i];
            assert(self.keys@[i as int] <= MAX_CODE);
            if keymap.get_key(code) {
                pressed = true;
            }
            i = i + 1;
        }
        self.pressed = pressed;
    }
}

impl Keyboard {
    /// The pressed flags of all regions, in order.
    pub open spec fn flags(&self) -> Seq<bool> {
        Seq::new(self.keys@.len(), |i: int| self.keys@[i].pressed)
    }

    pub open spec fn wf(&self) -> bool {
        forall|i: int| 0 <= i < self.keys@.len() ==> #[trigger] self.keys@[i].wf()
    }

    /// A keyboard with no regions.
    pub fn new(background: Color, pressed: Color) -> (r: Keyboard)
        ensures
            r.wf(),
            r.keys@.len() == 0,
            r.background == background,
            r.pressed == pressed,
    {
        Keyboard { keys: Vec::new(), background, pressed }
    }

    /// Appends a region over `area` bound to `codes`, not pressed yet.
    pub fn add_region(&mut self, codes: Vec<u8>, area: Rectangle)
        requires
            old(self).wf(),
            valid_codes(codes@),
        ensures
            final(self).wf(),
            final(self).keys@.len() == old(self).keys@.len() + 1,
            forall|i: int| 0 <= i < old(self).keys@.len() ==> final(self).keys@[i] == old(self).keys@[i],
            !final(self).keys@.last().pressed,
            final(self).keys@.last().area == area,
            final(self).keys@.last().keys@ == codes@,
            final(self).background == old(self).background,
            final(self).pressed == old(self).pressed,
    {
        self.keys.push(KeyboardElement::new(area, codes));
    }

    /// Recomputes every region's pressed flag from `keymap`.
    pub fn update(&mut self, keymap: &Keymap)
        requires
            old(self).wf(),
            keymap.wf(),
        ensures
            final(self).wf(),
            refreshed(*old(self), *final(self), keymap@),
    {
        let mut i: usize = 0;
        while i < self.keys.len()
            invariant
                self.wf(),
                keymap.wf(),
                i <= self.keys@.len(),
                self.keys@.len() == old(self).keys@.len(),
                self.background == old(self).background,
                self.pressed == old(self).pressed,
                forall|j: int|
                    0 <= j < i ==> (#[trigger] self.keys@[j]).pressed == region_pressed(
                        old(self).keys@[j].keys@,
                        keymap@,
                    ),
                forall|j: int|
                    0 <= j < self.keys@.len() ==> (#[trigger] self.keys@[j]).area == old(
                        self,
                    ).keys@[j].area && self.keys@[j].keys@ == old(self).keys@[j].keys@,
            decreases self.keys@.len() - i,
        {
            assert(self.keys@[i as int].wf());
            self.keys[i].update(keymap);
            i = i + 1;
        }
    }

    /// The indices of the regions that are pressed, in insertion order.
    pub fn pressed_regions(&self) -> (r: Vec<usize>)
        ensures
            r@ == pressed_indices(self.flags()),
    {
        let mut r: Vec<usize> = Vec::new();
        let mut i: usize = 0;
        while i < self.keys.len()
            invariant
                i <= self.keys@.len(),
                r@ == pressed_indices(self.flags().take(i as int)),
            decreases self.keys@.len() - i,
        {
            assert(self.flags().take(i + 1).drop_last() =~= self.flags().take(i as int));
            if self.keys[i].pressed {
                r.push(i);
            }
            i = i + 1;
        }
        assert(self.flags().take(i as int) =~= self.flags());
        r
    }
}

} // verus!
