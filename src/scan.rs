use vstd::prelude::*;

verus! {

/// Whether a byte is an ASCII decimal digit.
pub open spec fn is_digit(b: u8) -> bool {
    48 <= b <= 57
}

/// The first position at or after `s` that does not hold a digit.
pub open spec fn digit_end(l: Seq<u8>, s: int) -> int
    decreases l.len() - s,
{
    if 0 <= s < l.len() && is_digit(l[s]) {
        digit_end(l, s + 1)
    } else {
        s
    }
}

/// The decimal value of a run of digits.
pub open spec fn num_value(s: Seq<u8>) -> int
    decreases s.len(),
{
    if s.len() == 0 {
        0
    } else {
        10 * num_value(s.drop_last()) + (s.last() - 48)
    }
}

/// Reads `label` at `p`, then a decimal number (with an optional `-` when
/// `signed`) of at least one digit whose value lies in `lo..=hi`; gives the
/// value and the position after its last digit.
pub open spec fn field(l: Seq<u8>, p: int, label: Seq<u8>, signed: bool, lo: int, hi: int) -> Option<
    (int, int),
> {
    let q = p + label.len();
    if 0 <= p && q <= l.len() && l.subrange(p, q) == label {
        let neg = signed && q < l.len() && l[q] == 45;
        let s = if neg {
            q + 1
        } else {
            q
        };
        let e = digit_end(l, s);
        let n = num_value(l.subrange(s, e));
        let v = if neg {
            -n
        } else {
            n
        };
        if e > s && lo <= v <= hi {
            Some((v, e))
        } else {
            None
        }
    } else {
        None
    }
}

proof fn lemma_num_value_nonneg(s: Seq<u8>)
    requires
        forall|i: int| 0 <= i < s.len() ==> is_digit(#[trigger] s[i]),
    ensures
        num_value(s) >= 0,
    decreases s.len(),
{
    if s.len() > 0 {
        lemma_num_value_nonneg(s.drop_last());
    }
}

/// A longer run of digits is worth at least as much as its prefix.
proof fn lemma_num_value_grows(l: Seq<u8>, s: int, j: int, e: int)
    requires
        0 <= s <= j <= e <= l.len(),
        forall|i: int| s <= i < e ==> is_digit(#[trigger] l[i]),
    ensures
        num_value(l.subrange(s, e)) >= num_value(l.subrange(s, j)),
    decreases e - j,
{
    if e > j {
        lemma_num_value_grows(l, s, j, e - 1);
        assert(l.subrange(s, e).drop_last() =~= l.subrange(s, e - 1));
        lemma_num_value_nonneg(l.subrange(s, e - 1));
    }
}

/// Whether `label` stands in `l` at `p`.
fn label_at(l: &[u8], p: usize, label: &[u8]) -> (r: bool)
    requires
        p <= l@.len(),
    ensures
        r == (p + label@.len() <= l@.len() && l@.subrange(p as int, p + label@.len()) == label@),
{
    let n = l.len();
    if label.len() > n - p {
        return false;
    }
    let mut k: usize = 0;
    while k < label.len()
        invariant
            n == l@.len(),
            p + label@.len() <= l@.len(),
            k <= label@.len(),
            l@.subrange(p as int, p + k) =~= label@.subrange(0, k as int),
        decreases label@.len() - k,
    {
        if l[p + k] != label[k] {
            assert(l@.subrange(p as int, p + label@.len())[k as int] != label@[k as int]);
            return false;
        }
        k = k + 1;
        assert(l@.subrange(p as int, p + k) =~= label@.subrange(0, k as int));
    }
    assert(label@.subrange(0, k as int) =~= label@);
    true
}

/// Reads a labelled number at `p`; see `field`.
#[verifier::loop_isolation(false)]
pub fn scan_field(l: &[u8], p: usize, label: &[u8], signed: bool, lo: i64, hi: i64) -> (r: Option<
    (i64, usize),
>)
    requires
        p <= l@.len(),
        -0x8000_0000 <= lo,
        hi <= 0x8000_0000,
    ensures
        match r {
            Some((v, e)) => field(l@, p as int, label@, signed, lo as int, hi as int) == Some(
                (v as int, e as int),
            ) && e <= l@.len(),
            None => field(l@, p as int, label@, signed, lo as int, hi as int) is None,
        },
{
    let n = l.len();
    if !label_at(l, p, label) {
        return None;
    }
    let q = p + label.len();
    assert(q <= l@.len());
    let neg = signed && q < l.len() && l[q] == 45u8;
    let s = if neg {
        q + 1
    } else {
        q
    };
    let mut acc: i64 = 0;
    let mut j: usize = s;
    while j < l.len() && 48u8 <= l[j] && l[j] <= 57u8
        invariant
            s <= j <= l@.len(),
            0 <= acc <= 0x8000_0000,
            acc == num_value(l@.subrange(s as int, j as int)),
            forall|i: int| s <= i < j ==> is_digit(#[trigger] l@[i]),
            digit_end(l@, s as int) == digit_end(l@, j as int),
        decreases l@.len() - j,
    {
        assert(l@.subrange(s as int, j + 1).drop_last() =~= l@.subrange(s as int, j as int));
        acc = acc * 10 + (l[j] - 48u8) as i64;
        j = j + 1;
        assert(forall|i: int| s <= i < j ==> is_digit(#[trigger] l@[i]));
        assert(digit_end(l@, (j - 1) as int) == digit_end(l@, j as int));
        if acc > 0x8000_0000 {
            proof {
                let e = digit_end(l@, s as int);
                lemma_digit_run(l@, j as int);
                assert(forall|i: int| s <= i < e ==> is_digit(#[trigger] l@[i]));
                lemma_num_value_grows(l@, s as int, j as int, e);
                assert(num_value(l@.subrange(s as int, e)) > 0x8000_0000);
            }
            return None;
        }
    }
    assert(digit_end(l@, j as int) == j as int);
    if j == s {
        return None;
    }
    let v = if neg {
        -acc
    } else {
        acc
    };
    if lo <= v && v <= hi {
        Some((v, j))
    } else {
        None
    }
}

/// The digits from `j` up to the end of the run all are digits.
proof fn lemma_digit_run(l: Seq<u8>, j: int)
    requires
        0 <= j <= l.len(),
    ensures
        j <= digit_end(l, j) <= l.len(),
        forall|i: int| j <= i < digit_end(l, j) ==> is_digit(#[trigger] l[i]),
    decreases l.len() - j,
{
    if j < l.len() && is_digit(l[j]) {
        lemma_digit_run(l, j + 1);
    }
}

} // verus!
