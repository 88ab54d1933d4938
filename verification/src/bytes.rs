//! Byte-scanning helpers shared by the tempo parser and the manifest
//! splitter: first occurrence of a byte, digit runs, and saturating decimal
//! values.

use vstd::prelude::*;

verus! {

/// Saturation cap for parsed decimal values: large enough for any sane
/// tempo, small enough that scaling to milli-units cannot overflow.
pub const DECIMAL_CAP: u64 = 1_000_000_000_000;

/// Index of the first occurrence of `c` in `s`, or `s.len()` if absent.
pub open spec fn spec_find_byte(s: Seq<u8>, c: u8) -> int
    decreases s.len(),
{
    if s.len() == 0 {
        0
    } else if s[0] == c {
        0
    } else {
        1 + spec_find_byte(s.skip(1), c)
    }
}

/// What `spec_find_byte` finds: in range, a hit if in bounds, no hit before.
pub proof fn lemma_find_byte_properties(s: Seq<u8>, c: u8)
    ensures
        0 <= spec_find_byte(s, c) <= s.len(),
        spec_find_byte(s, c) < s.len() ==> s[spec_find_byte(s, c)] == c,
        forall|j: int| 0 <= j < spec_find_byte(s, c) ==> s[j] != c,
    decreases s.len(),
{
    if s.len() == 0 {
    } else if s[0] == c {
    } else {
        lemma_find_byte_properties(s.skip(1), c);
        let p = spec_find_byte(s, c);
        assert forall|j: int| 0 <= j < p implies s[j] != c by {
            if j > 0 {
                assert(s.skip(1)[j - 1] == s[j]);
            }
        }
        if p < s.len() {
            assert(s.skip(1)[p - 1] == s[p]);
        }
    }
}

/// Any index with a hit and no hit before it is `spec_find_byte`'s answer;
/// so is the length when the byte is absent.
pub proof fn lemma_find_byte_unique(s: Seq<u8>, c: u8, d: int)
    requires
        0 <= d <= s.len(),
        d < s.len() ==> s[d] == c,
        forall|j: int| 0 <= j < d ==> s[j] != c,
    ensures
        spec_find_byte(s, c) == d,
{
    lemma_find_byte_properties(s, c);
    let p = spec_find_byte(s, c);
    if p < d {
        assert(s[p] != c);
    } else if d < p {
        assert(s[d] != c);
    }
}

pub open spec fn spec_is_digit(c: u8) -> bool {
    48 <= c <= 57
}

pub open spec fn spec_all_digits(s: Seq<u8>) -> bool {
    forall|i: int| 0 <= i < s.len() ==> spec_is_digit(#[trigger] s[i])
}

/// Value of a run of decimal digits, saturating at [`DECIMAL_CAP`].
pub open spec fn spec_digits_value(s: Seq<u8>) -> int
    recommends
        spec_all_digits(s),
    decreases s.len(),
{
    if s.len() == 0 {
        0
    } else {
        let v = spec_digits_value(s.drop_last()) * 10 + (s.last() - 48);
        if v > DECIMAL_CAP {
            DECIMAL_CAP as int
        } else {
            v
        }
    }
}

/// The saturating decimal value stays within `[0, DECIMAL_CAP]`.
pub proof fn lemma_digits_value_bounds(s: Seq<u8>)
    requires
        spec_all_digits(s),
    ensures
        0 <= spec_digits_value(s) <= DECIMAL_CAP,
    decreases s.len(),
{
    if s.len() > 0 {
        assert(spec_all_digits(s.drop_last())) by {
            assert(forall|i: int|
                0 <= i < s.len() - 1 ==> #[trigger] s.drop_last()[i] == s[i]);
        }
        lemma_digits_value_bounds(s.drop_last());
        assert(spec_is_digit(s.last()));
    }
}

/// Append one digit to a scanned prefix: the value advances by one
/// saturating decimal step.
pub proof fn lemma_digits_value_step(s: Seq<u8>, i: int)
    requires
        0 <= i < s.len(),
    ensures
        spec_digits_value(s.take(i + 1)) == {
            let v = spec_digits_value(s.take(i)) * 10 + (s[i] - 48);
            if v > DECIMAL_CAP {
                DECIMAL_CAP as int
            } else {
                v
            }
        },
{
    assert(s.take(i + 1).drop_last() =~= s.take(i));
    assert(s.take(i + 1).last() == s[i]);
}

} // verus!
