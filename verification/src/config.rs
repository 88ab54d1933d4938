//! Startup configuration: the tempo argument and the transition style token.
//!
//! The tempo is a decimal number of beats per minute, carried as milli-bpm
//! so that `photo_time` — the seconds each slide stays — is exact integer
//! arithmetic.  A missing or unusable tempo falls back to the default of 12
//! beats per minute, never to an error.  The style token must match one of
//! the three style names exactly; anything else means the hard cut.

use vstd::prelude::*;

use crate::bytes::{
    lemma_digits_value_bounds, lemma_find_byte_properties, lemma_find_byte_unique,
    spec_all_digits, spec_digits_value, spec_find_byte, spec_is_digit, DECIMAL_CAP,
};
use crate::easing::Transition;
use crate::units::MAX_PHOTO_MS;

verus! {

/// The default tempo, in milli-bpm: 12 beats per minute, five seconds per
/// slide.
pub const DEFAULT_BPM_MILLI: u64 = 12_000;

/// A usable tempo token: digits, optionally split by one decimal dot, with
/// at least one digit overall.
pub open spec fn spec_tempo_wf(s: Seq<u8>) -> bool {
    let d = spec_find_byte(s, 46);
    if d == s.len() {
        s.len() > 0 && spec_all_digits(s)
    } else {
        spec_all_digits(s.take(d)) && spec_all_digits(s.skip(d + 1)) && s.len() > 1
    }
}

/// Value in milli-units of up to three fractional digits; further digits
/// are beyond the engine's resolution and ignored.
pub open spec fn spec_frac3_value(s: Seq<u8>) -> int {
    if s.len() >= 3 {
        spec_digits_value(s.take(3))
    } else if s.len() == 2 {
        spec_digits_value(s) * 10
    } else if s.len() == 1 {
        spec_digits_value(s) * 100
    } else {
        0
    }
}

/// The token's value in milli-bpm, saturating at [`DECIMAL_CAP`].
pub open spec fn spec_tempo_milli(s: Seq<u8>) -> int
    recommends
        spec_tempo_wf(s),
{
    let d = spec_find_byte(s, 46);
    let whole = spec_digits_value(s.take(d));
    let frac = if d < s.len() {
        spec_frac3_value(s.skip(d + 1))
    } else {
        0
    };
    let v = whole * 1000 + frac;
    if v > DECIMAL_CAP {
        DECIMAL_CAP as int
    } else {
        v
    }
}

/// The tempo the show runs at: the token's value when it is well formed and
/// at least one milli-bpm, the default otherwise.
pub open spec fn spec_effective_bpm_milli(s: Seq<u8>) -> int {
    if spec_tempo_wf(s) && spec_tempo_milli(s) >= 1 {
        spec_tempo_milli(s)
    } else {
        DEFAULT_BPM_MILLI as int
    }
}

/// Milliseconds per slide for a tempo in milli-bpm: `60s / bpm`, with
/// sub-millisecond periods rounded up to one millisecond.
pub open spec fn spec_photo_time_ms(bpm_milli: int) -> int
    recommends
        bpm_milli >= 1,
{
    let raw = 60_000_000int / bpm_milli;
    if raw < 1 {
        1
    } else {
        raw
    }
}

pub fn photo_time_ms(bpm_milli: u64) -> (p: u64)
    requires
        bpm_milli >= 1,
    ensures
        p == spec_photo_time_ms(bpm_milli as int),
        1 <= p <= MAX_PHOTO_MS,
{
    proof {
        vstd::arithmetic::div_mod::lemma_div_nonincreasing(60_000_000, bpm_milli as int);
        vstd::arithmetic::div_mod::lemma_div_pos_is_pos(60_000_000, bpm_milli as int);
    }
    let raw = 60_000_000u64 / bpm_milli;
    if raw < 1 {
        1
    } else {
        raw
    }
}

/// Parse the tempo argument; anything unusable means the default tempo.
pub fn parse_bpm_milli(s: &[u8]) -> (bpm: u64)
    ensures
        bpm == spec_effective_bpm_milli(s@),
        1 <= bpm <= DECIMAL_CAP,
{
    proof {
        lemma_find_byte_properties(s@, 46);
    }
    // Find the decimal dot, if any.
    let mut d: usize = 0;
    while d < s.len() && s[d] != 46
        invariant
            0 <= d <= s@.len(),
            forall|j: int| 0 <= j < d ==> s@[j] != 46,
        decreases s@.len() - d,
    {
        d = d + 1;
    }
    proof {
        lemma_find_byte_unique(s@, 46, d as int);
    }
    if d == s.len() && s.len() == 0 {
        return DEFAULT_BPM_MILLI;
    }
    if d < s.len() && s.len() == 1 {
        // Only the dot.
        return DEFAULT_BPM_MILLI;
    }
    // Whole part.
    let mut whole: u64 = 0;
    let mut i: usize = 0;
    while i < d
        invariant
            0 <= i <= d <= s@.len(),
            spec_find_byte(s@, 46) == d,
            spec_all_digits(s@.take(i as int)),
            whole == spec_digits_value(s@.take(i as int)),
            whole <= DECIMAL_CAP,
        decreases d - i,
    {
        let c = s[i];
        if c < 48 || c > 57 {
            proof {
                assert(s@.take(d as int)[i as int] == s@[i as int]);
                assert(!spec_all_digits(s@.take(d as int)));
                if d == s.len() {
                    assert(s@.take(d as int) =~= s@);
                }
            }
            return DEFAULT_BPM_MILLI;
        }
        proof {
            crate::bytes::lemma_digits_value_step(s@, i as int);
            assert forall|j: int| 0 <= j < i + 1 implies spec_is_digit(
                #[trigger] s@.take(i as int + 1)[j],
            ) by {
                assert(s@.take(i as int + 1)[j] == s@[j]);
                if j < i {
                    assert(s@.take(i as int)[j] == s@[j]);
                }
            }
        }
        let step: u64 = whole * 10 + (c - 48) as u64;
        whole = if step > DECIMAL_CAP {
            DECIMAL_CAP
        } else {
            step
        };
        i = i + 1;
    }
    proof {
        assert(s@.take(d as int) =~= s@.take(i as int));
        if d == s.len() {
            assert(s@.take(d as int) =~= s@);
        }
    }
    // Fraction part: everything must be a digit, the first three count.
    let mut frac: u64 = 0;
    if d < s.len() {
        let flen = s.len() - d - 1;
        let ghost fpart = s@.skip(d as int + 1);
        assert(fpart.len() == flen);
        let mut j: usize = 0;
        while j < flen
            invariant
                0 <= j <= flen,
                flen == fpart.len(),
                fpart == s@.skip(d as int + 1),
                d < s@.len(),
                s@.len() <= usize::MAX,
                spec_find_byte(s@, 46) == d,
                s@.len() - d - 1 == flen,
                spec_all_digits(fpart.take(j as int)),
                frac == spec_digits_value(fpart.take(if j < 3 {
                    j as int
                } else {
                    3
                })),
                j == 0 ==> frac == 0,
                j == 1 ==> frac <= 9,
                j == 2 ==> frac <= 99,
                frac <= 999,
            decreases flen - j,
        {
            let c = s[d + 1 + j];
            proof {
                assert(fpart[j as int] == s@[d as int + 1 + j as int]);
            }
            if c < 48 || c > 57 {
                proof {
                    assert(!spec_all_digits(fpart));
                }
                return DEFAULT_BPM_MILLI;
            }
            proof {
                crate::bytes::lemma_digits_value_step(fpart, j as int);
                assert forall|k: int| 0 <= k < j + 1 implies spec_is_digit(
                    #[trigger] fpart.take(j as int + 1)[k],
                ) by {
                    assert(fpart.take(j as int + 1)[k] == fpart[k]);
                    if k < j {
                        assert(fpart.take(j as int)[k] == fpart[k]);
                    }
                }
                if j >= 3 {
                    assert(fpart.take(if j + 1 < 3 {
                        j as int + 1
                    } else {
                        3
                    }) =~= fpart.take(if j < 3 {
                        j as int
                    } else {
                        3
                    }));
                }
            }
            if j < 3 {
                frac = frac * 10 + (c - 48) as u64;
            }
            j = j + 1;
        }
        proof {
            assert(fpart.take(fpart.len() as int) =~= fpart);
            if flen >= 3 {
            } else if flen == 2 {
                assert(fpart.take(2int) =~= fpart);
            } else if flen == 1 {
                assert(fpart.take(1int) =~= fpart);
            }
        }
        if flen == 2 {
            frac = frac * 10;
        }
        if flen == 1 {
            frac = frac * 100;
        }
        proof {
            lemma_digits_value_bounds(fpart);
            if flen >= 3 {
                lemma_digits_value_bounds(fpart.take(3int));
            }
        }
        assert(frac == spec_frac3_value(fpart));
    }
    let v: u64 = {
        let scaled = whole * 1000;
        if scaled > DECIMAL_CAP {
            DECIMAL_CAP
        } else {
            let sum = scaled + frac;
            if sum > DECIMAL_CAP {
                DECIMAL_CAP
            } else {
                sum
            }
        }
    };
    proof {
        assert(spec_tempo_wf(s@));
    }
    if v >= 1 {
        v
    } else {
        DEFAULT_BPM_MILLI
    }
}

/// Parse the transition style token: an exact match on one of the three
/// style names; anything else means the hard cut.
pub open spec fn spec_parse_transition(s: Seq<u8>) -> Transition {
    if s == seq![122u8, 111u8, 111u8, 109u8] {  // "zoom"
        Transition::Zoom
    } else if s == seq![102u8, 97u8, 100u8, 101u8] {  // "fade"
        Transition::Fade
    } else {
        Transition::Cut
    }
}

pub fn parse_transition(token: &[u8]) -> (style: Transition)
    ensures
        style == spec_parse_transition(token@),
{
    if token.len() == 4 && token[0] == 122 && token[1] == 111 && token[2] == 111 && token[3]
        == 109 {
        proof {
            assert(token@ =~= seq![122u8, 111u8, 111u8, 109u8]);
        }
        Transition::Zoom
    } else if token.len() == 4 && token[0] == 102 && token[1] == 97 && token[2] == 100 && token[3]
        == 101 {
        proof {
            assert(token@ =~= seq![102u8, 97u8, 100u8, 101u8]);
        }
        Transition::Fade
    } else {
        proof {
            if token@ == seq![122u8, 111u8, 111u8, 109u8] {
                assert(token@[0] == 122 && token@[1] == 111 && token@[2] == 111 && token@[3]
                    == 109);
            }
            if token@ == seq![102u8, 97u8, 100u8, 101u8] {
                assert(token@[0] == 102 && token@[1] == 97 && token@[2] == 100 && token@[3]
                    == 101);
            }
        }
        Transition::Cut
    }
}

} // verus!
