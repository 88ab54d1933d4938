//! The image-path manifest and the preload pass.
//!
//! The manifest is a text file of newline-separated image paths; its line
//! count is the nominal slide count.  During preload each path either yields
//! a decoded image or is skipped silently; the slides that survive keep
//! their relative order, and everything downstream — timeline, compositor,
//! volume envelope — runs on the surviving count.

use vstd::prelude::*;

use crate::bytes::{lemma_find_byte_properties, lemma_find_byte_unique, spec_find_byte};
use crate::compositor::SlideDims;

verus! {

/// A line with its trailing carriage return stripped, as `str::lines` does.
pub open spec fn spec_strip_cr(line: Seq<u8>) -> Seq<u8> {
    if line.len() > 0 && line.last() == 13 {
        line.drop_last()
    } else {
        line
    }
}

/// The manifest's lines: split at every newline, one line per entry, no
/// entry for a trailing newline, carriage returns stripped at line ends.
pub open spec fn spec_lines(s: Seq<u8>) -> Seq<Seq<u8>>
    decreases s.len(),
    via spec_lines_decreases
{
    if s.len() == 0 {
        Seq::empty()
    } else {
        let p = spec_find_byte(s, 10);
        if p == s.len() {
            seq![spec_strip_cr(s)]
        } else {
            seq![spec_strip_cr(s.take(p))] + spec_lines(s.skip(p + 1))
        }
    }
}

#[via_fn]
proof fn spec_lines_decreases(s: Seq<u8>) {
    lemma_find_byte_properties(s, 10);
}

/// Split the manifest text into its lines.
pub fn split_lines(data: &[u8]) -> (lines: Vec<Vec<u8>>)
    ensures
        lines@.map_values(|l: Vec<u8>| l@) == spec_lines(data@),
        lines@.len() == spec_lines(data@).len(),
        forall|i: int| 0 <= i < lines@.len() ==> #[trigger] lines@[i]@ == spec_lines(data@)[i],
{
    let mut lines: Vec<Vec<u8>> = Vec::new();
    let mut from: usize = 0;
    proof {
        assert(data@.skip(0int) =~= data@);
        assert(lines@.map_values(|l: Vec<u8>| l@) + spec_lines(data@.skip(0int)) =~= spec_lines(
            data@,
        ));
    }
    while from < data.len()
        invariant
            0 <= from <= data@.len(),
            spec_lines(data@) == lines@.map_values(|l: Vec<u8>| l@) + spec_lines(
                data@.skip(from as int),
            ),
        decreases data@.len() - from,
    {
        let ghost rest = data@.skip(from as int);
        // Find the next newline at or after `from`.
        let mut j: usize = from;
        while j < data.len() && data[j] != 10
            invariant
                from <= j <= data@.len(),
                forall|k: int| from <= k < j ==> data@[k] != 10,
            decreases data@.len() - j,
        {
            j = j + 1;
        }
        proof {
            assert forall|k: int| 0 <= k < j - from implies rest[k] != 10 by {
                assert(rest[k] == data@[from + k]);
            }
            if j < data.len() {
                assert(rest[j - from] == data@[j as int]);
            }
            lemma_find_byte_unique(rest, 10, j - from as int);
        }
        // Copy the line, stripping one trailing carriage return.
        let end: usize = if j > from && data[j - 1] == 13 {
            j - 1
        } else {
            j
        };
        let mut line: Vec<u8> = Vec::new();
        let mut k: usize = from;
        while k < end
            invariant
                from <= k <= end <= data@.len(),
                line@ == data@.subrange(from as int, k as int),
            decreases end - k,
        {
            line.push(data[k]);
            proof {
                assert(line@ =~= data@.subrange(from as int, k as int + 1));
            }
            k = k + 1;
        }
        proof {
            let whole = if j == data@.len() {
                rest
            } else {
                rest.take(j - from as int)
            };
            assert(whole =~= data@.subrange(from as int, j as int));
            if j > from && data@[j - 1] == 13 {
                assert(whole.last() == data@[j - 1]);
                assert(line@ =~= spec_strip_cr(whole));
            } else {
                assert(line@ =~= spec_strip_cr(whole));
            }
        }
        let ghost old_lines = lines@;
        lines.push(line);
        let new_from: usize = if j < data.len() {
            j + 1
        } else {
            j
        };
        proof {
            let mapped = lines@.map_values(|l: Vec<u8>| l@);
            let old_mapped = old_lines.map_values(|l: Vec<u8>| l@);
            assert(mapped =~= old_mapped + seq![line@]);
            if j < data@.len() {
                assert(rest.skip(j - from as int + 1) =~= data@.skip(new_from as int));
                assert(spec_lines(rest) == seq![spec_strip_cr(rest.take(j - from as int))]
                    + spec_lines(rest.skip(j - from as int + 1)));
            } else {
                assert(data@.skip(new_from as int) =~= Seq::<u8>::empty());
            }
            assert(spec_lines(data@) =~= mapped + spec_lines(data@.skip(new_from as int)));
        }
        from = new_from;
    }
    proof {
        assert(data@.skip(from as int) =~= Seq::<u8>::empty());
        assert(lines@.map_values(|l: Vec<u8>| l@) =~= spec_lines(data@));
        assert forall|i: int| 0 <= i < lines@.len() implies #[trigger] lines@[i]@ == spec_lines(
            data@,
        )[i] by {
            assert(lines@.map_values(|l: Vec<u8>| l@)[i] == lines@[i]@);
        }
    }
    lines
}

/// The dimensions of the slides that survive the preload pass, in order:
/// one entry per decoded image, none for the paths that failed.
pub open spec fn spec_loaded_dims(loaded: Seq<Option<SlideDims>>) -> Seq<SlideDims>
    decreases loaded.len(),
{
    if loaded.len() == 0 {
        Seq::empty()
    } else {
        spec_loaded_dims(loaded.drop_last()) + match loaded.last() {
            Some(d) => seq![d],
            None => Seq::empty(),
        }
    }
}

/// Keep the slides that decoded, in order, dropping the failures silently.
pub fn preload_keep(loaded: &Vec<Option<SlideDims>>) -> (kept: Vec<SlideDims>)
    ensures
        kept@ == spec_loaded_dims(loaded@),
        kept@.len() <= loaded@.len(),
{
    proof {
        lemma_loaded_dims_count(loaded@);
    }
    let mut kept: Vec<SlideDims> = Vec::new();
    let mut i: usize = 0;
    while i < loaded.len()
        invariant
            0 <= i <= loaded@.len(),
            kept@ == spec_loaded_dims(loaded@.take(i as int)),
        decreases loaded@.len() - i,
    {
        proof {
            assert(loaded@.take(i as int + 1).drop_last() =~= loaded@.take(i as int));
            assert(loaded@.take(i as int + 1).last() == loaded@[i as int]);
        }
        match loaded[i] {
            Some(d) => {
                kept.push(d);
                proof {
                    assert(kept@ =~= spec_loaded_dims(loaded@.take(i as int + 1)));
                }
            },
            None => {
                proof {
                    assert(kept@ =~= spec_loaded_dims(loaded@.take(i as int + 1)));
                }
            },
        }
        i = i + 1;
    }
    proof {
        assert(loaded@.take(loaded@.len() as int) =~= loaded@);
    }
    kept
}

/// No more slides survive the preload than paths went in.
pub proof fn lemma_loaded_dims_count(loaded: Seq<Option<SlideDims>>)
    ensures
        spec_loaded_dims(loaded).len() <= loaded.len(),
    decreases loaded.len(),
{
    if loaded.len() > 0 {
        lemma_loaded_dims_count(loaded.drop_last());
    }
}

} // verus!
