//! Candidate source: turns raw wordlist lines into probe candidates.
//!
//! Blank lines and `#`-prefixed comment lines are dropped; every other line
//! is trimmed and numbered with its ordinal position among the kept lines.
//! Reading the wordlist file itself is the caller's concern: this module
//! receives the lines as plain strings.

use vstd::prelude::*;
use vstd::string::*;
use crate::text::trimmed;
use crate::text::trim_str;

verus! {

/// One wordlist-derived probe target: the trimmed word and its ordinal
/// index among the kept lines.
pub struct Candidate {
    pub index: usize,
    pub word: String,
}

/// Whether a raw wordlist line survives filtering: its trimmed form is
/// non-empty and does not start with the comment marker `#`.
pub open spec fn line_kept(line: Seq<char>) -> bool {
    trimmed(line).len() > 0 && trimmed(line)[0] != '#'
}

/// The trimmed words of the kept lines, in order.
pub open spec fn kept_words(lines: Seq<String>) -> Seq<Seq<char>>
    decreases lines.len(),
{
    if lines.len() == 0 {
        Seq::empty()
    } else {
        let rest = kept_words(lines.drop_last());
        if line_kept(lines.last()@) {
            rest.push(trimmed(lines.last()@))
        } else {
            rest
        }
    }
}

/// Filters raw wordlist lines into candidates: blank and `#`-comment lines
/// are dropped, the rest are trimmed and numbered 0, 1, ... in order.
pub fn filter_candidates(lines: &Vec<String>) -> (r: Vec<Candidate>)
    ensures
        r@.map_values(|c: Candidate| c.word@) == kept_words(lines@),
        forall|i: int| 0 <= i < r@.len() ==> (#[trigger] r@[i]).index == i,
{
    let mut r: Vec<Candidate> = Vec::new();
    let mut k: usize = 0;
    while k < lines.len()
        invariant
            k <= lines@.len(),
            r@.map_values(|c: Candidate| c.word@) == kept_words(lines@.subrange(0, k as int)),
            r@.len() <= k,
            forall|i: int| 0 <= i < r@.len() ==> (#[trigger] r@[i]).index == i,
        decreases lines@.len() - k,
    {
        let t = trim_str(lines[k].as_str());
        let keep = if t.as_str().unicode_len() == 0 {
            false
        } else {
            t.as_str().get_char(0) != '#'
        };
        proof {
            assert(lines@.subrange(0, k + 1).drop_last() =~= lines@.subrange(0, k as int));
            assert(lines@.subrange(0, k + 1).last() == lines@[k as int]);
        }
        if keep {
            let c = Candidate { index: r.len(), word: t };
            r.push(c);
            proof {
                assert(r@.map_values(|c: Candidate| c.word@) =~= r@.drop_last().map_values(
                    |c: Candidate| c.word@,
                ).push(r@.last().word@));
            }
        }
        k = k + 1;
    }
    proof {
        assert(lines@.subrange(0, lines@.len() as int) =~= lines@);
    }
    r
}

} // verus!
