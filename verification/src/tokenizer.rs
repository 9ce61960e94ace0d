//! Phoneme tokenizer: extracts the maximal runs of uppercase ASCII
//! letters from raw predictor output, in order of position.
//!
//! A run still open at end of input is dropped, never emitted: that is
//! the observable behaviour of the scanner and is kept as specified.

use vstd::prelude::*;
use crate::bytes::{byte_views, copy_range};

verus! {

/// An uppercase ASCII letter, `A` through `Z`.
pub open spec fn is_upper(b: u8) -> bool {
    65 <= b <= 90
}

/// The half-open ranges of the tokens found from position `i` on,
/// given that a run is open since `open` (or no run is open, `open == -1`).
pub open spec fn tok_ranges(s: Seq<u8>, i: int, open: int) -> Seq<(int, int)>
    decreases s.len() - i when i <= s.len()
{
    if i >= s.len() {
        Seq::empty()
    } else if is_upper(s[i]) {
        tok_ranges(s, i + 1, if open == -1 { i } else { open })
    } else if open >= 0 {
        seq![(open, i)] + tok_ranges(s, i + 1, -1)
    } else {
        tok_ranges(s, i + 1, -1)
    }
}

/// The half-open byte ranges `[start, end)` of all emitted tokens.
pub open spec fn token_ranges(s: Seq<u8>) -> Seq<(int, int)> {
    tok_ranges(s, 0, -1)
}

/// The emitted tokens themselves, as byte strings, in order of position.
pub open spec fn tokens(s: Seq<u8>) -> Seq<Seq<u8>> {
    token_ranges(s).map_values(|r: (int, int)| s.subrange(r.0, r.1))
}

/// The open-run marker as the spec scanner sees it.
spec fn spec_open(left_bound: Option<usize>) -> int {
    match left_bound {
        Some(lb) => lb as int,
        None => -1,
    }
}

/// Scans predictor output left to right and returns the phoneme tokens:
/// the maximal uppercase-letter runs, except a run still open at end of
/// input, which is dropped.
pub fn get_slices(phoneme_string: &Vec<u8>) -> (r: Vec<Vec<u8>>)
    ensures
        byte_views(r@) == tokens(phoneme_string@),
{
    let ghost s = phoneme_string@;
    let mut r: Vec<Vec<u8>> = Vec::new();
    let mut left_bound: Option<usize> = None;
    let n = phoneme_string.len();
    let mut x: usize = 0;
    while x < n
        invariant
            x <= n,
            n == s.len(),
            s == phoneme_string@,
            left_bound matches Some(lb) ==> lb < x,
            tokens(s) == byte_views(r@)
                + tok_ranges(s, x as int, spec_open(left_bound))
                    .map_values(|rg: (int, int)| s.subrange(rg.0, rg.1)),
        decreases n - x,
    {
        let b = phoneme_string[x];
        if b >= 65 && b <= 90 {
            if left_bound.is_none() {
                left_bound = Some(x);
            }
        } else if let Some(lb) = left_bound {
            let tok = copy_range(phoneme_string, lb, x);
            proof {
                let rest = tok_ranges(s, x as int + 1, -1);
                assert((seq![(lb as int, x as int)] + rest)
                    .map_values(|rg: (int, int)| s.subrange(rg.0, rg.1))
                    =~= seq![s.subrange(lb as int, x as int)]
                        + rest.map_values(|rg: (int, int)| s.subrange(rg.0, rg.1)));
                assert(byte_views(r@.push(tok))
                    =~= byte_views(r@) + seq![s.subrange(lb as int, x as int)]);
            }
            r.push(tok);
            left_bound = None;
        }
        x = x + 1;
    }
    proof {
        assert(tokens(s) =~= byte_views(r@));
    }
    r
}

/// A range `(a, b)` is a well-formed emitted token range of `s`: nonempty,
/// made of uppercase letters only, and maximal on both sides — the byte
/// right after it exists and is not uppercase (so a run reaching end of
/// input is never emitted), and the byte right before it, if any, is not
/// uppercase either.
pub open spec fn range_wf(s: Seq<u8>, a: int, b: int) -> bool {
    &&& 0 <= a < b < s.len()
    &&& forall|j: int| a <= j < b ==> is_upper(s[j])
    &&& !is_upper(s[b])
    &&& a == 0 || !is_upper(s[a - 1])
}

proof fn lemma_tok_ranges_wf(s: Seq<u8>, i: int, open: int)
    requires
        0 <= i <= s.len(),
        open == -1 || (0 <= open < i && (forall|j: int| open <= j < i ==> is_upper(s[j]))
            && (open == 0 || !is_upper(s[open - 1]))),
        open == -1 ==> i == 0 || !is_upper(s[i - 1]),
    ensures
        forall|k: int| 0 <= k < tok_ranges(s, i, open).len() ==> {
            let rg = #[trigger] tok_ranges(s, i, open)[k];
            range_wf(s, rg.0, rg.1) && (rg.0 == open || rg.0 >= i)
        },
        forall|k: int| 0 <= k < tok_ranges(s, i, open).len() - 1
            ==> (#[trigger] tok_ranges(s, i, open)[k]).1
                < tok_ranges(s, i, open)[k + 1].0,
    decreases s.len() - i,
{
    let res = tok_ranges(s, i, open);
    if i >= s.len() {
    } else if is_upper(s[i]) {
        let op2 = if open == -1 { i } else { open };
        lemma_tok_ranges_wf(s, i + 1, op2);
        let rest = tok_ranges(s, i + 1, op2);
        assert forall|k: int| 0 <= k < res.len() implies {
            let rg = #[trigger] res[k];
            range_wf(s, rg.0, rg.1) && (rg.0 == open || rg.0 >= i)
        } by {
            assert(res[k] == rest[k]);
        }
        assert forall|k: int| 0 <= k < res.len() - 1
            implies (#[trigger] res[k]).1 < res[k + 1].0 by {
            assert(res[k] == rest[k]);
            assert(res[k + 1] == rest[k + 1]);
        }
    } else if open >= 0 {
        lemma_tok_ranges_wf(s, i + 1, -1);
        let rest = tok_ranges(s, i + 1, -1);
        assert(res == seq![(open, i)] + rest);
        assert forall|k: int| 0 <= k < res.len() implies {
            let rg = #[trigger] res[k];
            range_wf(s, rg.0, rg.1) && (rg.0 == open || rg.0 >= i)
        } by {
            if k > 0 {
                assert(res[k] == rest[k - 1]);
            }
        }
        assert forall|k: int| 0 <= k < res.len() - 1
            implies (#[trigger] res[k]).1 < res[k + 1].0 by {
            if k == 0 {
                assert(res[1] == rest[0]);
                assert(rest[0].0 == -1 || rest[0].0 >= i + 1);
                assert(range_wf(s, rest[0].0, rest[0].1));
            } else {
                assert(res[k] == rest[k - 1]);
                assert(res[k + 1] == rest[k]);
            }
        }
    } else {
        lemma_tok_ranges_wf(s, i + 1, -1);
        let rest = tok_ranges(s, i + 1, -1);
        assert forall|k: int| 0 <= k < res.len() implies {
            let rg = #[trigger] res[k];
            range_wf(s, rg.0, rg.1) && (rg.0 == open || rg.0 >= i)
        } by {
            assert(res[k] == rest[k]);
        }
        assert forall|k: int| 0 <= k < res.len() - 1
            implies (#[trigger] res[k]).1 < res[k + 1].0 by {
            assert(res[k] == rest[k]);
            assert(res[k + 1] == rest[k + 1]);
        }
    }
}

/// Every emitted token range is a maximal run of uppercase letters that
/// does not reach end of input, and the ranges are disjoint and strictly
/// ordered by position; so every token consists of uppercase letters
/// only, and no two tokens have only uppercase bytes between them.
pub proof fn lemma_tokens_wf(s: Seq<u8>)
    ensures
        tokens(s).len() == token_ranges(s).len(),
        forall|k: int| 0 <= k < token_ranges(s).len() ==> {
            let rg = #[trigger] token_ranges(s)[k];
            range_wf(s, rg.0, rg.1)
        },
        forall|k: int| 0 <= k < token_ranges(s).len() - 1
            ==> (#[trigger] token_ranges(s)[k]).1 < token_ranges(s)[k + 1].0,
        forall|k: int| 0 <= k < tokens(s).len() ==> {
            let rg = #[trigger] token_ranges(s)[k];
            tokens(s)[k] == s.subrange(rg.0, rg.1)
        },
        forall|k: int| 0 <= k < tokens(s).len()
            ==> (#[trigger] tokens(s)[k]).len() > 0,
        forall|k: int, j: int|
            0 <= k < tokens(s).len() && 0 <= j < tokens(s)[k].len()
            ==> is_upper(#[trigger] tokens(s)[k][j]),
{
    lemma_tok_ranges_wf(s, 0, -1);
    assert forall|k: int, j: int|
        0 <= k < tokens(s).len() && 0 <= j < tokens(s)[k].len()
        implies is_upper(#[trigger] tokens(s)[k][j]) by {
        let rg = token_ranges(s)[k];
        assert(range_wf(s, rg.0, rg.1));
        assert(tokens(s)[k][j] == s[rg.0 + j]);
    }
}

} // verus!
