//! Sentence segmenter: splits a sentence into words on the ASCII space
//! character, keeping order and exact boundaries.
//!
//! Every space produces one boundary; consecutive spaces yield an empty
//! word, and the final word runs to end of input. Nothing is trimmed or
//! collapsed, so joining the words back with single spaces restores the
//! sentence exactly.

use vstd::prelude::*;
use crate::bytes::{byte_views, copy_range};

verus! {

/// The ASCII space character.
pub open spec fn is_space(b: u8) -> bool {
    b == 32
}

/// The words of `s` from position `i` on, the current word open since
/// `left`.
pub open spec fn wds(s: Seq<u8>, i: int, left: int) -> Seq<Seq<u8>>
    decreases s.len() - i when i <= s.len()
{
    if i >= s.len() {
        seq![s.subrange(left, s.len() as int)]
    } else if is_space(s[i]) {
        seq![s.subrange(left, i)] + wds(s, i + 1, i + 1)
    } else {
        wds(s, i + 1, left)
    }
}

/// The words of a sentence: the spans between space characters, in
/// order, the last span running to end of input.
pub open spec fn words(s: Seq<u8>) -> Seq<Seq<u8>> {
    wds(s, 0, 0)
}

/// Splits a sentence into its words on the space character. A sentence
/// always yields at least one word; consecutive spaces yield an empty
/// word between them.
pub fn get_words(sentence: &Vec<u8>) -> (r: Vec<Vec<u8>>)
    ensures
        byte_views(r@) == words(sentence@),
        r@.len() > 0,
{
    let ghost s = sentence@;
    let mut r: Vec<Vec<u8>> = Vec::new();
    let mut left_bound: usize = 0;
    let n = sentence.len();
    let mut x: usize = 0;
    while x < n
        invariant
            x <= n,
            n == s.len(),
            s == sentence@,
            left_bound <= x,
            words(s) == byte_views(r@) + wds(s, x as int, left_bound as int),
        decreases n - x,
    {
        if sentence[x] == 32 {
            let w = copy_range(sentence, left_bound, x);
            proof {
                assert(byte_views(r@.push(w))
                    =~= byte_views(r@) + seq![s.subrange(left_bound as int, x as int)]);
                assert(byte_views(r@) + wds(s, x as int, left_bound as int)
                    =~= byte_views(r@.push(w)) + wds(s, x as int + 1, x as int + 1));
            }
            r.push(w);
            left_bound = x + 1;
        }
        x = x + 1;
    }
    let w = copy_range(sentence, left_bound, n);
    proof {
        assert(byte_views(r@.push(w))
            =~= byte_views(r@) + seq![s.subrange(left_bound as int, s.len() as int)]);
        assert(words(s) =~= byte_views(r@.push(w)));
    }
    r.push(w);
    r
}

/// The words joined back together with a single space between
/// consecutive words.
pub open spec fn join_spaced(ws: Seq<Seq<u8>>) -> Seq<u8>
    decreases ws.len(),
{
    if ws.len() == 0 {
        Seq::empty()
    } else if ws.len() == 1 {
        ws[0]
    } else {
        ws[0] + seq![32u8] + join_spaced(ws.skip(1))
    }
}

proof fn lemma_wds_join(s: Seq<u8>, i: int, left: int)
    requires
        0 <= left <= i <= s.len(),
    ensures
        wds(s, i, left).len() >= 1,
        join_spaced(wds(s, i, left)) == s.subrange(left, s.len() as int),
    decreases s.len() - i,
{
    let res = wds(s, i, left);
    if i >= s.len() {
    } else if is_space(s[i]) {
        lemma_wds_join(s, i + 1, i + 1);
        let rest = wds(s, i + 1, i + 1);
        assert(res == seq![s.subrange(left, i)] + rest);
        assert(res.skip(1) =~= rest);
        assert(join_spaced(res)
            == s.subrange(left, i) + seq![32u8] + join_spaced(rest));
        assert(s.subrange(left, i) + seq![32u8] + s.subrange(i + 1, s.len() as int)
            =~= s.subrange(left, s.len() as int));
    } else {
        lemma_wds_join(s, i + 1, left);
    }
}

/// Joining the words of a sentence with single spaces restores the
/// sentence exactly, and a sentence always has at least one word.
pub proof fn lemma_words_join(s: Seq<u8>)
    ensures
        words(s).len() >= 1,
        join_spaced(words(s)) == s,
{
    lemma_wds_join(s, 0, 0);
    assert(s.subrange(0, s.len() as int) =~= s);
}

} // verus!
