//! Clip resolver: maps each phoneme token of a word to the file name of
//! its audio clip, `<TOKEN>.wav`, and appends the fixed inter-word pause
//! clip `_.wav` after every word — also after a word that produced no
//! tokens, so one pause per word boundary is guaranteed.

use vstd::prelude::*;
use crate::bytes::{byte_views, copy_range};
use crate::tokenizer::{tokens, get_slices};

verus! {

/// The file-name suffix `.wav`.
pub open spec fn wav_suffix() -> Seq<u8> {
    seq![46u8, 119u8, 97u8, 118u8]
}

/// The name of the inter-word pause clip, `_.wav`.
pub open spec fn pause_name_spec() -> Seq<u8> {
    seq![95u8, 46u8, 119u8, 97u8, 118u8]
}

/// Each token's clip file name: the token text with the `.wav` suffix.
pub open spec fn suffixed(ts: Seq<Seq<u8>>) -> Seq<Seq<u8>>
    decreases ts.len(),
{
    if ts.len() == 0 {
        Seq::empty()
    } else {
        suffixed(ts.drop_last()).push(ts.last() + wav_suffix())
    }
}

/// Suffixing keeps the length and works element by element.
pub proof fn lemma_suffixed(ts: Seq<Seq<u8>>)
    ensures
        suffixed(ts).len() == ts.len(),
        forall|k: int| 0 <= k < ts.len() ==> suffixed(ts)[k] == ts[k] + wav_suffix(),
    decreases ts.len(),
{
    if ts.len() > 0 {
        lemma_suffixed(ts.drop_last());
        assert forall|k: int| 0 <= k < ts.len()
            implies suffixed(ts)[k] == ts[k] + wav_suffix() by {
            if k < ts.len() - 1 {
                assert(suffixed(ts)[k] == suffixed(ts.drop_last())[k]);
                assert(ts.drop_last()[k] == ts[k]);
            }
        }
    }
}

/// Suffixing one more token appends its clip file name.
pub proof fn lemma_suffixed_push(ts: Seq<Seq<u8>>, t: Seq<u8>)
    ensures
        suffixed(ts.push(t)) == suffixed(ts).push(t + wav_suffix()),
{
    assert(ts.push(t).drop_last() =~= ts);
    assert(ts.push(t).last() == t);
}

/// The clip file names of one word's predictor output: one `<TOKEN>.wav`
/// per token, in token order, then the pause clip's name.
pub open spec fn clip_names_spec(s: Seq<u8>) -> Seq<Seq<u8>> {
    suffixed(tokens(s)).push(pause_name_spec())
}

/// Builds the clip file name `<token-text>.wav` of a phoneme token.
pub fn clip_file_name(token: &Vec<u8>) -> (r: Vec<u8>)
    ensures
        r@ == token@ + wav_suffix(),
{
    let mut r = copy_range(token, 0, token.len());
    r.push(46);
    r.push(119);
    r.push(97);
    r.push(118);
    proof {
        assert(token@.subrange(0, token@.len() as int) =~= token@);
        assert(r@ =~= token@ + wav_suffix());
    }
    r
}

/// Builds the pause clip's file name, `_.wav`.
pub fn pause_file_name() -> (r: Vec<u8>)
    ensures
        r@ == pause_name_spec(),
{
    let mut r: Vec<u8> = Vec::new();
    r.push(95);
    r.push(46);
    r.push(119);
    r.push(97);
    r.push(118);
    proof {
        assert(r@ =~= pause_name_spec());
    }
    r
}

/// Resolves one word's predictor output to the ordered clip file names
/// to load: one per phoneme token, and the pause clip's name last,
/// whether or not the word produced any tokens.
pub fn clip_names_for_word(phoneme_string: &Vec<u8>) -> (r: Vec<Vec<u8>>)
    ensures
        byte_views(r@) == clip_names_spec(phoneme_string@),
        r@.len() == tokens(phoneme_string@).len() + 1,
{
    let ghost s = phoneme_string@;
    let toks = get_slices(phoneme_string);
    let mut r: Vec<Vec<u8>> = Vec::new();
    proof {
        assert(byte_views(r@) =~= suffixed(tokens(s).take(0)));
    }
    let n = toks.len();
    let mut i: usize = 0;
    while i < n
        invariant
            i <= n,
            n == toks@.len(),
            byte_views(toks@) == tokens(s),
            byte_views(r@) == suffixed(tokens(s).take(i as int)),
        decreases n - i,
    {
        let name = clip_file_name(&toks[i]);
        proof {
            assert(toks@[i as int]@ == tokens(s)[i as int]);
            assert(tokens(s).take(i as int).push(tokens(s)[i as int])
                =~= tokens(s).take(i as int + 1));
            lemma_suffixed_push(tokens(s).take(i as int), tokens(s)[i as int]);
            assert(byte_views(r@.push(name))
                =~= suffixed(tokens(s).take(i as int)).push(tokens(s)[i as int] + wav_suffix()));
        }
        r.push(name);
        i = i + 1;
    }
    let pause = pause_file_name();
    proof {
        assert(tokens(s).take(n as int) =~= tokens(s));
        assert(byte_views(r@.push(pause)) =~= clip_names_spec(s));
        lemma_suffixed(tokens(s));
    }
    r.push(pause);
    r
}

} // verus!
