use audio_generation::tokenizer::get_slices;
use audio_generation::segmenter::get_words;

#[test]
fn single_inner_token() {
    let out = get_slices(&b"aXYZb".to_vec());
    assert_eq!(out, vec![b"XYZ".to_vec()]);
}

#[test]
fn trailing_open_run_is_dropped() {
    let out = get_slices(&b"abXY".to_vec());
    assert_eq!(out, Vec::<Vec<u8>>::new());
}

#[test]
fn two_tokens_split_on_space() {
    let out = get_slices(&b"HH AY ".to_vec());
    assert_eq!(out, vec![b"HH".to_vec(), b"AY".to_vec()]);
}

#[test]
fn no_uppercase_yields_no_tokens() {
    let out = get_slices(&b"abc 123 ,.!".to_vec());
    assert_eq!(out, Vec::<Vec<u8>>::new());
}

#[test]
fn empty_predictor_output_yields_no_tokens() {
    let out = get_slices(&Vec::new());
    assert_eq!(out, Vec::<Vec<u8>>::new());
}

#[test]
fn separators_never_appear_inside_tokens() {
    let out = get_slices(&b"A1B2C3 DE,FG.".to_vec());
    assert_eq!(
        out,
        vec![
            b"A".to_vec(),
            b"B".to_vec(),
            b"C".to_vec(),
            b"DE".to_vec(),
            b"FG".to_vec(),
        ]
    );
}

#[test]
fn words_split_on_single_spaces() {
    let out = get_words(&b"a b".to_vec());
    assert_eq!(out, vec![b"a".to_vec(), b"b".to_vec()]);
}

#[test]
fn consecutive_spaces_yield_empty_word() {
    let out = get_words(&b"a  b".to_vec());
    assert_eq!(out, vec![b"a".to_vec(), b"".to_vec(), b"b".to_vec()]);
}

#[test]
fn trailing_space_yields_trailing_empty_word() {
    let out = get_words(&b"a ".to_vec());
    assert_eq!(out, vec![b"a".to_vec(), b"".to_vec()]);
}

#[test]
fn empty_sentence_is_one_empty_word() {
    let out = get_words(&Vec::new());
    assert_eq!(out, vec![b"".to_vec()]);
}

#[test]
fn joining_words_with_spaces_restores_the_sentence() {
    let sentence = b"the quick  brown fox ".to_vec();
    let words = get_words(&sentence);
    let mut joined: Vec<u8> = Vec::new();
    for (i, w) in words.iter().enumerate() {
        if i > 0 {
            joined.push(b' ');
        }
        joined.extend_from_slice(w);
    }
    assert_eq!(joined, sentence);
}
