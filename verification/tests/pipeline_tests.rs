use audio_generation::WaveError;
use audio_generation::wave::Wave;
use audio_generation::segmenter::get_words;
use audio_generation::resolver::{clip_file_name, pause_file_name, clip_names_for_word};
use audio_generation::pipeline::assemble;

fn clip(data: &[u8]) -> Wave {
    Wave {
        num_channels: 1,
        sample_rate: 16000,
        bits_per_sample: 16,
        data: data.to_vec(),
    }
}

#[test]
fn clip_file_name_appends_wav_suffix() {
    assert_eq!(clip_file_name(&b"HH".to_vec()), b"HH.wav".to_vec());
}

#[test]
fn pause_file_name_is_underscore_wav() {
    assert_eq!(pause_file_name(), b"_.wav".to_vec());
}

#[test]
fn clip_names_cover_each_token_then_the_pause() {
    let names = clip_names_for_word(&b"HH AY\n".to_vec());
    assert_eq!(
        names,
        vec![b"HH.wav".to_vec(), b"AY.wav".to_vec(), b"_.wav".to_vec()]
    );
}

#[test]
fn word_without_tokens_still_gets_a_pause() {
    let names = clip_names_for_word(&b"no phonemes here".to_vec());
    assert_eq!(names, vec![b"_.wav".to_vec()]);
}

#[test]
fn assemble_encodes_the_composition() {
    let a = clip(&[1, 2]);
    let b = clip(&[3, 4]);
    let bytes = assemble(&vec![a, b]).unwrap();
    let merged = Wave::decode(&bytes).unwrap();
    assert_eq!(merged.num_channels, 1);
    assert_eq!(merged.sample_rate, 16000);
    assert_eq!(merged.bits_per_sample, 16);
    assert_eq!(merged.data, vec![1, 2, 3, 4]);
}

#[test]
fn assemble_propagates_empty_composition() {
    assert!(matches!(assemble(&Vec::new()), Err(WaveError::EmptyComposition)));
}

#[test]
fn assemble_propagates_format_mismatch() {
    let a = clip(&[1, 2]);
    let mut b = clip(&[3, 4]);
    b.bits_per_sample = 8;
    assert!(matches!(assemble(&vec![a, b]), Err(WaveError::FormatMismatch)));
}

// The whole pipeline on the sentence "hi", with a predictor that
// answers "HH AY" and the three clips present: the output container
// must hold the sample bytes of HH, AY and the pause, in that order.
#[test]
fn sentence_hi_yields_hh_ay_pause() {
    let hh = clip(&[1, 1]);
    let ay = clip(&[2, 2]);
    let pause = clip(&[0, 0]);
    let stored: Vec<(Vec<u8>, Vec<u8>)> = vec![
        (b"HH.wav".to_vec(), hh.encode()),
        (b"AY.wav".to_vec(), ay.encode()),
        (b"_.wav".to_vec(), pause.encode()),
    ];

    let sentence = b"hi".to_vec();
    let words = get_words(&sentence);
    assert_eq!(words, vec![b"hi".to_vec()]);

    let mut clips: Vec<Wave> = Vec::new();
    for word in &words {
        // the predictor is external; for the word "hi" it answers "HH AY"
        assert_eq!(word, &b"hi".to_vec());
        let predicted = b"HH AY ".to_vec();
        for name in clip_names_for_word(&predicted) {
            let bytes = &stored.iter().find(|(n, _)| n == &name).unwrap().1;
            clips.push(Wave::decode(bytes).unwrap());
        }
    }

    let out = assemble(&clips).unwrap();
    let merged = Wave::decode(&out).unwrap();
    assert_eq!(merged.data, vec![1, 1, 2, 2, 0, 0]);
    assert_eq!(merged.num_channels, 1);
    assert_eq!(merged.sample_rate, 16000);
    assert_eq!(merged.bits_per_sample, 16);
}
