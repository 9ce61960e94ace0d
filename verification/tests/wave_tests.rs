use audio_generation::WaveError;
use audio_generation::wave::Wave;
use audio_generation::compose::compose;

fn mono16(data: &[u8]) -> Wave {
    Wave {
        num_channels: 1,
        sample_rate: 44100,
        bits_per_sample: 16,
        data: data.to_vec(),
    }
}

#[test]
fn encode_writes_a_consistent_header() {
    let w = Wave {
        num_channels: 2,
        sample_rate: 44100,
        bits_per_sample: 16,
        data: vec![1, 2, 3, 4],
    };
    let b = w.encode();
    assert_eq!(b.len(), 48);
    assert_eq!(&b[0..4], b"RIFF");
    // riff chunk size: 36 + 4 data bytes
    assert_eq!(&b[4..8], &40u32.to_le_bytes());
    assert_eq!(&b[8..12], b"WAVE");
    assert_eq!(&b[12..16], b"fmt ");
    assert_eq!(&b[16..20], &16u32.to_le_bytes());
    // format tag 1: uncompressed PCM
    assert_eq!(&b[20..22], &1u16.to_le_bytes());
    assert_eq!(&b[22..24], &2u16.to_le_bytes());
    assert_eq!(&b[24..28], &44100u32.to_le_bytes());
    // byte rate: 44100 * 2 channels * 2 bytes per sample
    assert_eq!(&b[28..32], &176400u32.to_le_bytes());
    // block align: 2 channels * 2 bytes per sample
    assert_eq!(&b[32..34], &4u16.to_le_bytes());
    assert_eq!(&b[34..36], &16u16.to_le_bytes());
    assert_eq!(&b[36..40], b"data");
    assert_eq!(&b[40..44], &4u32.to_le_bytes());
    assert_eq!(&b[44..48], &[1, 2, 3, 4]);
}

#[test]
fn decode_restores_what_encode_wrote() {
    let w = Wave {
        num_channels: 2,
        sample_rate: 22050,
        bits_per_sample: 8,
        data: vec![9, 8, 7, 6, 5],
    };
    let b = w.encode();
    let d = Wave::decode(&b).unwrap();
    assert_eq!(d.num_channels, 2);
    assert_eq!(d.sample_rate, 22050);
    assert_eq!(d.bits_per_sample, 8);
    assert_eq!(d.data, vec![9, 8, 7, 6, 5]);
}

#[test]
fn decode_rejects_short_input() {
    let r = Wave::decode(&vec![0u8; 43]);
    assert!(matches!(r, Err(WaveError::FormatError)));
}

#[test]
fn decode_rejects_wrong_riff_tag() {
    let mut b = mono16(&[1, 2]).encode();
    b[0] = b'X';
    assert!(matches!(Wave::decode(&b), Err(WaveError::FormatError)));
}

#[test]
fn decode_rejects_compressed_format_tag() {
    let mut b = mono16(&[1, 2]).encode();
    // format tag 2 would mean compressed data
    b[20] = 2;
    assert!(matches!(Wave::decode(&b), Err(WaveError::FormatError)));
}

#[test]
fn decode_rejects_data_length_beyond_available_bytes() {
    let mut b = mono16(&[1, 2]).encode();
    b[40] = 3;
    assert!(matches!(Wave::decode(&b), Err(WaveError::FormatError)));
}

#[test]
fn decode_ignores_trailing_bytes_beyond_declared_length() {
    let mut b = mono16(&[1, 2]).encode();
    b.push(77);
    let d = Wave::decode(&b).unwrap();
    assert_eq!(d.data, vec![1, 2]);
}

#[test]
fn composing_one_waveform_is_the_identity() {
    let w = mono16(&[10, 20, 30, 40]);
    let c = compose(&vec![w]).unwrap();
    assert_eq!(c.data, vec![10, 20, 30, 40]);
    assert_eq!(c.num_channels, 1);
    assert_eq!(c.sample_rate, 44100);
    assert_eq!(c.bits_per_sample, 16);
}

#[test]
fn composing_pairwise_matches_composing_all_at_once() {
    let w1 = mono16(&[1, 2]);
    let w2 = mono16(&[3, 4]);
    let w3 = mono16(&[5, 6]);
    let r12 = compose(&vec![w1, w2]).unwrap();
    let paired = compose(&vec![r12, w3]).unwrap();
    let w1b = mono16(&[1, 2]);
    let w2b = mono16(&[3, 4]);
    let w3b = mono16(&[5, 6]);
    let direct = compose(&vec![w1b, w2b, w3b]).unwrap();
    assert_eq!(paired.data, direct.data);
    assert_eq!(paired.data, vec![1, 2, 3, 4, 5, 6]);
}

#[test]
fn composing_mixed_bit_depths_fails() {
    let w16 = mono16(&[1, 2]);
    let w8 = Wave {
        num_channels: 1,
        sample_rate: 44100,
        bits_per_sample: 8,
        data: vec![3],
    };
    let r = compose(&vec![w16, w8]);
    assert!(matches!(r, Err(WaveError::FormatMismatch)));
}

#[test]
fn composing_mixed_sample_rates_fails() {
    let a = mono16(&[1, 2]);
    let mut b = mono16(&[3, 4]);
    b.sample_rate = 8000;
    assert!(matches!(compose(&vec![a, b]), Err(WaveError::FormatMismatch)));
}

#[test]
fn composing_nothing_fails() {
    let r = compose(&Vec::new());
    assert!(matches!(r, Err(WaveError::EmptyComposition)));
}

#[test]
fn append_concatenates_sample_bytes() {
    let mut a = mono16(&[1, 2]);
    let b = mono16(&[3, 4]);
    a.append(&b).unwrap();
    assert_eq!(a.data, vec![1, 2, 3, 4]);
}

#[test]
fn append_rejects_mismatched_channels() {
    let mut a = mono16(&[1, 2]);
    let mut b = mono16(&[3, 4]);
    b.num_channels = 2;
    let r = a.append(&b);
    assert!(matches!(r, Err(WaveError::FormatMismatch)));
    assert_eq!(a.data, vec![1, 2]);
}
