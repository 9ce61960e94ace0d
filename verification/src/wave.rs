//! Wave codec: decodes an uncompressed PCM wave container into a sample
//! buffer with its format metadata, and encodes such a buffer back into
//! a container whose header fields are computed from the buffer itself,
//! so they are always internally consistent.

use vstd::prelude::*;
use crate::WaveError;
use crate::bytes::{
    le16, le32, le16_bytes, le32_bytes, lemma_le16_round, lemma_le32_round, u16_from, u32_from,
    push_u16, push_u32, copy_range,
};

verus! {

/// A decoded waveform: format metadata and raw sample bytes.
pub struct Wave {
    pub num_channels: u16,
    pub sample_rate: u32,
    pub bits_per_sample: u16,
    pub data: Vec<u8>,
}

/// The mathematical model of a waveform.
#[verifier::ext_equal]
pub ghost struct WaveModel {
    pub num_channels: u16,
    pub sample_rate: u32,
    pub bits_per_sample: u16,
    pub data: Seq<u8>,
}

impl View for Wave {
    type V = WaveModel;

    open spec fn view(&self) -> WaveModel {
        WaveModel {
            num_channels: self.num_channels,
            sample_rate: self.sample_rate,
            bits_per_sample: self.bits_per_sample,
            data: self.data@,
        }
    }
}

/// Bytes per sample frame: channel count times whole bytes per sample.
pub open spec fn spec_block_align(w: WaveModel) -> int {
    w.num_channels * (w.bits_per_sample as int / 8)
}

/// Bytes of sample data per second of audio.
pub open spec fn spec_byte_rate(w: WaveModel) -> int {
    w.sample_rate * spec_block_align(w)
}

/// A waveform whose derived header fields all fit their 16- and 32-bit
/// container slots.
pub open spec fn wave_valid(w: WaveModel) -> bool {
    &&& w.data.len() + 36 <= u32::MAX
    &&& spec_block_align(w) <= u16::MAX
    &&& spec_byte_rate(w) <= u32::MAX
}

pub open spec fn riff_tag() -> Seq<u8> {
    seq![82u8, 73u8, 70u8, 70u8]
}

pub open spec fn wave_tag() -> Seq<u8> {
    seq![87u8, 65u8, 86u8, 69u8]
}

pub open spec fn fmt_tag() -> Seq<u8> {
    seq![102u8, 109u8, 116u8, 32u8]
}

pub open spec fn data_tag() -> Seq<u8> {
    seq![100u8, 97u8, 116u8, 97u8]
}

/// The 44-byte container header of a waveform.
pub open spec fn header_spec(w: WaveModel) -> Seq<u8>
    recommends
        wave_valid(w),
{
    riff_tag() + le32_bytes((36 + w.data.len()) as u32) + wave_tag() + fmt_tag()
        + le32_bytes(16u32) + le16_bytes(1u16) + le16_bytes(w.num_channels)
        + le32_bytes(w.sample_rate) + le32_bytes(spec_byte_rate(w) as u32)
        + le16_bytes(spec_block_align(w) as u16) + le16_bytes(w.bits_per_sample)
        + data_tag() + le32_bytes(w.data.len() as u32)
}

/// The full encoded container: header followed by the sample bytes.
pub open spec fn encode_spec(w: WaveModel) -> Seq<u8>
    recommends
        wave_valid(w),
{
    header_spec(w) + w.data
}

/// The fixed header checks of a wave container: the four tags, a
/// 16-byte format chunk, and format tag 1 (uncompressed PCM).
pub open spec fn wav_header_ok(b: Seq<u8>) -> bool {
    &&& b.len() >= 44
    &&& b[0] == 82 && b[1] == 73 && b[2] == 70 && b[3] == 70
    &&& b[8] == 87 && b[9] == 65 && b[10] == 86 && b[11] == 69
    &&& b[12] == 102 && b[13] == 109 && b[14] == 116 && b[15] == 32
    &&& le32(b[16], b[17], b[18], b[19]) == 16
    &&& le16(b[20], b[21]) == 1
    &&& b[36] == 100 && b[37] == 97 && b[38] == 116 && b[39] == 97
}

/// The declared length of the sample data.
pub open spec fn wav_data_len(b: Seq<u8>) -> int
    recommends
        b.len() >= 44,
{
    le32(b[40], b[41], b[42], b[43])
}

/// A container decodes successfully exactly when its header checks pass
/// and the declared data length does not exceed the available bytes.
pub open spec fn wav_well_formed(b: Seq<u8>) -> bool {
    wav_header_ok(b) && wav_data_len(b) <= b.len() - 44
}

/// What decoding a byte string yields: `None` on any malformed
/// container, otherwise the waveform read from the header fields and
/// the declared stretch of sample bytes.
pub open spec fn decode_spec(b: Seq<u8>) -> Option<WaveModel> {
    if wav_well_formed(b) {
        Some(WaveModel {
            num_channels: le16(b[22], b[23]) as u16,
            sample_rate: le32(b[24], b[25], b[26], b[27]) as u32,
            bits_per_sample: le16(b[34], b[35]) as u16,
            data: b.subrange(44, 44 + wav_data_len(b)),
        })
    } else {
        None
    }
}

proof fn lemma_header_bytes(w: WaveModel)
    requires
        wave_valid(w),
    ensures
        header_spec(w).len() == 44,
        header_spec(w)[0] == 82 && header_spec(w)[1] == 73
            && header_spec(w)[2] == 70 && header_spec(w)[3] == 70,
        header_spec(w)[8] == 87 && header_spec(w)[9] == 65
            && header_spec(w)[10] == 86 && header_spec(w)[11] == 69,
        header_spec(w)[12] == 102 && header_spec(w)[13] == 109
            && header_spec(w)[14] == 116 && header_spec(w)[15] == 32,
        forall|j: int| 0 <= j < 4 ==> header_spec(w)[16 + j] == #[trigger] le32_bytes(16u32)[j],
        forall|j: int| 0 <= j < 2 ==> header_spec(w)[20 + j] == #[trigger] le16_bytes(1u16)[j],
        forall|j: int| 0 <= j < 2
            ==> header_spec(w)[22 + j] == #[trigger] le16_bytes(w.num_channels)[j],
        forall|j: int| 0 <= j < 4
            ==> header_spec(w)[24 + j] == #[trigger] le32_bytes(w.sample_rate)[j],
        forall|j: int| 0 <= j < 2
            ==> header_spec(w)[34 + j] == #[trigger] le16_bytes(w.bits_per_sample)[j],
        header_spec(w)[36] == 100 && header_spec(w)[37] == 97
            && header_spec(w)[38] == 116 && header_spec(w)[39] == 97,
        forall|j: int| 0 <= j < 4
            ==> header_spec(w)[40 + j] == #[trigger] le32_bytes(w.data.len() as u32)[j],
{
    let p1 = riff_tag();
    let p2 = p1 + le32_bytes((36 + w.data.len()) as u32);
    let p3 = p2 + wave_tag();
    let p4 = p3 + fmt_tag();
    let p5 = p4 + le32_bytes(16u32);
    let p6 = p5 + le16_bytes(1u16);
    let p7 = p6 + le16_bytes(w.num_channels);
    let p8 = p7 + le32_bytes(w.sample_rate);
    let p9 = p8 + le32_bytes(spec_byte_rate(w) as u32);
    let p10 = p9 + le16_bytes(spec_block_align(w) as u16);
    let p11 = p10 + le16_bytes(w.bits_per_sample);
    let p12 = p11 + data_tag();
    let p13 = p12 + le32_bytes(w.data.len() as u32);
    assert(header_spec(w) == p13);
    assert(p2.len() == 8);
    assert(p4.len() == 16);
    assert(p6.len() == 22);
    assert(p8.len() == 28);
    assert(p10.len() == 34);
    assert(p12.len() == 40);
    assert(p13.len() == 44);
}

/// Decoding an encoded waveform restores the waveform exactly: the
/// format metadata and the sample bytes all round-trip through the
/// container form.
pub proof fn lemma_decode_encode(w: WaveModel)
    requires
        wave_valid(w),
    ensures
        decode_spec(encode_spec(w)) == Some(w),
{
    let b = encode_spec(w);
    let h = header_spec(w);
    lemma_header_bytes(w);
    assert(b.len() == 44 + w.data.len());
    assert(forall|k: int| 0 <= k < 44 ==> b[k] == h[k]);
    lemma_le32_round(16u32);
    lemma_le16_round(1u16);
    lemma_le16_round(w.num_channels);
    lemma_le32_round(w.sample_rate);
    lemma_le16_round(w.bits_per_sample);
    lemma_le32_round(w.data.len() as u32);
    assert(wav_header_ok(b));
    assert(wav_data_len(b) == w.data.len());
    assert(b.subrange(44, 44 + wav_data_len(b)) =~= w.data);
    assert(decode_spec(b) matches Some(m) && m =~= w);
}

impl Wave {
    /// Parses a PCM wave container. Fails with `FormatError` exactly on
    /// a malformed container: short or wrong header, a format tag other
    /// than uncompressed PCM, or a declared data length beyond the
    /// bytes available.
    pub fn decode(bytes: &Vec<u8>) -> (r: Result<Wave, WaveError>)
        ensures
            match r {
                Ok(w) => decode_spec(bytes@) == Some(w@),
                Err(e) => decode_spec(bytes@) is None && e == WaveError::FormatError,
            },
    {
        let n = bytes.len();
        if n < 44 {
            return Err(WaveError::FormatError);
        }
        if bytes[0] != 82 || bytes[1] != 73 || bytes[2] != 70 || bytes[3] != 70 {
            return Err(WaveError::FormatError);
        }
        if bytes[8] != 87 || bytes[9] != 65 || bytes[10] != 86 || bytes[11] != 69 {
            return Err(WaveError::FormatError);
        }
        if bytes[12] != 102 || bytes[13] != 109 || bytes[14] != 116 || bytes[15] != 32 {
            return Err(WaveError::FormatError);
        }
        if u32_from(bytes[16], bytes[17], bytes[18], bytes[19]) != 16 {
            return Err(WaveError::FormatError);
        }
        if u16_from(bytes[20], bytes[21]) != 1 {
            return Err(WaveError::FormatError);
        }
        if bytes[36] != 100 || bytes[37] != 97 || bytes[38] != 116 || bytes[39] != 97 {
            return Err(WaveError::FormatError);
        }
        let num_channels = u16_from(bytes[22], bytes[23]);
        let sample_rate = u32_from(bytes[24], bytes[25], bytes[26], bytes[27]);
        let bits_per_sample = u16_from(bytes[34], bytes[35]);
        let dl = u32_from(bytes[40], bytes[41], bytes[42], bytes[43]);
        if dl as usize > n - 44 {
            return Err(WaveError::FormatError);
        }
        let data = copy_range(bytes, 44, 44 + dl as usize);
        let w = Wave { num_channels, sample_rate, bits_per_sample, data };
        proof {
            assert(wav_well_formed(bytes@));
            assert(decode_spec(bytes@) matches Some(m) && m =~= w@);
        }
        Ok(w)
    }

    /// Serializes the waveform into a PCM wave container whose chunk
    /// sizes, byte rate and block alignment are computed afresh from
    /// the sample buffer and the format metadata.
    pub fn encode(&self) -> (r: Vec<u8>)
        requires
            wave_valid(self@),
        ensures
            r@ == encode_spec(self@),
    {
        let dl = self.data.len();
        let mut out: Vec<u8> = Vec::new();
        out.push(82);
        out.push(73);
        out.push(70);
        out.push(70);
        proof {
            assert(out@ =~= riff_tag());
        }
        push_u32(&mut out, dl as u32 + 36);
        out.push(87);
        out.push(65);
        out.push(86);
        out.push(69);
        out.push(102);
        out.push(109);
        out.push(116);
        out.push(32);
        proof {
            assert(out@ =~= riff_tag() + le32_bytes((36 + self@.data.len()) as u32)
                + wave_tag() + fmt_tag());
        }
        push_u32(&mut out, 16);
        push_u16(&mut out, 1);
        push_u16(&mut out, self.num_channels);
        push_u32(&mut out, self.sample_rate);
        let bytes_per_sample = self.bits_per_sample / 8;
        let block_align: u32 = (self.num_channels as u32) * (bytes_per_sample as u32);
        let byte_rate: u64 = (self.sample_rate as u64) * (block_align as u64);
        push_u32(&mut out, byte_rate as u32);
        push_u16(&mut out, block_align as u16);
        push_u16(&mut out, self.bits_per_sample);
        out.push(100);
        out.push(97);
        out.push(116);
        out.push(97);
        proof {
            assert(out@ =~= riff_tag() + le32_bytes((36 + self@.data.len()) as u32)
                + wave_tag() + fmt_tag() + le32_bytes(16u32) + le16_bytes(1u16)
                + le16_bytes(self@.num_channels) + le32_bytes(self@.sample_rate)
                + le32_bytes(spec_byte_rate(self@) as u32)
                + le16_bytes(spec_block_align(self@) as u16)
                + le16_bytes(self@.bits_per_sample) + data_tag());
        }
        push_u32(&mut out, dl as u32);
        proof {
            assert(out@ =~= header_spec(self@));
        }
        let mut j: usize = 0;
        while j < dl
            invariant
                j <= dl,
                dl == self@.data.len(),
                out@ == header_spec(self@) + self@.data.take(j as int),
            decreases dl - j,
        {
            out.push(self.data[j]);
            proof {
                assert(out@ =~= header_spec(self@) + self@.data.take(j as int + 1));
            }
            j = j + 1;
        }
        proof {
            assert(self@.data.take(dl as int) =~= self@.data);
            assert(out@ =~= encode_spec(self@));
        }
        out
    }
}

} // verus!
