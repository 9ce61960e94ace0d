//! Pipeline assembly: turns the ordered clip waveforms of a whole
//! sentence into one encoded output container.

use vstd::prelude::*;
use crate::WaveError;
use crate::wave::{Wave, WaveModel, wave_valid, encode_spec};
use crate::compose::{compose, all_compatible, concat_data, fmt_eq, wave_views};

verus! {

/// The composition of a nonempty sequence of waveforms: the format of
/// the first, carrying all the sample bytes in order.
pub open spec fn composition_spec(ms: Seq<WaveModel>) -> WaveModel
    recommends
        ms.len() > 0,
{
    WaveModel {
        num_channels: ms[0].num_channels,
        sample_rate: ms[0].sample_rate,
        bits_per_sample: ms[0].bits_per_sample,
        data: concat_data(ms),
    }
}

/// Concatenates the given clip waveforms and encodes the result as one
/// wave container. Fails with `EmptyComposition` exactly when there are
/// no waveforms, with `FormatMismatch` exactly when one differs from
/// the first in format, and with `FormatError` exactly when the merged
/// sample data no longer fits the container's 32-bit header fields.
pub fn assemble(waveforms: &Vec<Wave>) -> (r: Result<Vec<u8>, WaveError>)
    ensures
        match r {
            Ok(bytes) => waveforms@.len() > 0
                && all_compatible(wave_views(waveforms@))
                && wave_valid(composition_spec(wave_views(waveforms@)))
                && bytes@ == encode_spec(composition_spec(wave_views(waveforms@))),
            Err(e) => {
                if waveforms@.len() == 0 {
                    e == WaveError::EmptyComposition
                } else if !all_compatible(wave_views(waveforms@)) {
                    e == WaveError::FormatMismatch
                } else {
                    e == WaveError::FormatError
                        && !wave_valid(composition_spec(wave_views(waveforms@)))
                }
            },
        },
{
    let ghost ms = wave_views(waveforms@);
    let merged = match compose(waveforms) {
        Ok(w) => w,
        Err(e) => {
            return Err(e);
        },
    };
    proof {
        assert(merged@ =~= composition_spec(ms));
    }
    if merged.data.len() > (u32::MAX - 36) as usize {
        return Err(WaveError::FormatError);
    }
    let bytes_per_sample = merged.bits_per_sample / 8;
    proof {
        vstd::arithmetic::mul::lemma_mul_upper_bound(
            merged.num_channels as int, 0xffff, bytes_per_sample as int, 0xffff);
    }
    let block_align: u64 = (merged.num_channels as u64) * (bytes_per_sample as u64);
    if block_align > u16::MAX as u64 {
        return Err(WaveError::FormatError);
    }
    proof {
        vstd::arithmetic::mul::lemma_mul_upper_bound(
            merged.sample_rate as int, 0xffff_ffff, block_align as int, 0xffff);
    }
    if (merged.sample_rate as u64) * block_align > u32::MAX as u64 {
        return Err(WaveError::FormatError);
    }
    Ok(merged.encode())
}

} // verus!
