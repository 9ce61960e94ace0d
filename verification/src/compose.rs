//! Waveform compositor: concatenates an ordered sequence of decoded
//! waveforms into one buffer, enforcing that all of them share the same
//! sample rate, channel count and bit depth.

use vstd::prelude::*;
use crate::WaveError;
use crate::wave::{Wave, WaveModel};

verus! {

/// Two waveforms carry the same format: sample rate, channel count and
/// bit depth all equal.
pub open spec fn fmt_eq(a: WaveModel, b: WaveModel) -> bool {
    &&& a.num_channels == b.num_channels
    &&& a.sample_rate == b.sample_rate
    &&& a.bits_per_sample == b.bits_per_sample
}

/// Every waveform of the sequence matches the format of the first.
pub open spec fn all_compatible(ws: Seq<WaveModel>) -> bool {
    forall|i: int| 0 <= i < ws.len() ==> fmt_eq(#[trigger] ws[i], ws[0])
}

/// The sample bytes of a sequence of waveforms, concatenated in order.
pub open spec fn concat_data(ws: Seq<WaveModel>) -> Seq<u8>
    decreases ws.len(),
{
    if ws.len() == 0 {
        Seq::empty()
    } else {
        concat_data(ws.drop_last()) + ws.last().data
    }
}

/// The models of a vector of waveforms.
pub open spec fn wave_views(ws: Seq<Wave>) -> Seq<WaveModel> {
    ws.map_values(|w: Wave| w@)
}

/// Concatenating one more waveform appends its sample bytes.
pub proof fn lemma_concat_data_push(ws: Seq<WaveModel>, w: WaveModel)
    ensures
        concat_data(ws.push(w)) == concat_data(ws) + w.data,
{
    assert(ws.push(w).drop_last() =~= ws);
    assert(ws.push(w).last() == w);
}

impl Wave {
    /// Appends the sample bytes of a format-compatible waveform after
    /// this waveform's own, leaving the format metadata unchanged.
    /// Fails with `FormatMismatch`, changing nothing, exactly when the
    /// two formats differ.
    pub fn append(&mut self, other: &Wave) -> (r: Result<(), WaveError>)
        ensures
            match r {
                Ok(()) => fmt_eq(old(self)@, other@)
                    && fmt_eq(final(self)@, old(self)@)
                    && final(self)@.data == old(self)@.data + other@.data,
                Err(e) => e == WaveError::FormatMismatch
                    && !fmt_eq(old(self)@, other@)
                    && final(self)@ == old(self)@,
            },
    {
        if self.num_channels != other.num_channels
            || self.sample_rate != other.sample_rate
            || self.bits_per_sample != other.bits_per_sample {
            return Err(WaveError::FormatMismatch);
        }
        let n = other.data.len();
        let mut j: usize = 0;
        while j < n
            invariant
                j <= n,
                n == other@.data.len(),
                self@.data == old(self)@.data + other@.data.take(j as int),
                fmt_eq(self@, old(self)@),
            decreases n - j,
        {
            let b = other.data[j];
            self.data.push(b);
            proof {
                assert(self@.data =~= old(self)@.data + other@.data.take(j as int + 1));
            }
            j = j + 1;
        }
        proof {
            assert(other@.data.take(n as int) =~= other@.data);
        }
        Ok(())
    }
}

/// Concatenates the given waveforms into one. Fails with
/// `EmptyComposition` exactly when there are none, and with
/// `FormatMismatch` exactly when one of them differs from the first in
/// sample rate, channel count or bit depth; otherwise the result takes
/// the format of the first waveform and carries all the sample bytes in
/// order.
pub fn compose(waveforms: &Vec<Wave>) -> (r: Result<Wave, WaveError>)
    ensures
        match r {
            Ok(w) => waveforms@.len() > 0
                && all_compatible(wave_views(waveforms@))
                && fmt_eq(w@, waveforms@[0]@)
                && w@.data == concat_data(wave_views(waveforms@)),
            Err(e) => {
                if waveforms@.len() == 0 {
                    e == WaveError::EmptyComposition
                } else {
                    e == WaveError::FormatMismatch
                        && !all_compatible(wave_views(waveforms@))
                }
            },
        },
{
    let ghost ms = wave_views(waveforms@);
    let n = waveforms.len();
    if n == 0 {
        return Err(WaveError::EmptyComposition);
    }
    let num_channels = waveforms[0].num_channels;
    let sample_rate = waveforms[0].sample_rate;
    let bits_per_sample = waveforms[0].bits_per_sample;
    let mut data: Vec<u8> = Vec::new();
    let mut i: usize = 0;
    while i < n
        invariant
            i <= n,
            n == waveforms@.len(),
            ms == wave_views(waveforms@),
            num_channels == ms[0].num_channels,
            sample_rate == ms[0].sample_rate,
            bits_per_sample == ms[0].bits_per_sample,
            forall|k: int| 0 <= k < i ==> fmt_eq(#[trigger] ms[k], ms[0]),
            data@ == concat_data(ms.take(i as int)),
        decreases n - i,
    {
        let w = &waveforms[i];
        if w.num_channels != num_channels
            || w.sample_rate != sample_rate
            || w.bits_per_sample != bits_per_sample {
            proof {
                assert(!fmt_eq(ms[i as int], ms[0]));
            }
            return Err(WaveError::FormatMismatch);
        }
        let m = w.data.len();
        let mut j: usize = 0;
        while j < m
            invariant
                j <= m,
                i < n,
                n == waveforms@.len(),
                ms == wave_views(waveforms@),
                m == ms[i as int].data.len(),
                data@ == concat_data(ms.take(i as int)) + ms[i as int].data.take(j as int),
            decreases m - j,
        {
            let b = waveforms[i].data[j];
            data.push(b);
            proof {
                assert(data@ =~= concat_data(ms.take(i as int))
                    + ms[i as int].data.take(j as int + 1));
            }
            j = j + 1;
        }
        proof {
            assert(ms[i as int].data.take(m as int) =~= ms[i as int].data);
            lemma_concat_data_push(ms.take(i as int), ms[i as int]);
            assert(ms.take(i as int).push(ms[i as int]) =~= ms.take(i as int + 1));
        }
        i = i + 1;
    }
    proof {
        assert(ms.take(n as int) =~= ms);
    }
    Ok(Wave { num_channels, sample_rate, bits_per_sample, data })
}

/// Composing a single waveform is the identity on its sample bytes: the
/// composition's data is byte-identical to the waveform's own.
pub proof fn lemma_compose_identity(w: WaveModel)
    ensures
        concat_data(seq![w]) == w.data,
{
    assert(concat_data(Seq::<WaveModel>::empty()) == Seq::<u8>::empty());
    assert(Seq::<WaveModel>::empty().push(w) =~= seq![w]);
    lemma_concat_data_push(Seq::<WaveModel>::empty(), w);
    assert(Seq::<u8>::empty() + w.data =~= w.data);
}

/// Composition is associative: composing two waveforms and then the
/// result with a third yields the same sample bytes as composing all
/// three in order.
pub proof fn lemma_compose_assoc(w1: WaveModel, w2: WaveModel, w3: WaveModel, r12: WaveModel)
    requires
        r12.data == concat_data(seq![w1, w2]),
    ensures
        concat_data(seq![r12, w3]) == concat_data(seq![w1, w2, w3]),
{
    lemma_compose_identity(w1);
    assert(seq![w1].push(w2) =~= seq![w1, w2]);
    lemma_concat_data_push(seq![w1], w2);
    assert(seq![w1, w2].push(w3) =~= seq![w1, w2, w3]);
    lemma_concat_data_push(seq![w1, w2], w3);
    lemma_compose_identity(r12);
    assert(seq![r12].push(w3) =~= seq![r12, w3]);
    lemma_concat_data_push(seq![r12], w3);
}

} // verus!
