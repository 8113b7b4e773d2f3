//! Loading decoded sample data into the wavetable store: amplitude
//! normalization to Q16 full scale, and FIFO eviction of the oldest table
//! once the store is full.

use vstd::prelude::*;
use crate::fixed::{AMP_ONE, tdiv, tdiv_exec, lemma_tdiv_ordered_abs};
use crate::oscillator::{CustomWavetable, MAX_CUSTOM_WAVETABLES};
use crate::synth::Synth;
use crate::waveform::MAX_WAVETABLE_LEN;

verus! {

/// The magnitude of a sample.
pub open spec fn abs1(x: int) -> int {
    if x >= 0 {
        x
    } else {
        -x
    }
}

/// The largest magnitude in a buffer, 0 for an empty one.
pub open spec fn max_abs(s: Seq<i64>) -> int
    decreases s.len(),
{
    if s.len() == 0 {
        0
    } else {
        let m = max_abs(s.drop_last());
        if abs1(s.last() as int) > m {
            abs1(s.last() as int)
        } else {
            m
        }
    }
}

/// The maximum magnitude bounds every sample, and some sample reaches it.
pub proof fn lemma_max_abs_props(s: Seq<i64>)
    ensures
        0 <= max_abs(s),
        forall|i: int| 0 <= i < s.len() ==> abs1(#[trigger] s[i] as int) <= max_abs(s),
        s.len() > 0 ==> exists|i: int| 0 <= i < s.len() && abs1(#[trigger] s[i] as int) == max_abs(
            s,
        ),
    decreases s.len(),
{
    if s.len() > 0 {
        lemma_max_abs_props(s.drop_last());
        assert(forall|i: int| 0 <= i < s.len() - 1 ==> s.drop_last()[i] == s[i]);
        if abs1(s.last() as int) > max_abs(s.drop_last()) {
            assert(abs1(s[s.len() - 1] as int) == max_abs(s));
        } else {
            if s.len() > 1 {
                let i = choose|i: int|
                    0 <= i < s.drop_last().len() && abs1(s.drop_last()[i] as int) == max_abs(
                        s.drop_last(),
                    );
                assert(abs1(s[i] as int) == max_abs(s));
            }
        }
    }
}

/// A buffer rescaled so its largest magnitude becomes full scale; an
/// all-zero buffer is left as it is.
pub open spec fn spec_normalized(s: Seq<i64>) -> Seq<i64> {
    if max_abs(s) == 0 {
        s
    } else {
        Seq::new(s.len(), |i: int| tdiv(s[i] * 65536, max_abs(s)) as i64)
    }
}

/// Normalize a buffer of samples in place so that the largest magnitude
/// becomes exactly full scale (Q16 one); a silent buffer stays silent and
/// untouched, with no division by zero.
pub fn normalize_samples(samples: &mut Vec<i64>)
    requires
        forall|i: int|
            0 <= i < old(samples)@.len() ==> -0x100_0000_0000 <= #[trigger] old(samples)@[i]
                <= 0x100_0000_0000,
    ensures
        final(samples)@ == spec_normalized(old(samples)@),
        final(samples)@.len() == old(samples)@.len(),
        forall|i: int| 0 <= i < final(samples)@.len() ==> -AMP_ONE <= #[trigger] final(samples)@[i] <= AMP_ONE
            || max_abs(old(samples)@) == 0,
        max_abs(old(samples)@) > 0 ==> max_abs(final(samples)@) == AMP_ONE,
{
    proof {
        lemma_max_abs_props(samples@);
    }
    let ghost orig = samples@;
    let n: usize = samples.len();
    let mut peak: i64 = 0;
    let mut i: usize = 0;
    while i < n
        invariant
            i <= n,
            n == samples@.len(),
            samples@ == orig,
            peak == max_abs(orig.subrange(0, i as int)),
            0 <= peak <= 0x100_0000_0000,
            forall|j: int| 0 <= j < n ==> -0x100_0000_0000 <= #[trigger] orig[j] <= 0x100_0000_0000,
        decreases n - i,
    {
        let v: i64 = samples[i];
        let a: i64 = if v >= 0 {
            v
        } else {
            -v
        };
        proof {
            assert(orig.subrange(0, i + 1).drop_last() =~= orig.subrange(0, i as int));
            assert(orig.subrange(0, i + 1).last() == orig[i as int]);
        }
        if a > peak {
            peak = a;
        }
        i = i + 1;
    }
    proof {
        assert(orig.subrange(0, n as int) =~= orig);
    }
    if peak == 0 {
        return ;
    }
    let mut i: usize = 0;
    while i < n
        invariant
            i <= n,
            n == samples@.len(),
            n == orig.len(),
            peak == max_abs(orig),
            0 < peak <= 0x100_0000_0000,
            forall|j: int| 0 <= j < n ==> -0x100_0000_0000 <= #[trigger] orig[j] <= 0x100_0000_0000,
            forall|j: int| i <= j < n ==> #[trigger] samples@[j] == orig[j],
            forall|j: int|
                0 <= j < i ==> #[trigger] samples@[j] == tdiv(orig[j] * 65536, max_abs(orig)),
            forall|j: int| 0 <= j < i ==> -AMP_ONE <= #[trigger] samples@[j] <= AMP_ONE,
        decreases n - i,
    {
        let v: i64 = samples[i];
        assert(-(0x100_0000_0000i64 * 65536) <= v * 65536 <= 0x100_0000_0000i64 * 65536)
            by (nonlinear_arith)
            requires
                -0x100_0000_0000 <= v <= 0x100_0000_0000,
        ;
        let scaled: i64 = tdiv_exec(v * 65536, peak as u64);
        proof {
            lemma_max_abs_props(orig);
            assert(abs1(v as int) <= peak);
            assert(-(peak * 65536) <= v * 65536 <= peak * 65536) by (nonlinear_arith)
                requires
                    -peak <= v <= peak,
                    peak > 0,
            ;
            lemma_tdiv_ordered_abs(v * 65536, peak * 65536, peak as int);
            vstd::arithmetic::div_mod::lemma_div_by_multiple(65536, peak as int);
        }
        samples[i] = scaled;
        i = i + 1;
    }
    proof {
        assert(samples@ =~= spec_normalized(orig));
        lemma_max_abs_props(orig);
        let k = choose|k: int| 0 <= k < orig.len() && abs1(orig[k] as int) == max_abs(orig);
        assert(samples@[k] == tdiv(orig[k] * 65536, peak as int));
        assert(abs1(samples@[k] as int) == AMP_ONE) by {
            if orig[k] >= 0 {
                assert(orig[k] == peak);
                vstd::arithmetic::div_mod::lemma_div_by_multiple(65536, peak as int);
            } else {
                assert(orig[k] == -(peak as int));
                assert((-(peak as int)) * 65536 == -(peak * 65536)) by (nonlinear_arith);
                vstd::arithmetic::div_mod::lemma_div_by_multiple(65536, peak as int);
            }
        }
        lemma_max_abs_props(samples@);
        assert(max_abs(samples@) >= abs1(samples@[k] as int));
        assert(max_abs(samples@) <= AMP_ONE) by {
            if samples@.len() > 0 {
                let m = choose|m: int|
                    0 <= m < samples@.len() && abs1(samples@[m] as int) == max_abs(samples@);
                assert(-AMP_ONE <= samples@[m] <= AMP_ONE);
            }
        }
    }
}

/// Decoded 32-bit integer samples widened for normalization.
pub open spec fn spec_widened(s: Seq<i32>) -> Seq<i64> {
    Seq::new(s.len(), |i: int| s[i] as i64)
}

/// Widen decoded 32-bit integer samples.
pub fn widen_samples(samples: &Vec<i32>) -> (r: Vec<i64>)
    ensures
        r@ == spec_widened(samples@),
        forall|i: int|
            0 <= i < r@.len() ==> -0x100_0000_0000 <= #[trigger] r@[i] <= 0x100_0000_0000,
{
    let n: usize = samples.len();
    let mut out: Vec<i64> = Vec::new();
    let mut i: usize = 0;
    while i < n
        invariant
            i <= n,
            n == samples@.len(),
            out@.len() == i,
            forall|j: int| 0 <= j < i ==> #[trigger] out@[j] == samples@[j] as i64,
            forall|j: int|
                0 <= j < i ==> -0x100_0000_0000 <= #[trigger] out@[j] <= 0x100_0000_0000,
        decreases n - i,
    {
        out.push(samples[i] as i64);
        i = i + 1;
    }
    proof {
        assert(out@ =~= spec_widened(samples@));
    }
    out
}

impl Synth {
    /// Store decoded sample data as a custom wavetable: the integer
    /// samples are normalized so their peak sits at Q16 full scale, then
    /// appended to the store; once the store holds its maximum count, the
    /// oldest table is evicted first.
    pub fn load_sample(&mut self, name: String, samples: Vec<i32>, sample_rate: u32)
        requires
            old(self).wf(),
            samples@.len() <= MAX_WAVETABLE_LEN,
        ensures
            final(self).wf(),
            *final(self) == (Synth {
                custom_wavetables: final(self).custom_wavetables,
                ..*old(self)
            }),
            final(self).custom_wavetables@.len() == if old(self).custom_wavetables@.len()
                >= MAX_CUSTOM_WAVETABLES {
                MAX_CUSTOM_WAVETABLES as int
            } else {
                old(self).custom_wavetables@.len() as int + 1
            },
            ({
                let kept = if old(self).custom_wavetables@.len() >= MAX_CUSTOM_WAVETABLES {
                    old(self).custom_wavetables@.subrange(
                        1,
                        old(self).custom_wavetables@.len() as int,
                    )
                } else {
                    old(self).custom_wavetables@
                };
                &&& (forall|i: int|
                    0 <= i < kept.len() ==> #[trigger] final(self).custom_wavetables@[i] == kept[i])
                &&& final(self).custom_wavetables@.last().name@ == name@
                &&& final(self).custom_wavetables@.last().sample_rate == sample_rate
                &&& final(self).custom_wavetables@.last().samples@ == spec_normalized(
                    spec_widened(samples@),
                )
            }),
    {
        let mut scaled: Vec<i64> = widen_samples(&samples);
        normalize_samples(&mut scaled);
        proof {
            if max_abs(spec_widened(samples@)) == 0 {
                lemma_max_abs_props(spec_widened(samples@));
                assert forall|i: int| 0 <= i < scaled@.len() implies -AMP_ONE <= #[trigger] scaled@[i]
                    <= AMP_ONE by {
                    assert(abs1(scaled@[i] as int) <= 0);
                }
            }
        }
        if self.custom_wavetables.len() >= MAX_CUSTOM_WAVETABLES {
            self.custom_wavetables.remove(0);
        }
        self.custom_wavetables.push(CustomWavetable { name, samples: scaled, sample_rate });
    }
}

} // verus!
