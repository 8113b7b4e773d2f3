//! The analyzer: a fixed-capacity ring of the most recently rendered
//! samples, appended on every render call and decimated into display
//! points for visualization.

use vstd::prelude::*;
use std::collections::VecDeque;

verus! {

/// Capacity of the ring of recent output samples.
pub const SAMPLE_BUFFER_SIZE: usize = 1024;

/// How many points a waveform display is decimated to.
pub const WAVEFORM_DISPLAY_POINTS: usize = 200;

/// The ring of recently rendered samples that feeds visualization.
pub struct Analyzer {
    /// The most recent output samples, oldest first, at most
    /// `SAMPLE_BUFFER_SIZE` of them.
    pub current_waveform_samples: VecDeque<i64>,
    /// Scratch space reserved for spectrum analysis.
    pub fft_buffer: Vec<i64>,
}

/// What appending to the ring does: a plain append while below capacity,
/// and eviction of the oldest sample once full.
pub open spec fn spec_ring_push(s: Seq<i64>, x: i64) -> Seq<i64> {
    if s.len() >= SAMPLE_BUFFER_SIZE {
        s.subrange(1, s.len() as int).push(x)
    } else {
        s.push(x)
    }
}

/// The ring never outgrows its capacity, the newest sample is always at
/// the end, and a full ring drops exactly its oldest sample, keeping the
/// order of the rest.
pub proof fn lemma_ring_push_fifo(s: Seq<i64>, x: i64)
    requires
        s.len() <= SAMPLE_BUFFER_SIZE,
    ensures
        spec_ring_push(s, x).len() == if s.len() < SAMPLE_BUFFER_SIZE {
            s.len() as int + 1
        } else {
            SAMPLE_BUFFER_SIZE as int
        },
        spec_ring_push(s, x).last() == x,
        s.len() < SAMPLE_BUFFER_SIZE ==> forall|i: int|
            0 <= i < s.len() ==> spec_ring_push(s, x)[i] == s[i],
        s.len() == SAMPLE_BUFFER_SIZE ==> forall|i: int|
            1 <= i < s.len() ==> spec_ring_push(s, x)[i - 1] == s[i],
{
}

impl Analyzer {
    /// The capacity bound the ring keeps at all times.
    pub open spec fn wf(self) -> bool {
        self.current_waveform_samples@.len() <= SAMPLE_BUFFER_SIZE
    }

    /// An empty analyzer with scratch space allocated up front.
    pub fn new() -> (r: Analyzer)
        ensures
            r.current_waveform_samples@.len() == 0,
            r.fft_buffer@.len() == SAMPLE_BUFFER_SIZE,
            r.wf(),
    {
        let mut fft_buffer: Vec<i64> = Vec::new();
        let mut i: usize = 0;
        while i < SAMPLE_BUFFER_SIZE
            invariant
                fft_buffer@.len() == i,
                i <= SAMPLE_BUFFER_SIZE,
            decreases SAMPLE_BUFFER_SIZE - i,
        {
            fft_buffer.push(0);
            i = i + 1;
        }
        Analyzer { current_waveform_samples: VecDeque::with_capacity(SAMPLE_BUFFER_SIZE), fft_buffer }
    }

    /// Append one rendered sample, evicting the oldest if the ring is full.
    pub fn push_sample(&mut self, x: i64)
        requires
            old(self).wf(),
        ensures
            final(self).current_waveform_samples@ == spec_ring_push(
                old(self).current_waveform_samples@,
                x,
            ),
            final(self).fft_buffer == old(self).fft_buffer,
            final(self).wf(),
    {
        if self.current_waveform_samples.len() >= SAMPLE_BUFFER_SIZE {
            self.current_waveform_samples.pop_front();
        }
        self.current_waveform_samples.push_back(x);
    }
}

/// The display point for index `i` of a decimated buffer: the x position
/// as a Q16 fraction of the window, and the sample at the decimation
/// index, zero for an empty buffer.
pub open spec fn spec_display_point(s: Seq<i64>, i: int) -> (int, int) {
    let x = i * 65536 / (WAVEFORM_DISPLAY_POINTS as int);
    if s.len() == 0 {
        (x, 0)
    } else {
        (x, s[i * s.len() / (WAVEFORM_DISPLAY_POINTS as int)] as int)
    }
}

/// Decimate a sample buffer down to the fixed number of display points by
/// nearest-index selection; an empty buffer draws a flat line.
pub fn waveform_display_points(samples: &VecDeque<i64>) -> (r: Vec<(i64, i64)>)
    requires
        samples@.len() <= SAMPLE_BUFFER_SIZE,
    ensures
        r@.len() == WAVEFORM_DISPLAY_POINTS,
        forall|i: int|
            0 <= i < WAVEFORM_DISPLAY_POINTS ==> (#[trigger] r@[i]).0 == spec_display_point(
                samples@,
                i,
            ).0 && r@[i].1 == spec_display_point(samples@, i).1,
{
    let mut points: Vec<(i64, i64)> = Vec::new();
    let len: usize = samples.len();
    let mut i: usize = 0;
    while i < WAVEFORM_DISPLAY_POINTS
        invariant
            i <= WAVEFORM_DISPLAY_POINTS,
            points@.len() == i,
            len == samples@.len(),
            len <= SAMPLE_BUFFER_SIZE,
            forall|j: int|
                0 <= j < i ==> (#[trigger] points@[j]).0 == spec_display_point(samples@, j).0
                    && points@[j].1 == spec_display_point(samples@, j).1,
        decreases WAVEFORM_DISPLAY_POINTS - i,
    {
        let x: i64 = ((i * 65536) / WAVEFORM_DISPLAY_POINTS) as i64;
        let y: i64 = if len == 0 {
            0
        } else {
            assert(i * len <= 199 * 1024) by (nonlinear_arith)
                requires
                    0 <= i <= 199,
                    0 <= len <= 1024,
            ;
            let pos: usize = (i * len) / WAVEFORM_DISPLAY_POINTS;
            assert(pos < len) by {
                assert(i * len <= 199 * len) by (nonlinear_arith)
                    requires
                        0 <= i <= 199,
                        0 <= len,
                ;
                assert(199 * len <= 200 * len - 1) by (nonlinear_arith)
                    requires
                        1 <= len,
                ;
                vstd::arithmetic::div_mod::lemma_div_is_ordered(
                    (i * len) as int,
                    200 * (len as int) - 1,
                    200,
                );
                vstd::arithmetic::div_mod::lemma_fundamental_div_mod_converse(
                    200 * (len as int) - 1,
                    200,
                    len as int - 1,
                    199,
                );
            }
            samples[pos]
        };
        points.push((x, y));
        i = i + 1;
    }
    points
}

} // verus!
