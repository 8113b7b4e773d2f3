//! Twelve-tone equal temperament: MIDI note numbers to Q16 frequencies
//! relative to A4 = 440 Hz at note 69, and the nearest note of a frequency.
//!
//! A semitone ratio 2^(s/12) is a Q16 constant; octaves are exact shifts,
//! so notes a whole number of octaves from A4 get exact frequencies.

use vstd::prelude::*;
use vstd::arithmetic::power2::{pow2, lemma2_to64};
use crate::note::FREQ_MAX;

verus! {

/// The Q16 ratio 2^(sem/12) for a semitone offset within one octave.
pub open spec fn spec_semitone_ratio(sem: int) -> int {
    if sem == 0 {
        65536
    } else if sem == 1 {
        69433
    } else if sem == 2 {
        73562
    } else if sem == 3 {
        77936
    } else if sem == 4 {
        82570
    } else if sem == 5 {
        87480
    } else if sem == 6 {
        92682
    } else if sem == 7 {
        98193
    } else if sem == 8 {
        104032
    } else if sem == 9 {
        110218
    } else if sem == 10 {
        116772
    } else {
        123715
    }
}

/// The Q16 frequency of a MIDI note: 440 * 2^((note - 69) / 12).
pub open spec fn spec_note_freq(note: int) -> int {
    let k = note - 69;
    let oct = k / 12;
    let sem = k % 12;
    let base = 440 * spec_semitone_ratio(sem);
    if oct >= 0 {
        base * pow2(oct as nat)
    } else {
        base / pow2((-oct) as nat) as int
    }
}

/// The Q16 ratio for a semitone offset within one octave.
pub fn semitone_ratio(sem: u8) -> (r: u64)
    requires
        sem < 12,
    ensures
        r == spec_semitone_ratio(sem as int),
        65536 <= r <= 123715,
{
    match sem {
        0 => 65536,
        1 => 69433,
        2 => 73562,
        3 => 77936,
        4 => 82570,
        5 => 87480,
        6 => 92682,
        7 => 98193,
        8 => 104032,
        9 => 110218,
        10 => 116772,
        _ => 123715,
    }
}

/// Multiply by a small power of two.
pub fn shift_up(x: u64, e: u64) -> (r: u64)
    requires
        e <= 10,
        x <= 0x40_0000_0000,
    ensures
        r == x * pow2(e as nat),
{
    proof {
        lemma2_to64();
    }
    let m: u64 = match e {
        0 => 1,
        1 => 2,
        2 => 4,
        3 => 8,
        4 => 16,
        5 => 32,
        6 => 64,
        7 => 128,
        8 => 256,
        9 => 512,
        _ => 1024,
    };
    assert(x * m <= 0x40_0000_0000u64 * 1024) by (nonlinear_arith)
        requires
            x <= 0x40_0000_0000u64,
            0 <= m <= 1024,
    ;
    x * m
}

/// Divide by a small power of two, truncating.
pub fn shift_down(x: u64, e: u64) -> (r: u64)
    requires
        e <= 10,
    ensures
        r == x as int / pow2(e as nat) as int,
        r <= x,
{
    proof {
        lemma2_to64();
    }
    let m: u64 = match e {
        0 => 1,
        1 => 2,
        2 => 4,
        3 => 8,
        4 => 16,
        5 => 32,
        6 => 64,
        7 => 128,
        8 => 256,
        9 => 512,
        _ => 1024,
    };
    let q: u64 = x / m;
    assert(q <= x) by {
        vstd::arithmetic::div_mod::lemma_div_nonincreasing(x as int, m as int);
    }
    q
}

/// The Q16 frequency in Hz of a MIDI note number, A4 = 440 Hz at note 69.
pub fn midi_note_to_freq(note: u8) -> (r: u64)
    requires
        note < 128,
    ensures
        r == spec_note_freq(note as int),
        r <= FREQ_MAX,
{
    if note >= 69 {
        let k: u8 = note - 69;
        let oct: u8 = k / 12;
        let sem: u8 = k % 12;
        proof {
            vstd::arithmetic::div_mod::lemma_fundamental_div_mod(k as int, 12);
            vstd::arithmetic::div_mod::lemma_div_is_ordered(k as int, 58, 12);
        }
        let ratio: u64 = semitone_ratio(sem);
        let base: u64 = 440 * ratio;
        let r = shift_up(base, oct as u64);
        proof {
            lemma2_to64();
            let p = pow2(oct as nat);
            assert(oct <= 4);
            assert(p <= 16);
            assert(oct == 4 ==> sem <= 10);
            assert(oct == 4 ==> p == 16);
            assert(r <= FREQ_MAX) by (nonlinear_arith)
                requires
                    r == base * p,
                    0 <= p <= 16,
                    base <= 54434600,
                    p == 16 ==> base <= 51379680,
            ;
        }
        r
    } else {
        let k: u8 = 69 - note;
        let q: u8 = k / 12;
        let rem: u8 = k % 12;
        let (up, sem): (u8, u8) = if rem == 0 {
            (q, 0)
        } else {
            (q + 1, 12 - rem)
        };
        proof {
            vstd::arithmetic::div_mod::lemma_fundamental_div_mod(k as int, 12);
            vstd::arithmetic::div_mod::lemma_div_is_ordered(k as int, 69, 12);
            vstd::arithmetic::div_mod::lemma_fundamental_div_mod_converse(
                -(k as int),
                12,
                -(up as int),
                sem as int,
            );
        }
        let ratio: u64 = semitone_ratio(sem);
        let base: u64 = 440 * ratio;
        let r = shift_down(base, up as u64);
        r
    }
}

/// A4 maps to exactly 440 Hz and the note one octave up to exactly 880 Hz.
pub proof fn lemma_reference_pitches()
    ensures
        spec_note_freq(69) == 440 * 65536,
        spec_note_freq(81) == 880 * 65536,
{
    lemma2_to64();
    assert(spec_note_freq(69) == 440 * 65536 * pow2(0));
    assert(spec_note_freq(81) == 440 * 65536 * pow2(1));
}

/// The MIDI note whose equal-temperament frequency is nearest the given
/// Q16 frequency; the lowest such note when two are equally near.
pub fn freq_to_midi_note(freq: u64) -> (r: u8)
    requires
        freq <= FREQ_MAX,
    ensures
        r < 128,
        forall|n: int|
            0 <= n < 128 ==> abs_diff(spec_note_freq(r as int), freq as int) <= abs_diff(
                #[trigger] spec_note_freq(n),
                freq as int,
            ),
{
    let mut best: u8 = 0;
    let mut best_diff: u64 = abs_diff_u64(midi_note_to_freq(0), freq);
    let mut n: u8 = 1;
    while n < 128
        invariant
            1 <= n <= 128,
            best < n,
            best_diff == abs_diff(spec_note_freq(best as int), freq as int),
            forall|m: int|
                0 <= m < n ==> best_diff <= abs_diff(#[trigger] spec_note_freq(m), freq as int),
        decreases 128 - n,
    {
        let d: u64 = abs_diff_u64(midi_note_to_freq(n), freq);
        if d < best_diff {
            best = n;
            best_diff = d;
        }
        n = n + 1;
    }
    best
}

/// The distance between two values.
pub open spec fn abs_diff(a: int, b: int) -> int {
    if a >= b {
        a - b
    } else {
        b - a
    }
}

/// The distance between two frequencies.
fn abs_diff_u64(a: u64, b: u64) -> (r: u64)
    ensures
        r == abs_diff(a as int, b as int),
{
    if a >= b {
        a - b
    } else {
        b - a
    }
}

} // verus!
