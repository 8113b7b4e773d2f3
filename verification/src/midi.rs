//! MIDI at the byte level: decoding 3-byte packets into bus messages,
//! encoding outgoing packets, and the controller-to-parameter mapping.

use vstd::prelude::*;
use crate::filter::FilterType;
use crate::fixed::{AMP_ONE, qmul, tmul, lemma_tmul_bound};
use crate::messaging::SynthMessage;
use crate::modulation::ModulationTarget;

verus! {

/// The Q16 value of a 7-bit controller byte: b / 127 of full scale.
pub open spec fn spec_cc_level(b: int) -> int {
    (b * 65536) / 127
}

/// What a raw MIDI packet means to the engine, if anything: note on and
/// off (a zero-velocity note-on counts as note-off), modulation wheel,
/// channel volume and sustain pedal control changes, aftertouch, channel
/// pressure, and 14-bit pitch bend centered at zero.
pub open spec fn spec_decode_midi(m: Seq<u8>) -> Option<SynthMessage> {
    if m.len() < 2 {
        Option::None
    } else {
        let status = m[0] & 0xF0;
        if status == 0x80 {
            if m.len() >= 3 {
                Option::Some(SynthMessage::NoteOff(m[1]))
            } else {
                Option::None
            }
        } else if status == 0x90 {
            if m.len() >= 3 {
                if m[2] == 0 {
                    Option::Some(SynthMessage::NoteOff(m[1]))
                } else {
                    Option::Some(SynthMessage::NoteOn(m[1], m[2]))
                }
            } else {
                Option::None
            }
        } else if status == 0xA0 {
            if m.len() >= 3 {
                Option::Some(
                    SynthMessage::SetAftertouch(m[1], spec_cc_level(m[2] as int) as i64),
                )
            } else {
                Option::None
            }
        } else if status == 0xB0 {
            if m.len() >= 3 {
                if m[1] == 1 {
                    Option::Some(SynthMessage::SetModulation(spec_cc_level(m[2] as int) as i64))
                } else if m[1] == 7 {
                    Option::Some(SynthMessage::SetVolume(spec_cc_level(m[2] as int) as i64))
                } else if m[1] == 64 {
                    Option::Some(SynthMessage::SetSustainPedal(m[2] >= 64))
                } else {
                    Option::None
                }
            } else {
                Option::None
            }
        } else if status == 0xD0 {
            Option::Some(SynthMessage::SetChannelPressure(spec_cc_level(m[1] as int) as i64))
        } else if status == 0xE0 {
            if m.len() >= 3 {
                let bend = ((m[2] as u16) << 7) | (m[1] as u16);
                Option::Some(SynthMessage::SetPitchBend((bend * 8 - 65536) as i64))
            } else {
                Option::None
            }
        } else {
            Option::None
        }
    }
}

/// Decode one raw MIDI packet into at most one bus message; packets the
/// engine has no use for decode to nothing.
pub fn handle_midi_message(message: &[u8]) -> (r: Option<SynthMessage>)
    ensures
        r == spec_decode_midi(message@),
{
    if message.len() < 2 {
        return Option::None;
    }
    let status: u8 = message[0] & 0xF0;
    if status == 0x80 {
        if message.len() >= 3 {
            Option::Some(SynthMessage::NoteOff(message[1]))
        } else {
            Option::None
        }
    } else if status == 0x90 {
        if message.len() >= 3 {
            if message[2] == 0 {
                Option::Some(SynthMessage::NoteOff(message[1]))
            } else {
                Option::Some(SynthMessage::NoteOn(message[1], message[2]))
            }
        } else {
            Option::None
        }
    } else if status == 0xA0 {
        if message.len() >= 3 {
            Option::Some(SynthMessage::SetAftertouch(message[1], cc_level(message[2])))
        } else {
            Option::None
        }
    } else if status == 0xB0 {
        if message.len() >= 3 {
            if message[1] == 1 {
                Option::Some(SynthMessage::SetModulation(cc_level(message[2])))
            } else if message[1] == 7 {
                Option::Some(SynthMessage::SetVolume(cc_level(message[2])))
            } else if message[1] == 64 {
                Option::Some(SynthMessage::SetSustainPedal(message[2] >= 64))
            } else {
                Option::None
            }
        } else {
            Option::None
        }
    } else if status == 0xD0 {
        Option::Some(SynthMessage::SetChannelPressure(cc_level(message[1])))
    } else if status == 0xE0 {
        if message.len() >= 3 {
            let bend: u16 = ((message[2] as u16) << 7) | (message[1] as u16);
            Option::Some(SynthMessage::SetPitchBend((bend as i64) * 8 - 65536))
        } else {
            Option::None
        }
    } else {
        Option::None
    }
}

/// The Q16 value of a 7-bit controller byte.
pub fn cc_level(b: u8) -> (r: i64)
    ensures
        r == spec_cc_level(b as int),
        0 <= r <= 131588,
{
    let v: u64 = ((b as u64) * 65536) / 127;
    assert(v <= 131588) by {
        vstd::arithmetic::div_mod::lemma_div_is_ordered(
            (b as u64 * 65536) as int,
            255int * 65536int,
            127,
        );
        vstd::arithmetic::div_mod::lemma_fundamental_div_mod_converse(
            255int * 65536int,
            127,
            131588,
            4,
        );
    }
    v as i64
}

/// The bytes of a note-on packet for a channel.
pub fn note_on_bytes(channel: u8, note: u8, velocity: u8) -> (r: [u8; 3])
    ensures
        r@[0] == 0x90u8 | (channel & 0x0F),
        r@[1] == note,
        r@[2] == velocity,
{
    [0x90 | (channel & 0x0F), note, velocity]
}

/// The bytes of a note-off packet for a channel.
pub fn note_off_bytes(channel: u8, note: u8, velocity: u8) -> (r: [u8; 3])
    ensures
        r@[0] == 0x80u8 | (channel & 0x0F),
        r@[1] == note,
        r@[2] == velocity,
{
    [0x80 | (channel & 0x0F), note, velocity]
}

/// The bytes of a control-change packet for a channel.
pub fn control_change_bytes(channel: u8, control: u8, value: u8) -> (r: [u8; 3])
    ensures
        r@[0] == 0xB0u8 | (channel & 0x0F),
        r@[1] == control,
        r@[2] == value,
{
    [0xB0 | (channel & 0x0F), control, value]
}

/// The bytes of a program-change packet for a channel.
pub fn program_change_bytes(channel: u8, program: u8) -> (r: [u8; 2])
    ensures
        r@[0] == 0xC0u8 | (channel & 0x0F),
        r@[1] == program,
{
    [0xC0 | (channel & 0x0F), program]
}

/// The 14-bit bend count of a Q16 normalized bend in [-1, 1].
pub open spec fn spec_bend_count(value: int) -> int {
    (value + 65536) / 8
}

/// The bytes of a pitch-bend packet: the normalized bend mapped onto the
/// 14-bit range and split into its low and high 7 bits.
pub fn pitch_bend_bytes(channel: u8, value: i64) -> (r: [u8; 3])
    requires
        -AMP_ONE <= value <= AMP_ONE,
    ensures
        r@[0] == 0xE0u8 | (channel & 0x0F),
        r@[1] == (spec_bend_count(value as int) as u16 & 0x7F) as u8,
        r@[2] == (spec_bend_count(value as int) as u16 >> 7) as u8,
{
    let bend: u16 = (((value + 65536) as u64) / 8) as u16;
    let lsb: u8 = (bend & 0x7F) as u8;
    let msb: u8 = (bend >> 7) as u8;
    assert(((value + 65536) as u64) / 8 <= 16384) by {
        vstd::arithmetic::div_mod::lemma_div_is_ordered(
            (value + 65536) as int,
            131072,
            8,
        );
    }
    [0xE0 | (channel & 0x0F), lsb, msb]
}

/// A MIDI controller: its channel and controller number.
#[derive(Clone, Copy, Debug, PartialEq, Eq, Structural, Hash)]
pub struct MidiController {
    pub channel: u8,
    pub cc_number: u8,
}

/// The engine parameter a controller can drive.
#[derive(Clone, Copy, Debug, PartialEq, Eq, Structural, Hash)]
pub enum MidiControlTarget {
    MasterVolume,
    MasterFilterCutoff,
    MasterFilterResonance,
    MasterAttack,
    MasterDecay,
    MasterSustain,
    MasterRelease,
    OscillatorVolume(usize),
    OscillatorDetune(usize),
    OscillatorOctave(usize),
    OscillatorAttack(usize),
    OscillatorDecay(usize),
    OscillatorSustain(usize),
    OscillatorRelease(usize),
    OscillatorFilterCutoff(usize),
    OscillatorFilterResonance(usize),
    OscillatorModAmount(usize),
}

/// No two entries of an association list share a controller.
pub open spec fn keys_unique<V>(s: Seq<(MidiController, V)>) -> bool {
    forall|i: int, j: int| 0 <= i < j < s.len() ==> (#[trigger] s[i]).0 != (#[trigger] s[j]).0
}

/// The value stored for a controller, if any.
pub open spec fn spec_assoc<V>(s: Seq<(MidiController, V)>, k: MidiController) -> Option<V>
    decreases s.len(),
{
    if s.len() == 0 {
        Option::None
    } else if s.last().0 == k {
        Option::Some(s.last().1)
    } else {
        spec_assoc(s.drop_last(), k)
    }
}

/// The association list with every entry of a controller removed.
pub open spec fn spec_assoc_remove<V>(s: Seq<(MidiController, V)>, k: MidiController) -> Seq<
    (MidiController, V),
>
    decreases s.len(),
{
    if s.len() == 0 {
        Seq::empty()
    } else if s.last().0 == k {
        spec_assoc_remove(s.drop_last(), k)
    } else {
        spec_assoc_remove(s.drop_last(), k).push(s.last())
    }
}

/// Removing a controller removes its entry and nothing else, keeping the
/// other lookups and key uniqueness.
pub proof fn lemma_assoc_remove_props<V>(s: Seq<(MidiController, V)>, k: MidiController)
    ensures
        spec_assoc(spec_assoc_remove(s, k), k) is None,
        forall|k2: MidiController|
            k2 != k ==> #[trigger] spec_assoc(spec_assoc_remove(s, k), k2) == spec_assoc(s, k2),
        forall|i: int|
            0 <= i < spec_assoc_remove(s, k).len() ==> (#[trigger] spec_assoc_remove(s, k)[i]).0
                != k,
        forall|i: int|
            0 <= i < spec_assoc_remove(s, k).len() ==> exists|j: int|
                0 <= j < s.len() && #[trigger] spec_assoc_remove(s, k)[i] == #[trigger] s[j],
        keys_unique(s) ==> keys_unique(spec_assoc_remove(s, k)),
    decreases s.len(),
{
    if s.len() > 0 {
        lemma_assoc_remove_props(s.drop_last(), k);
        let rest = spec_assoc_remove(s.drop_last(), k);
        assert(forall|i: int|
            0 <= i < rest.len() ==> exists|j: int|
                0 <= j < s.len() && #[trigger] rest[i] == #[trigger] s[j]) by {
            assert forall|i: int| 0 <= i < rest.len() implies exists|j: int|
                0 <= j < s.len() && #[trigger] rest[i] == #[trigger] s[j] by {
                let j = choose|j: int|
                    0 <= j < s.drop_last().len() && rest[i] == s.drop_last()[j];
                assert(s.drop_last()[j] == s[j]);
            }
        }
        if s.last().0 != k {
            let r = rest.push(s.last());
            assert(r.drop_last() =~= rest);
            assert forall|k2: MidiController| k2 != k implies #[trigger] spec_assoc(r, k2)
                == spec_assoc(s, k2) by {
                assert(spec_assoc(rest, k2) == spec_assoc(s.drop_last(), k2));
                if s.last().0 == k2 {
                    assert(spec_assoc(r, k2) == Option::Some(s.last().1));
                } else {
                    assert(spec_assoc(r, k2) == spec_assoc(rest, k2));
                }
            }
            assert(forall|i: int|
                0 <= i < r.len() ==> exists|j: int|
                    0 <= j < s.len() && #[trigger] r[i] == #[trigger] s[j]) by {
                assert forall|i: int| 0 <= i < r.len() implies exists|j: int|
                    0 <= j < s.len() && #[trigger] r[i] == #[trigger] s[j] by {
                    if i < rest.len() {
                        let j = choose|j: int| 0 <= j < s.len() && rest[i] == s[j];
                        assert(r[i] == s[j]);
                    } else {
                        assert(r[i] == s[s.len() - 1]);
                    }
                }
            }
            if keys_unique(s) {
                assert(keys_unique(r)) by {
                    assert forall|x: int, y: int| 0 <= x < y < r.len() implies (
                    #[trigger] r[x]).0 != (#[trigger] r[y]).0 by {
                        if y < rest.len() {
                            assert(rest[x].0 != rest[y].0);
                        } else {
                            let m = choose|m: int|
                                0 <= m < s.drop_last().len() && rest[x] == s.drop_last()[m];
                            assert(s[m].0 != s[s.len() - 1].0);
                        }
                    }
                }
            }
        }
    }
}

/// All MIDI mappings: which controller drives which parameter, with an
/// output range and an inversion flag per controller.
pub struct MidiMapping {
    /// Controller to parameter.
    pub mappings: Vec<(MidiController, MidiControlTarget)>,
    /// Q16 output range (low, high) per controller.
    pub ranges: Vec<(MidiController, (i64, i64))>,
    /// Whether a controller's output is inverted.
    pub invert: Vec<(MidiController, bool)>,
}

impl MidiMapping {
    /// Unique keys throughout, ranges within Q16 full scale.
    pub open spec fn wf(self) -> bool {
        &&& keys_unique(self.mappings@)
        &&& keys_unique(self.ranges@)
        &&& keys_unique(self.invert@)
        &&& forall|i: int|
            0 <= i < self.ranges@.len() ==> -AMP_ONE <= (#[trigger] self.ranges@[i]).1.0 <= AMP_ONE
                && -AMP_ONE <= self.ranges@[i].1.1 <= AMP_ONE
    }

    /// An empty mapping.
    pub fn new() -> (r: MidiMapping)
        ensures
            r.mappings@.len() == 0,
            r.ranges@.len() == 0,
            r.invert@.len() == 0,
            r.wf(),
    {
        MidiMapping { mappings: Vec::new(), ranges: Vec::new(), invert: Vec::new() }
    }

    /// Wire a controller to a parameter, replacing any previous wiring;
    /// the range defaults to [0, 1] and the inversion to off unless the
    /// controller already had them.
    pub fn add_mapping(&mut self, controller: MidiController, target: MidiControlTarget)
        requires
            old(self).wf(),
        ensures
            final(self).wf(),
            spec_assoc(final(self).mappings@, controller) == Option::Some(target),
            forall|k2: MidiController|
                k2 != controller ==> #[trigger] spec_assoc(final(self).mappings@, k2) == spec_assoc(
                    old(self).mappings@,
                    k2,
                ),
            spec_assoc(final(self).ranges@, controller) == match spec_assoc(
                old(self).ranges@,
                controller,
            ) {
                Option::Some(rg) => Option::Some(rg),
                Option::None => Option::Some((0i64, 65536i64)),
            },
            forall|k2: MidiController|
                k2 != controller ==> #[trigger] spec_assoc(final(self).ranges@, k2) == spec_assoc(
                    old(self).ranges@,
                    k2,
                ),
            spec_assoc(final(self).invert@, controller) == match spec_assoc(
                old(self).invert@,
                controller,
            ) {
                Option::Some(b) => Option::Some(b),
                Option::None => Option::Some(false),
            },
            forall|k2: MidiController|
                k2 != controller ==> #[trigger] spec_assoc(final(self).invert@, k2) == spec_assoc(
                    old(self).invert@,
                    k2,
                ),
    {
        proof {
            lemma_assoc_remove_props(self.mappings@, controller);
        }
        assoc_remove_target(&mut self.mappings, controller);
        self.mappings.push((controller, target));
        proof {
            assert(self.mappings@.drop_last() =~= spec_assoc_remove(
                old(self).mappings@,
                controller,
            ));
            assert forall|k2: MidiController| k2 != controller implies #[trigger] spec_assoc(
                self.mappings@,
                k2,
            ) == spec_assoc(old(self).mappings@, k2) by {
                assert(spec_assoc(self.mappings@, k2) == spec_assoc(
                    spec_assoc_remove(old(self).mappings@, controller),
                    k2,
                ));
            }
            assert(keys_unique(self.mappings@)) by {
                let s = self.mappings@;
                let rest = s.drop_last();
                assert forall|x: int, y: int| 0 <= x < y < s.len() implies (#[trigger] s[x]).0 != (
                #[trigger] s[y]).0 by {
                    if y < rest.len() {
                        assert(rest[x].0 != rest[y].0);
                    } else {
                        assert(rest[x].0 != controller);
                    }
                }
            }
        }
        if assoc_has_range(&self.ranges, controller) {
        } else {
            self.ranges.push((controller, (0, 65536)));
            proof {
                assert(self.ranges@.drop_last() =~= old(self).ranges@);
                assert forall|k2: MidiController| k2 != controller implies #[trigger] spec_assoc(
                    self.ranges@,
                    k2,
                ) == spec_assoc(old(self).ranges@, k2) by {
                    assert(spec_assoc(self.ranges@, k2) == spec_assoc(old(self).ranges@, k2));
                }
                assert(keys_unique(self.ranges@)) by {
                    let s = self.ranges@;
                    let rest = old(self).ranges@;
                    assert forall|x: int, y: int| 0 <= x < y < s.len() implies (#[trigger] s[x]).0
                        != (#[trigger] s[y]).0 by {
                        if y < rest.len() {
                            assert(rest[x].0 != rest[y].0);
                        } else {
                            lemma_assoc_key_present(rest, x);
                        }
                    }
                }
            }
        }
        if assoc_has_invert(&self.invert, controller) {
        } else {
            let ghost before = self.invert@;
            self.invert.push((controller, false));
            proof {
                assert(self.invert@.drop_last() =~= before);
                assert forall|k2: MidiController| k2 != controller implies #[trigger] spec_assoc(
                    self.invert@,
                    k2,
                ) == spec_assoc(before, k2) by {
                    assert(spec_assoc(self.invert@, k2) == spec_assoc(before, k2));
                }
                assert(keys_unique(self.invert@)) by {
                    let s = self.invert@;
                    assert forall|x: int, y: int| 0 <= x < y < s.len() implies (#[trigger] s[x]).0
                        != (#[trigger] s[y]).0 by {
                        if y < before.len() {
                            assert(before[x].0 != before[y].0);
                        } else {
                            lemma_assoc_key_present(before, x);
                        }
                    }
                }
            }
        }
    }
}

/// A present key makes the lookup succeed.
pub proof fn lemma_assoc_key_present<V>(s: Seq<(MidiController, V)>, i: int)
    requires
        0 <= i < s.len(),
    ensures
        spec_assoc(s, s[i].0) is Some,
    decreases s.len(),
{
    if i == s.len() - 1 {
    } else {
        if s.last().0 != s[i].0 {
            lemma_assoc_key_present(s.drop_last(), i);
            assert(s.drop_last()[i] == s[i]);
        }
    }
}

/// Drop every entry of a controller from a target list.
fn assoc_remove_target(v: &mut Vec<(MidiController, MidiControlTarget)>, k: MidiController)
    ensures
        final(v)@ == spec_assoc_remove(old(v)@, k),
{
    let ghost orig = v@;
    let mut kept: Vec<(MidiController, MidiControlTarget)> = Vec::new();
    let n: usize = v.len();
    let mut i: usize = 0;
    while i < n
        invariant
            i <= n,
            n == orig.len(),
            v@ == orig,
            kept@ == spec_assoc_remove(orig.subrange(0, i as int), k),
        decreases n - i,
    {
        let e: (MidiController, MidiControlTarget) = v[i];
        proof {
            assert(orig.subrange(0, i + 1).drop_last() =~= orig.subrange(0, i as int));
            assert(orig.subrange(0, i + 1).last() == orig[i as int]);
        }
        if !(e.0 == k) {
            kept.push(e);
        }
        i = i + 1;
    }
    proof {
        assert(orig.subrange(0, n as int) =~= orig);
    }
    *v = kept;
}

/// Whether a controller has a stored range.
fn assoc_has_range(v: &Vec<(MidiController, (i64, i64))>, k: MidiController) -> (r: bool)
    ensures
        r == (spec_assoc(v@, k) is Some),
{
    let n: usize = v.len();
    let mut i: usize = 0;
    while i < n
        invariant
            i <= n,
            n == v@.len(),
            forall|j: int| 0 <= j < i ==> (#[trigger] v@[j]).0 != k,
        decreases n - i,
    {
        if v[i].0 == k {
            proof {
                lemma_assoc_key_present(v@, i as int);
            }
            return true;
        }
        i = i + 1;
    }
    proof {
        lemma_assoc_absent(v@, k);
    }
    false
}

/// Whether a controller has a stored inversion flag.
fn assoc_has_invert(v: &Vec<(MidiController, bool)>, k: MidiController) -> (r: bool)
    ensures
        r == (spec_assoc(v@, k) is Some),
{
    let n: usize = v.len();
    let mut i: usize = 0;
    while i < n
        invariant
            i <= n,
            n == v@.len(),
            forall|j: int| 0 <= j < i ==> (#[trigger] v@[j]).0 != k,
        decreases n - i,
    {
        if v[i].0 == k {
            proof {
                lemma_assoc_key_present(v@, i as int);
            }
            return true;
        }
        i = i + 1;
    }
    proof {
        lemma_assoc_absent(v@, k);
    }
    false
}

/// A key no entry carries is not found.
pub proof fn lemma_assoc_absent<V>(s: Seq<(MidiController, V)>, k: MidiController)
    requires
        forall|i: int| 0 <= i < s.len() ==> (#[trigger] s[i]).0 != k,
    ensures
        spec_assoc(s, k) is None,
    decreases s.len(),
{
    if s.len() > 0 {
        assert(forall|i: int| 0 <= i < s.len() - 1 ==> s.drop_last()[i] == s[i]);
        lemma_assoc_absent(s.drop_last(), k);
    }
}

impl MidiMapping {
    /// Unwire a controller everywhere: its mapping, range and inversion
    /// flag are all dropped.
    pub fn remove_mapping(&mut self, controller: &MidiController)
        requires
            old(self).wf(),
        ensures
            final(self).wf(),
            spec_assoc(final(self).mappings@, *controller) is None,
            spec_assoc(final(self).ranges@, *controller) is None,
            spec_assoc(final(self).invert@, *controller) is None,
            forall|k2: MidiController|
                k2 != *controller ==> #[trigger] spec_assoc(final(self).mappings@, k2)
                    == spec_assoc(old(self).mappings@, k2),
            forall|k2: MidiController|
                k2 != *controller ==> #[trigger] spec_assoc(final(self).ranges@, k2) == spec_assoc(
                    old(self).ranges@,
                    k2,
                ),
            forall|k2: MidiController|
                k2 != *controller ==> #[trigger] spec_assoc(final(self).invert@, k2) == spec_assoc(
                    old(self).invert@,
                    k2,
                ),
    {
        proof {
            lemma_assoc_remove_props(self.mappings@, *controller);
            lemma_assoc_remove_props(self.ranges@, *controller);
            lemma_assoc_remove_props(self.invert@, *controller);
        }
        assoc_remove(&mut self.mappings, *controller);
        assoc_remove(&mut self.ranges, *controller);
        assoc_remove(&mut self.invert, *controller);
    }

    /// Set the output range of a wired controller, clamped into Q16 full
    /// scale; an unwired controller is left alone.
    pub fn set_range(&mut self, controller: &MidiController, min: i64, max: i64)
        requires
            old(self).wf(),
        ensures
            final(self).wf(),
            final(self).mappings@ == old(self).mappings@,
            final(self).invert@ == old(self).invert@,
            spec_assoc(old(self).mappings@, *controller) is Some ==> spec_assoc(
                final(self).ranges@,
                *controller,
            ) == Option::Some(
                (
                    crate::messaging::cl_bend(min as int) as i64,
                    crate::messaging::cl_bend(max as int) as i64,
                ),
            ),
            spec_assoc(old(self).mappings@, *controller) is None ==> final(self).ranges@ == old(
                self,
            ).ranges@,
            forall|k2: MidiController|
                k2 != *controller ==> #[trigger] spec_assoc(final(self).ranges@, k2) == spec_assoc(
                    old(self).ranges@,
                    k2,
                ),
    {
        if assoc_has(&self.mappings, *controller) {
            let mn: i64 = clamp_full(min);
            let mx: i64 = clamp_full(max);
            proof {
                lemma_assoc_remove_props(self.ranges@, *controller);
            }
            assoc_remove(&mut self.ranges, *controller);
            let ghost removed = self.ranges@;
            self.ranges.push((*controller, (mn, mx)));
            proof {
                assert(self.ranges@.drop_last() =~= removed);
                assert forall|k2: MidiController| k2 != *controller implies #[trigger] spec_assoc(
                    self.ranges@,
                    k2,
                ) == spec_assoc(old(self).ranges@, k2) by {
                    assert(spec_assoc(self.ranges@, k2) == spec_assoc(removed, k2));
                }
                assert(keys_unique(self.ranges@)) by {
                    let s = self.ranges@;
                    assert forall|x: int, y: int| 0 <= x < y < s.len() implies (#[trigger] s[x]).0
                        != (#[trigger] s[y]).0 by {
                        if y < removed.len() {
                            assert(removed[x].0 != removed[y].0);
                        } else {
                            assert(removed[x].0 != *controller);
                        }
                    }
                }
            }
        }
    }

    /// Set the inversion flag of a wired controller; an unwired one is
    /// left alone.
    pub fn set_invert(&mut self, controller: &MidiController, invert: bool)
        requires
            old(self).wf(),
        ensures
            final(self).wf(),
            final(self).mappings@ == old(self).mappings@,
            final(self).ranges@ == old(self).ranges@,
            spec_assoc(old(self).mappings@, *controller) is Some ==> spec_assoc(
                final(self).invert@,
                *controller,
            ) == Option::Some(invert),
            spec_assoc(old(self).mappings@, *controller) is None ==> final(self).invert@ == old(
                self,
            ).invert@,
            forall|k2: MidiController|
                k2 != *controller ==> #[trigger] spec_assoc(final(self).invert@, k2) == spec_assoc(
                    old(self).invert@,
                    k2,
                ),
    {
        if assoc_has(&self.mappings, *controller) {
            proof {
                lemma_assoc_remove_props(self.invert@, *controller);
            }
            assoc_remove(&mut self.invert, *controller);
            let ghost removed = self.invert@;
            self.invert.push((*controller, invert));
            proof {
                assert(self.invert@.drop_last() =~= removed);
                assert forall|k2: MidiController| k2 != *controller implies #[trigger] spec_assoc(
                    self.invert@,
                    k2,
                ) == spec_assoc(old(self).invert@, k2) by {
                    assert(spec_assoc(self.invert@, k2) == spec_assoc(removed, k2));
                }
                assert(keys_unique(self.invert@)) by {
                    let s = self.invert@;
                    assert forall|x: int, y: int| 0 <= x < y < s.len() implies (#[trigger] s[x]).0
                        != (#[trigger] s[y]).0 by {
                        if y < removed.len() {
                            assert(removed[x].0 != removed[y].0);
                        } else {
                            assert(removed[x].0 != *controller);
                        }
                    }
                }
            }
        }
    }

    /// Map a raw 7-bit controller value onto the controller's output
    /// range, inverted if so flagged, and held inside the range.
    pub fn process_midi_value(&self, controller: &MidiController, value: u8) -> (r: Option<i64>)
        requires
            self.wf(),
        ensures
            r == Option::Some(
                spec_process_midi_value(self.ranges@, self.invert@, *controller, value as int)
                    as i64,
            ),
            match r {
                Option::Some(v) => -AMP_ONE <= v <= AMP_ONE,
                Option::None => false,
            },
    {
        let norm: i64 = cc_level(value);
        let rg: (i64, i64) = match assoc_get_range(&self.ranges, *controller) {
            Option::Some(rg) => rg,
            Option::None => (0, 65536),
        };
        proof {
            lemma_assoc_is_element(self.ranges@, *controller);
        }
        assert(-AMP_ONE <= rg.0 <= AMP_ONE && -AMP_ONE <= rg.1 <= AMP_ONE);
        let span: i64 = rg.1 - rg.0;
        let step: i64 = qmul(span, norm);
        proof {
            lemma_tmul_bound(span as int, norm as int, 131072, 131588);
        }
        let scaled0: i64 = rg.0 + step;
        let inv: bool = match assoc_get_invert(&self.invert, *controller) {
            Option::Some(b) => b,
            Option::None => false,
        };
        let scaled: i64 = if inv {
            65536 - scaled0
        } else {
            scaled0
        };
        let held: i64 = if scaled < rg.0 {
            rg.0
        } else if scaled > rg.1 {
            rg.1
        } else {
            scaled
        };
        Option::Some(held)
    }

    /// The stock wiring: channel volume, the modulation wheel onto the
    /// first slot's depth, and the conventional cutoff and resonance
    /// controllers onto the master filter.
    pub fn create_default() -> (r: MidiMapping)
        ensures
            r.wf(),
            spec_assoc(r.mappings@, MidiController { channel: 0, cc_number: 7 }) == Option::Some(
                MidiControlTarget::MasterVolume,
            ),
            spec_assoc(r.mappings@, MidiController { channel: 0, cc_number: 1 }) == Option::Some(
                MidiControlTarget::OscillatorModAmount(0usize),
            ),
            spec_assoc(r.mappings@, MidiController { channel: 0, cc_number: 74 }) == Option::Some(
                MidiControlTarget::MasterFilterCutoff,
            ),
            spec_assoc(r.mappings@, MidiController { channel: 0, cc_number: 71 }) == Option::Some(
                MidiControlTarget::MasterFilterResonance,
            ),
    {
        let mut mapping = MidiMapping::new();
        mapping.add_mapping(
            MidiController { channel: 0, cc_number: 7 },
            MidiControlTarget::MasterVolume,
        );
        mapping.add_mapping(
            MidiController { channel: 0, cc_number: 1 },
            MidiControlTarget::OscillatorModAmount(0),
        );
        mapping.add_mapping(
            MidiController { channel: 0, cc_number: 74 },
            MidiControlTarget::MasterFilterCutoff,
        );
        mapping.add_mapping(
            MidiController { channel: 0, cc_number: 71 },
            MidiControlTarget::MasterFilterResonance,
        );
        mapping
    }

    /// Turn a received control change into the bus message its wiring
    /// calls for: nothing for an unwired controller, otherwise the target
    /// parameter set to the processed value, master filter edits keeping
    /// the other filter settings, and master envelope edits around the
    /// default stage times.
    pub fn apply_midi_cc(
        &self,
        channel: u8,
        cc: u8,
        value: u8,
        master_filter_type: FilterType,
        master_cutoff: i64,
        master_resonance: i64,
    ) -> (r: Option<SynthMessage>)
        requires
            self.wf(),
        ensures
            ({
                let c = MidiController { channel, cc_number: cc };
                let v = spec_process_midi_value(self.ranges@, self.invert@, c, value as int);
                match spec_assoc(self.mappings@, c) {
                    Option::None => r is None,
                    Option::Some(target) => match target {
                        MidiControlTarget::MasterVolume => r == Option::Some(
                            SynthMessage::SetVolume(v as i64),
                        ),
                        MidiControlTarget::MasterFilterCutoff => r == Option::Some(
                            SynthMessage::ChangeMasterFilter(
                                master_filter_type,
                                v as i64,
                                master_resonance,
                            ),
                        ),
                        MidiControlTarget::MasterFilterResonance => r == Option::Some(
                            SynthMessage::ChangeMasterFilter(
                                master_filter_type,
                                master_cutoff,
                                v as i64,
                            ),
                        ),
                        MidiControlTarget::MasterAttack => r == Option::Some(
                            SynthMessage::ChangeMasterEnvelope(
                                spec_level_as_time(v) as u64,
                                858993459u64,
                                45875i64,
                                1288490188u64,
                            ),
                        ),
                        MidiControlTarget::MasterDecay => r == Option::Some(
                            SynthMessage::ChangeMasterEnvelope(
                                429496729u64,
                                spec_level_as_time(v) as u64,
                                45875i64,
                                1288490188u64,
                            ),
                        ),
                        MidiControlTarget::MasterSustain => r == Option::Some(
                            SynthMessage::ChangeMasterEnvelope(
                                429496729u64,
                                858993459u64,
                                v as i64,
                                1288490188u64,
                            ),
                        ),
                        MidiControlTarget::MasterRelease => r == Option::Some(
                            SynthMessage::ChangeMasterEnvelope(
                                429496729u64,
                                858993459u64,
                                45875i64,
                                spec_level_as_time(v) as u64,
                            ),
                        ),
                        MidiControlTarget::OscillatorModAmount(idx) => r == Option::Some(
                            SynthMessage::ChangeOscillatorModulation(
                                idx,
                                v as i64,
                                ModulationTarget::Pitch,
                            ),
                        ),
                        _ => r is None,
                    },
                }
            }),
    {
        let controller = MidiController { channel, cc_number: cc };
        let target: MidiControlTarget = match assoc_get_target(&self.mappings, controller) {
            Option::Some(t) => t,
            Option::None => {
                return Option::None;
            },
        };
        let processed: i64 = match self.process_midi_value(&controller, value) {
            Option::Some(v) => v,
            Option::None => {
                return Option::None;
            },
        };
        match target {
            MidiControlTarget::MasterVolume => Option::Some(SynthMessage::SetVolume(processed)),
            MidiControlTarget::MasterFilterCutoff => Option::Some(
                SynthMessage::ChangeMasterFilter(master_filter_type, processed, master_resonance),
            ),
            MidiControlTarget::MasterFilterResonance => Option::Some(
                SynthMessage::ChangeMasterFilter(master_filter_type, master_cutoff, processed),
            ),
            MidiControlTarget::MasterAttack => Option::Some(
                SynthMessage::ChangeMasterEnvelope(
                    level_as_time(processed),
                    858993459,
                    45875,
                    1288490188,
                ),
            ),
            MidiControlTarget::MasterDecay => Option::Some(
                SynthMessage::ChangeMasterEnvelope(
                    429496729,
                    level_as_time(processed),
                    45875,
                    1288490188,
                ),
            ),
            MidiControlTarget::MasterSustain => Option::Some(
                SynthMessage::ChangeMasterEnvelope(429496729, 858993459, processed, 1288490188),
            ),
            MidiControlTarget::MasterRelease => Option::Some(
                SynthMessage::ChangeMasterEnvelope(
                    429496729,
                    858993459,
                    45875,
                    level_as_time(processed),
                ),
            ),
            MidiControlTarget::OscillatorModAmount(idx) => Option::Some(
                SynthMessage::ChangeOscillatorModulation(idx, processed, ModulationTarget::Pitch),
            ),
            _ => Option::None,
        }
    }
}

/// A processed controller level reread as seconds: Q16 of one second
/// widened to Q32.
pub open spec fn spec_level_as_time(v: int) -> int {
    if v < 0 {
        0
    } else {
        v * 65536
    }
}

/// Widen a Q16 level to a Q32 duration.
fn level_as_time(v: i64) -> (r: u64)
    requires
        -AMP_ONE <= v <= AMP_ONE,
    ensures
        r == spec_level_as_time(v as int),
{
    if v < 0 {
        0
    } else {
        (v as u64) * 65536
    }
}

/// The mapped output of a raw controller value: the 7-bit level scaled
/// into the controller's range, inverted if flagged, held inside the
/// range.
pub open spec fn spec_process_midi_value(
    ranges: Seq<(MidiController, (i64, i64))>,
    invert: Seq<(MidiController, bool)>,
    c: MidiController,
    value: int,
) -> int {
    let norm = spec_cc_level(value);
    let rg = match spec_assoc(ranges, c) {
        Option::Some(rg) => rg,
        Option::None => (0i64, 65536i64),
    };
    let scaled0 = rg.0 + tmul(rg.1 - rg.0, norm);
    let scaled = if spec_assoc(invert, c) == Option::Some(true) {
        65536 - scaled0
    } else {
        scaled0
    };
    if scaled < rg.0 {
        rg.0 as int
    } else if scaled > rg.1 {
        rg.1 as int
    } else {
        scaled
    }
}

/// Clamp a Q16 value into full scale either way.
fn clamp_full(v: i64) -> (r: i64)
    ensures
        r == crate::messaging::cl_bend(v as int),
{
    if v < -AMP_ONE {
        -AMP_ONE
    } else if v > AMP_ONE {
        AMP_ONE
    } else {
        v
    }
}

/// A successful lookup returns a value stored in the list.
pub proof fn lemma_assoc_is_element<V>(s: Seq<(MidiController, V)>, k: MidiController)
    ensures
        match spec_assoc(s, k) {
            Option::Some(v) => exists|i: int| 0 <= i < s.len() && #[trigger] s[i] == (k, v),
            Option::None => true,
        },
    decreases s.len(),
{
    if s.len() > 0 {
        if s.last().0 == k {
            assert(s[s.len() - 1] == (k, s.last().1));
        } else {
            lemma_assoc_is_element(s.drop_last(), k);
            if spec_assoc(s, k) is Some {
                let v = spec_assoc(s.drop_last(), k)->Some_0;
                let i = choose|i: int| 0 <= i < s.drop_last().len() && s.drop_last()[i] == (k, v);
                assert(s[i] == (k, v));
            }
        }
    }
}

/// Drop every entry of a controller from an association list.
fn assoc_remove<V: Copy>(v: &mut Vec<(MidiController, V)>, k: MidiController)
    ensures
        final(v)@ == spec_assoc_remove(old(v)@, k),
{
    let ghost orig = v@;
    let mut kept: Vec<(MidiController, V)> = Vec::new();
    let n: usize = v.len();
    let mut i: usize = 0;
    while i < n
        invariant
            i <= n,
            n == orig.len(),
            v@ == orig,
            kept@ == spec_assoc_remove(orig.subrange(0, i as int), k),
        decreases n - i,
    {
        let e: (MidiController, V) = v[i];
        proof {
            assert(orig.subrange(0, i + 1).drop_last() =~= orig.subrange(0, i as int));
            assert(orig.subrange(0, i + 1).last() == orig[i as int]);
        }
        if !(e.0 == k) {
            kept.push(e);
        }
        i = i + 1;
    }
    proof {
        assert(orig.subrange(0, n as int) =~= orig);
    }
    *v = kept;
}

/// Whether a controller has an entry.
fn assoc_has<V: Copy>(v: &Vec<(MidiController, V)>, k: MidiController) -> (r: bool)
    ensures
        r == (spec_assoc(v@, k) is Some),
{
    let n: usize = v.len();
    let mut i: usize = 0;
    while i < n
        invariant
            i <= n,
            n == v@.len(),
            forall|j: int| 0 <= j < i ==> (#[trigger] v@[j]).0 != k,
        decreases n - i,
    {
        if v[i].0 == k {
            proof {
                lemma_assoc_key_present(v@, i as int);
            }
            return true;
        }
        i = i + 1;
    }
    proof {
        lemma_assoc_absent(v@, k);
    }
    false
}

/// Look up the stored value of a controller.
fn assoc_get<V: Copy>(v: &Vec<(MidiController, V)>, k: MidiController) -> (r: Option<V>)
    requires
        keys_unique(v@),
    ensures
        r == spec_assoc(v@, k),
{
    let n: usize = v.len();
    let mut i: usize = 0;
    while i < n
        invariant
            i <= n,
            n == v@.len(),
            keys_unique(v@),
            forall|j: int| 0 <= j < i ==> (#[trigger] v@[j]).0 != k,
        decreases n - i,
    {
        if v[i].0 == k {
            proof {
                lemma_assoc_found(v@, i as int);
            }
            return Option::Some(v[i].1);
        }
        i = i + 1;
    }
    proof {
        lemma_assoc_absent(v@, k);
    }
    Option::None
}

/// With unique keys, the lookup returns the value stored at the key.
pub proof fn lemma_assoc_found<V>(s: Seq<(MidiController, V)>, i: int)
    requires
        keys_unique(s),
        0 <= i < s.len(),
    ensures
        spec_assoc(s, s[i].0) == Option::Some(s[i].1),
    decreases s.len(),
{
    if i == s.len() - 1 {
    } else {
        assert(s.last().0 != s[i].0);
        assert(keys_unique(s.drop_last())) by {
            assert(forall|x: int|
                0 <= x < s.drop_last().len() ==> s.drop_last()[x] == s[x]);
        }
        lemma_assoc_found(s.drop_last(), i);
        assert(s.drop_last()[i] == s[i]);
    }
}

/// Look up a controller's range.
fn assoc_get_range(v: &Vec<(MidiController, (i64, i64))>, k: MidiController) -> (r: Option<
    (i64, i64),
>)
    requires
        keys_unique(v@),
    ensures
        r == spec_assoc(v@, k),
{
    assoc_get(v, k)
}

/// Look up a controller's inversion flag.
fn assoc_get_invert(v: &Vec<(MidiController, bool)>, k: MidiController) -> (r: Option<bool>)
    requires
        keys_unique(v@),
    ensures
        r == spec_assoc(v@, k),
{
    assoc_get(v, k)
}

/// Look up a controller's target.
fn assoc_get_target(v: &Vec<(MidiController, MidiControlTarget)>, k: MidiController) -> (r: Option<
    MidiControlTarget,
>)
    requires
        keys_unique(v@),
    ensures
        r == spec_assoc(v@, k),
{
    assoc_get(v, k)
}

} // verus!
