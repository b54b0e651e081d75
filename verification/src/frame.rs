//! The wire format of the device and the state machine that recognises it.
//!
//! A frame is the byte `'A'`, then `'D'`, then a payload of one or two bytes,
//! then `'E'`, then `'C'`. The top bit of the first payload byte tells a
//! digital switch (one payload byte) from an analog one (two payload bytes).

use vstd::prelude::*;
use crate::switch_info::SwitchType;

verus! {

/// First start marker, `'A'`.
pub const MARK_A: u8 = 0x41;

/// Second start marker, `'D'`.
pub const MARK_D: u8 = 0x44;

/// First end marker, `'E'`.
pub const MARK_E: u8 = 0x45;

/// Second end marker, `'C'`.
pub const MARK_C: u8 = 0x43;

/// Whether the top bit of a first payload byte is set, which announces an
/// analog switch.
pub open spec fn is_analog_byte(b0: u8) -> bool {
    b0 & 0b1000_0000 != 0
}

/// Identifier carried by a digital payload: bits 6 to 1.
pub open spec fn digital_id(b0: u8) -> u8 {
    (b0 & 0b0111_1110) >> 1
}

/// State carried by a digital payload: bit 0.
pub open spec fn digital_state(b0: u8) -> u16 {
    (b0 & 0b0000_0001) as u16
}

/// Identifier carried by an analog payload: bits 6 to 2 of the first byte.
pub open spec fn analog_id(b0: u8) -> u8 {
    (b0 & 0b0111_1100) >> 2
}

/// State carried by an analog payload: ten bits, the low two bits of the
/// first byte above the eight bits of the second.
pub open spec fn analog_state(b0: u8, b1: u8) -> u16 {
    (((b0 & 0b0000_0011) as u16) << 8) | (b1 as u16)
}

/// The payload of one frame, tagged by the kind that its first byte announced.
#[derive(Clone, Copy, Debug, PartialEq, Eq, Structural)]
pub enum Payload {
    Digital { b0: u8 },
    Analog { b0: u8, b1: u8 },
}

impl Payload {
    /// Whether the tag agrees with the top bit of the first byte.
    pub open spec fn well_tagged(self) -> bool {
        match self {
            Payload::Digital { b0 } => !is_analog_byte(b0),
            Payload::Analog { b0, b1 } => is_analog_byte(b0),
        }
    }

    pub open spec fn kind(self) -> SwitchType {
        match self {
            Payload::Digital { b0 } => SwitchType::Digital,
            Payload::Analog { b0, b1 } => SwitchType::Analog,
        }
    }

    pub open spec fn id(self) -> u8 {
        match self {
            Payload::Digital { b0 } => digital_id(b0),
            Payload::Analog { b0, b1 } => analog_id(b0),
        }
    }

    pub open spec fn state(self) -> u16 {
        match self {
            Payload::Digital { b0 } => digital_state(b0),
            Payload::Analog { b0, b1 } => analog_state(b0, b1),
        }
    }

    /// The payload bytes in the order in which they arrived.
    pub open spec fn bytes(self) -> Seq<u8> {
        match self {
            Payload::Digital { b0 } => seq![b0],
            Payload::Analog { b0, b1 } => seq![b0, b1],
        }
    }

    /// The complete frame that carries this payload.
    pub open spec fn frame(self) -> Seq<u8> {
        seq![MARK_A, MARK_D] + self.bytes() + seq![MARK_E, MARK_C]
    }

    pub fn switch_type(&self) -> (r: SwitchType)
        ensures
            r == self.kind(),
            r != SwitchType::Unknown,
    {
        match self {
            Payload::Digital { .. } => SwitchType::Digital,
            Payload::Analog { .. } => SwitchType::Analog,
        }
    }

    pub fn switch_id(&self) -> (r: u8)
        ensures
            r == self.id(),
            r <= 63,
    {
        match *self {
            Payload::Digital { b0 } => {
                assert((b0 & 0b0111_1110) >> 1 <= 63) by (bit_vector);
                (b0 & 0b0111_1110) >> 1
            },
            Payload::Analog { b0, b1 } => {
                assert((b0 & 0b0111_1100) >> 2 <= 31) by (bit_vector);
                (b0 & 0b0111_1100) >> 2
            },
        }
    }

    pub fn switch_state(&self) -> (r: u16)
        ensures
            r == self.state(),
            self is Digital ==> r <= 1,
            self is Analog ==> r <= 1023,
    {
        match *self {
            Payload::Digital { b0 } => {
                assert(((b0 & 0b0000_0001) as u16) <= 1) by (bit_vector);
                (b0 & 0b0000_0001) as u16
            },
            Payload::Analog { b0, b1 } => {
                assert(((((b0 & 0b0000_0011) as u16) << 8) | (b1 as u16)) <= 1023) by (bit_vector);
                (((b0 & 0b0000_0011) as u16) << 8) | (b1 as u16)
            },
        }
    }

    /// The payload bytes, first byte first.
    pub fn raw_data(&self) -> (r: Vec<u8>)
        ensures
            r@ == self.bytes(),
    {
        let mut v: Vec<u8> = Vec::new();
        match *self {
            Payload::Digital { b0 } => {
                v.push(b0);
            },
            Payload::Analog { b0, b1 } => {
                v.push(b0);
                v.push(b1);
            },
        }
        assert(v@ =~= self.bytes());
        v
    }
}

/// Where the decoder stands within a frame.
#[derive(Clone, Copy, Debug, PartialEq, Eq, Structural)]
pub enum Phase {
    /// Between frames, waiting for `'A'`.
    Idle,
    /// `'A'` was seen; waiting for `'D'`.
    AwaitD,
    /// Both start markers were seen; the next byte is the first payload byte.
    AwaitPayload,
    /// The first byte of an analog payload was seen; the next byte is its second.
    AwaitPayload2 { b0: u8 },
    /// The payload is complete; waiting for `'E'`.
    AwaitE { payload: Payload },
    /// `'E'` was seen; waiting for `'C'`.
    AwaitC { payload: Payload },
}

impl Phase {
    /// The phase in which the decoder is after `byte` arrived in phase `self`.
    pub open spec fn next(self, byte: u8) -> Phase {
        match self {
            Phase::Idle => if byte == MARK_A { Phase::AwaitD } else { Phase::Idle },
            Phase::AwaitD => if byte == MARK_D { Phase::AwaitPayload } else { Phase::Idle },
            Phase::AwaitPayload => if is_analog_byte(byte) {
                Phase::AwaitPayload2 { b0: byte }
            } else {
                Phase::AwaitE { payload: Payload::Digital { b0: byte } }
            },
            Phase::AwaitPayload2 { b0 } => Phase::AwaitE { payload: Payload::Analog { b0, b1: byte } },
            Phase::AwaitE { payload } => if byte == MARK_E { Phase::AwaitC { payload } } else { Phase::Idle },
            Phase::AwaitC { payload } => Phase::Idle,
        }
    }

    /// The payload that `byte` completes when it arrives in phase `self`.
    pub open spec fn emits(self, byte: u8) -> Option<Payload> {
        match self {
            Phase::AwaitC { payload } => if byte == MARK_C { Some(payload) } else { None },
            _ => None,
        }
    }

    /// The marker that this phase waits for; `None` where the next byte is a
    /// payload byte, which may be any byte.
    pub open spec fn expects(self) -> Option<u8> {
        match self {
            Phase::Idle => Some(MARK_A),
            Phase::AwaitD => Some(MARK_D),
            Phase::AwaitPayload => None,
            Phase::AwaitPayload2 { b0 } => None,
            Phase::AwaitE { payload } => Some(MARK_E),
            Phase::AwaitC { payload } => Some(MARK_C),
        }
    }

    /// The bytes of the frame in progress, as far as they have arrived.
    pub open spec fn trail(self) -> Seq<u8> {
        match self {
            Phase::Idle => Seq::empty(),
            Phase::AwaitD => seq![MARK_A],
            Phase::AwaitPayload => seq![MARK_A, MARK_D],
            Phase::AwaitPayload2 { b0 } => seq![MARK_A, MARK_D, b0],
            Phase::AwaitE { payload } => seq![MARK_A, MARK_D] + payload.bytes(),
            Phase::AwaitC { payload } => seq![MARK_A, MARK_D] + payload.bytes() + seq![MARK_E],
        }
    }

    /// Whether every payload held in this phase is tagged as its first byte says.
    pub open spec fn well_tagged(self) -> bool {
        match self {
            Phase::AwaitPayload2 { b0 } => is_analog_byte(b0),
            Phase::AwaitE { payload } => payload.well_tagged(),
            Phase::AwaitC { payload } => payload.well_tagged(),
            _ => true,
        }
    }

    /// The one transition function of the decoder: consumes one byte and
    /// returns the phase that follows and the payload that the byte completed,
    /// if it completed one.
    pub fn step(self, byte: u8) -> (r: (Phase, Option<Payload>))
        ensures
            r.0 == self.next(byte),
            r.1 == self.emits(byte),
            self.well_tagged() ==> r.0.well_tagged(),
            self.well_tagged() && r.1 is Some ==> r.1->0.well_tagged(),
    {
        match self {
            Phase::Idle => if byte == MARK_A { (Phase::AwaitD, None) } else { (Phase::Idle, None) },
            Phase::AwaitD => if byte == MARK_D { (Phase::AwaitPayload, None) } else { (Phase::Idle, None) },
            Phase::AwaitPayload => if byte & 0b1000_0000 != 0 {
                (Phase::AwaitPayload2 { b0: byte }, None)
            } else {
                (Phase::AwaitE { payload: Payload::Digital { b0: byte } }, None)
            },
            Phase::AwaitPayload2 { b0 } => (Phase::AwaitE { payload: Payload::Analog { b0, b1: byte } }, None),
            Phase::AwaitE { payload } => if byte == MARK_E { (Phase::AwaitC { payload }, None) } else { (Phase::Idle, None) },
            Phase::AwaitC { payload } => if byte == MARK_C { (Phase::Idle, Some(payload)) } else { (Phase::Idle, None) },
        }
    }
}

/// The phase in which a decoder that started in `start` is after all of
/// `bytes` arrived, first byte first.
pub open spec fn run_phase(start: Phase, bytes: Seq<u8>) -> Phase
    decreases bytes.len(),
{
    if bytes.len() == 0 {
        start
    } else {
        run_phase(start, bytes.drop_last()).next(bytes.last())
    }
}

/// The payloads that a decoder that started in `start` completes while
/// `bytes` arrive, in the order of their completion.
pub open spec fn run_payloads(start: Phase, bytes: Seq<u8>) -> Seq<Payload>
    decreases bytes.len(),
{
    if bytes.len() == 0 {
        Seq::empty()
    } else {
        let before = run_payloads(start, bytes.drop_last());
        match run_phase(start, bytes.drop_last()).emits(bytes.last()) {
            Some(payload) => before.push(payload),
            None => before,
        }
    }
}

/// Feeding the first `k + 1` bytes is feeding the first `k` and then one step.
pub proof fn lemma_run_take_step(start: Phase, bytes: Seq<u8>, k: int)
    requires
        0 <= k < bytes.len(),
    ensures
        run_phase(start, bytes.take(k + 1)) == run_phase(start, bytes.take(k)).next(bytes[k]),
        run_payloads(start, bytes.take(k + 1)) == match run_phase(start, bytes.take(k)).emits(
            bytes[k],
        ) {
            Some(payload) => run_payloads(start, bytes.take(k)).push(payload),
            None => run_payloads(start, bytes.take(k)),
        },
{
    assert(bytes.take(k + 1).drop_last() =~= bytes.take(k));
    assert(bytes.take(k + 1).last() == bytes[k]);
}

/// Feeding `a` and then `b` is feeding `a + b`.
pub proof fn lemma_run_concat(start: Phase, a: Seq<u8>, b: Seq<u8>)
    ensures
        run_phase(start, a + b) == run_phase(run_phase(start, a), b),
        run_payloads(start, a + b) == run_payloads(start, a) + run_payloads(
            run_phase(start, a),
            b,
        ),
    decreases b.len(),
{
    if b.len() == 0 {
        assert(a + b =~= a);
        assert(run_payloads(start, a) + Seq::<Payload>::empty() =~= run_payloads(start, a));
    } else {
        lemma_run_concat(start, a, b.drop_last());
        assert((a + b).drop_last() =~= a + b.drop_last());
        assert((a + b).last() == b.last());
        let mid = run_phase(start, a);
        let head = run_payloads(start, a);
        let tail = run_payloads(mid, b.drop_last());
        match run_phase(mid, b.drop_last()).emits(b.last()) {
            Some(payload) => {
                assert((head + tail).push(payload) =~= head + tail.push(payload));
            },
            None => {},
        }
    }
}

/// A well-tagged payload's frame, fed to an idle decoder, completes exactly
/// that payload with its last byte, completes nothing before it, and leaves
/// the decoder idle.
pub proof fn law_frame_round_trip(payload: Payload)
    requires
        payload.well_tagged(),
    ensures
        run_payloads(Phase::Idle, payload.frame()) == seq![payload],
        run_phase(Phase::Idle, payload.frame()) == Phase::Idle,
        forall|k: int|
            0 <= k < payload.frame().len() ==> run_payloads(
                Phase::Idle,
                #[trigger] payload.frame().take(k),
            ).len() == 0,
{
    let f = payload.frame();
    let s = Phase::Idle;
    assert(run_payloads(s, f.take(0)) =~= Seq::<Payload>::empty());
    assert(run_phase(s, f.take(0)) == s);
    lemma_run_take_step(s, f, 0);
    lemma_run_take_step(s, f, 1);
    lemma_run_take_step(s, f, 2);
    lemma_run_take_step(s, f, 3);
    lemma_run_take_step(s, f, 4);
    match payload {
        Payload::Digital { b0 } => {
            assert(f.len() == 5);
            assert(f.take(5) =~= f);
        },
        Payload::Analog { b0, b1 } => {
            assert(f.len() == 6);
            lemma_run_take_step(s, f, 5);
            assert(f.take(6) =~= f);
        },
    }
    assert(run_payloads(s, f) =~= seq![payload]);
}

/// The five bytes `'A' 'D' b0 'E' 'C'`, where the top bit of `b0` is clear,
/// decode to one digital payload whose identifier is bits 6 to 1 of `b0` and
/// whose state is bit 0; no proper prefix of them completes anything.
pub proof fn law_digital_round_trip(b0: u8)
    requires
        b0 & 0b1000_0000 == 0,
    ensures
        ({
            let frame = seq![0x41u8, 0x44u8, b0, 0x45u8, 0x43u8];
            let out = run_payloads(Phase::Idle, frame);
            &&& out.len() == 1
            &&& out[0].kind() == SwitchType::Digital
            &&& out[0].id() == (b0 & 0x7E) >> 1
            &&& out[0].state() == (b0 & 0x01) as u16
            &&& forall|k: int|
                0 <= k < 5 ==> run_payloads(Phase::Idle, #[trigger] frame.take(k)).len() == 0
        }),
{
    let payload = Payload::Digital { b0 };
    assert(payload.frame() =~= seq![0x41u8, 0x44u8, b0, 0x45u8, 0x43u8]);
    law_frame_round_trip(payload);
}

/// The six bytes `'A' 'D' b0 b1 'E' 'C'`, where the top bit of `b0` is set,
/// decode to one analog payload whose identifier is bits 6 to 2 of `b0` and
/// whose state is the low two bits of `b0` above the eight bits of `b1`; no
/// proper prefix of them completes anything.
pub proof fn law_analog_round_trip(b0: u8, b1: u8)
    requires
        b0 & 0b1000_0000 != 0,
    ensures
        ({
            let frame = seq![0x41u8, 0x44u8, b0, b1, 0x45u8, 0x43u8];
            let out = run_payloads(Phase::Idle, frame);
            &&& out.len() == 1
            &&& out[0].kind() == SwitchType::Analog
            &&& out[0].id() == (b0 & 0x7C) >> 2
            &&& out[0].state() == (((b0 & 0x03) as u16) << 8) | (b1 as u16)
            &&& forall|k: int|
                0 <= k < 6 ==> run_payloads(Phase::Idle, #[trigger] frame.take(k)).len() == 0
        }),
{
    let payload = Payload::Analog { b0, b1 };
    assert(payload.frame() =~= seq![0x41u8, 0x44u8, b0, b1, 0x45u8, 0x43u8]);
    law_frame_round_trip(payload);
}

/// Bytes other than `'A'` leave an idle decoder idle and complete nothing.
pub proof fn law_noise_is_ignored(noise: Seq<u8>)
    requires
        forall|i: int| 0 <= i < noise.len() ==> noise[i] != MARK_A,
    ensures
        run_phase(Phase::Idle, noise) == Phase::Idle,
        run_payloads(Phase::Idle, noise) == Seq::<Payload>::empty(),
    decreases noise.len(),
{
    if noise.len() > 0 {
        law_noise_is_ignored(noise.drop_last());
    }
}

/// In a phase that waits for a marker, any other byte abandons the frame:
/// the decoder goes idle and completes nothing.
pub proof fn law_unexpected_byte_abandons(phase: Phase, byte: u8)
    requires
        phase.expects() is Some,
        phase.expects() != Some(byte),
    ensures
        phase.next(byte) == Phase::Idle,
        phase.emits(byte) is None,
{
}

/// Whatever arrived before, once the decoder is idle again a well-tagged
/// payload's frame decodes to that payload: the payloads completed so far
/// stay, the frame's payload follows them, and the decoder is idle after it.
pub proof fn law_resynchronizes(start: Phase, before: Seq<u8>, payload: Payload)
    requires
        run_phase(start, before) == Phase::Idle,
        payload.well_tagged(),
    ensures
        run_payloads(start, before + payload.frame()) == run_payloads(start, before).push(payload),
        run_phase(start, before + payload.frame()) == Phase::Idle,
{
    lemma_run_concat(start, before, payload.frame());
    law_frame_round_trip(payload);
    assert(run_payloads(start, before) + seq![payload] =~= run_payloads(start, before).push(
        payload,
    ));
}

/// Whether the last bytes of `bytes` are `tail`.
pub open spec fn ends_with(bytes: Seq<u8>, tail: Seq<u8>) -> bool {
    tail.len() <= bytes.len() && bytes.skip(bytes.len() - tail.len()) =~= tail
}

/// A decoder that started idle holds, in its phase, exactly the last bytes of
/// the stream: the stream ends with the part of a frame that the phase stands
/// for, and the payload in it is tagged as its first byte says.
pub proof fn lemma_phase_tracks_stream(bytes: Seq<u8>)
    ensures
        ends_with(bytes, run_phase(Phase::Idle, bytes).trail()),
        run_phase(Phase::Idle, bytes).well_tagged(),
    decreases bytes.len(),
{
    if bytes.len() > 0 {
        let init = bytes.drop_last();
        let byte = bytes.last();
        lemma_phase_tracks_stream(init);
        let prev = run_phase(Phase::Idle, init);
        let phase = prev.next(byte);
        if phase != Phase::Idle {
            let t = prev.trail();
            assert(phase.trail() =~= t.push(byte));
            assert(init.skip(init.len() - t.len()) =~= t);
            assert(bytes.skip(bytes.len() - t.len() - 1) =~= init.skip(init.len() - t.len()).push(
                byte,
            ));
        }
    }
}

/// Nothing but a frame completes a payload: where the byte at `k` completes
/// one, the stream up to and including that byte ends with the payload's
/// frame, and the payload is tagged as its first byte says.
pub proof fn law_only_frames_complete(bytes: Seq<u8>, k: int)
    requires
        0 <= k < bytes.len(),
    ensures
        match run_phase(Phase::Idle, bytes.take(k)).emits(bytes[k]) {
            Some(payload) => payload.well_tagged() && ends_with(bytes.take(k + 1), payload.frame()),
            None => true,
        },
{
    let init = bytes.take(k);
    let upto = bytes.take(k + 1);
    lemma_phase_tracks_stream(init);
    let prev = run_phase(Phase::Idle, init);
    match prev.emits(bytes[k]) {
        Some(payload) => {
            let t = prev.trail();
            assert(payload.frame() =~= t.push(bytes[k]));
            assert(init.skip(init.len() - t.len()) =~= t);
            assert(upto.skip(upto.len() - t.len() - 1) =~= init.skip(init.len() - t.len()).push(
                bytes[k],
            ));
        },
        None => {},
    }
}

/// The frames of `payloads`, one after another.
pub open spec fn frames(payloads: Seq<Payload>) -> Seq<u8>
    decreases payloads.len(),
{
    if payloads.len() == 0 {
        Seq::empty()
    } else {
        frames(payloads.drop_last()) + payloads.last().frame()
    }
}

/// A stream of frames, fed to an idle decoder, decodes to the payloads of
/// the frames, in order, and leaves the decoder idle.
pub proof fn law_frames_decode(payloads: Seq<Payload>)
    requires
        forall|i: int| 0 <= i < payloads.len() ==> (#[trigger] payloads[i]).well_tagged(),
    ensures
        run_payloads(Phase::Idle, frames(payloads)) == payloads,
        run_phase(Phase::Idle, frames(payloads)) == Phase::Idle,
    decreases payloads.len(),
{
    if payloads.len() > 0 {
        let init = payloads.drop_last();
        law_frames_decode(init);
        law_resynchronizes(Phase::Idle, frames(init), payloads.last());
        assert(init.push(payloads.last()) =~= payloads);
    } else {
        assert(run_payloads(Phase::Idle, frames(payloads)) =~= payloads);
    }
}

/// A frame that starts while the decoder is in the middle of another one is
/// lost: unless the decoder is idle when the first byte of the frame arrives,
/// the frame completes nothing.
pub proof fn law_frame_needs_idle_decoder(start: Phase, payload: Payload)
    requires
        start != Phase::Idle,
        payload.well_tagged(),
    ensures
        run_payloads(start, payload.frame()) == Seq::<Payload>::empty(),
{
    let f = payload.frame();
    assert(MARK_A & 0b1000_0000 == 0) by (bit_vector);
    assert(run_payloads(start, f.take(0)) =~= Seq::<Payload>::empty());
    assert(run_phase(start, f.take(0)) == start);
    lemma_run_take_step(start, f, 0);
    lemma_run_take_step(start, f, 1);
    lemma_run_take_step(start, f, 2);
    lemma_run_take_step(start, f, 3);
    lemma_run_take_step(start, f, 4);
    match payload {
        Payload::Digital { b0 } => {
            assert(f.take(5) =~= f);
        },
        Payload::Analog { b0, b1 } => {
            lemma_run_take_step(start, f, 5);
            assert(f.take(6) =~= f);
        },
    }
}

} // verus!
