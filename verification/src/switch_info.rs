//! Switch events as the rest of the pipeline sees them.

use vstd::prelude::*;
use crate::clock::get_time_millis;
use crate::frame::{frames, law_frames_decode, run_payloads, run_phase, Payload, Phase};
use crate::switch_info::compare::{
    changes, is_change, law_repeat_is_suppressed, record, record_all, ActionCompare,
};

pub mod compare;

verus! {

/// The kind of a physical switch on the device.
///
/// `Unknown` is the kind of an event that has not been filled in yet; the
/// frame decoder never emits it.
#[derive(Clone, Copy, Debug, PartialEq, Eq, Structural)]
pub enum SwitchType {
    Unknown,
    Digital,
    Analog,
}

impl SwitchType {
    /// The name under which a kind is written in settings files and in
    /// messages to plugins.
    pub open spec fn name_of(self) -> Seq<char> {
        match self {
            SwitchType::Unknown => "unknown"@,
            SwitchType::Digital => "digital"@,
            SwitchType::Analog => "analog"@,
        }
    }

    /// The name of this kind.
    pub fn name(self) -> (r: &'static str)
        ensures
            r@ == self.name_of(),
    {
        match self {
            SwitchType::Unknown => "unknown",
            SwitchType::Digital => "digital",
            SwitchType::Analog => "analog",
        }
    }

    /// The kind that `name` names, if it names one. Names are matched letter
    /// for letter.
    pub fn from_name(name: &String) -> (r: Option<SwitchType>)
        ensures
            match r {
                Some(kind) => name@ == kind.name_of(),
                None => forall|kind: SwitchType| name@ != kind.name_of(),
            },
    {
        if *name == "digital".to_owned() {
            Some(SwitchType::Digital)
        } else if *name == "analog".to_owned() {
            Some(SwitchType::Analog)
        } else if *name == "unknown".to_owned() {
            Some(SwitchType::Unknown)
        } else {
            None
        }
    }
}

/// No two kinds share a name, so a name names at most one kind.
pub proof fn law_kind_names_differ(a: SwitchType, b: SwitchType)
    requires
        a.name_of() == b.name_of(),
    ensures
        a == b,
{
    reveal_strlit("unknown");
    reveal_strlit("digital");
    reveal_strlit("analog");
    assert("unknown"@.len() == 7 && "unknown"@[0] == 'u');
    assert("digital"@.len() == 7 && "digital"@[0] == 'd');
    assert("analog"@.len() == 6);
}

/// Identifier of a switch on one device.
pub type SwitchId = u8;

/// One observation of one switch.
#[derive(Clone, Copy, Debug, PartialEq, Eq, Structural)]
pub struct SwitchInfo {
    pub switch_type: SwitchType,
    pub switch_id: SwitchId,
    pub switch_state: u16,
    /// Milliseconds since the Unix epoch at which the frame completed.
    pub timestamp: i64,
}

impl SwitchInfo {
    /// An event that carries nothing yet: unknown kind, everything else zero.
    pub open spec fn blank() -> SwitchInfo {
        SwitchInfo { switch_type: SwitchType::Unknown, switch_id: 0, switch_state: 0, timestamp: 0 }
    }

    /// Whether this is an event that a decoder may emit: a known kind, an
    /// identifier of six bits and a state in the range of its kind.
    pub open spec fn is_reading(self) -> bool {
        &&& self.switch_id <= 63
        &&& match self.switch_type {
            SwitchType::Unknown => false,
            SwitchType::Digital => self.switch_state <= 1,
            SwitchType::Analog => self.switch_state <= 1023,
        }
    }

    pub fn new() -> (r: Self)
        ensures
            r == Self::blank(),
    {
        Self { switch_type: SwitchType::Unknown, switch_id: 0, switch_state: 0, timestamp: 0 }
    }

    pub fn set_switch_type(&mut self, switch_type: SwitchType)
        ensures
            *final(self) == (SwitchInfo { switch_type, ..*old(self) }),
    {
        self.switch_type = switch_type;
    }

    pub fn get_switch_type(&self) -> (r: SwitchType)
        ensures
            r == self.switch_type,
    {
        self.switch_type
    }

    pub fn set_switch_id(&mut self, id: u8)
        ensures
            *final(self) == (SwitchInfo { switch_id: id, ..*old(self) }),
    {
        self.switch_id = id;
    }

    pub fn get_switch_id(&self) -> (r: u8)
        ensures
            r == self.switch_id,
    {
        self.switch_id
    }

    pub fn set_switch_state(&mut self, state: u16)
        ensures
            *final(self) == (SwitchInfo { switch_state: state, ..*old(self) }),
    {
        self.switch_state = state;
    }

    pub fn get_switch_state(&self) -> (r: u16)
        ensures
            r == self.switch_state,
    {
        self.switch_state
    }

    pub fn set_timestamp(&mut self, timestamp: i64)
        ensures
            *final(self) == (SwitchInfo { timestamp, ..*old(self) }),
    {
        self.timestamp = timestamp;
    }

    pub fn get_timestamp(&self) -> (r: i64)
        ensures
            r == self.timestamp,
    {
        self.timestamp
    }
}

/// The event that a completed payload stands for, stamped with `timestamp`.
pub open spec fn reading(payload: Payload, timestamp: i64) -> SwitchInfo {
    SwitchInfo {
        switch_type: payload.kind(),
        switch_id: payload.id(),
        switch_state: payload.state(),
        timestamp,
    }
}

/// Whether `infos` are the events of `payloads`, one for one and in order,
/// each with some timestamp.
pub open spec fn are_readings(infos: Seq<SwitchInfo>, payloads: Seq<Payload>) -> bool {
    &&& infos.len() == payloads.len()
    &&& forall|i: int|
        0 <= i < infos.len() ==> #[trigger] infos[i] == reading(payloads[i], infos[i].timestamp)
}

/// The decoder of one device together with its change detector.
///
/// Bytes go in through `put_challenge` or `put_data`. Every completed frame
/// becomes an event in the queue that `on_complete` empties; every event that
/// the change detector lets through is also put in the queue that
/// `on_change_action` empties.
pub struct ActionDataParser {
    phase: Phase,
    completed: Vec<SwitchInfo>,
    compare: ActionCompare,
}

impl ActionDataParser {
    /// Where the decoder stands within a frame.
    pub closed spec fn phase(&self) -> Phase {
        self.phase
    }

    /// The decoded events that were not taken yet, oldest first.
    pub closed spec fn completed(&self) -> Seq<SwitchInfo> {
        self.completed@
    }

    /// Per switch, the event that the change detector last let through.
    pub closed spec fn recorded(&self) -> Map<SwitchId, SwitchInfo> {
        self.compare.recorded()
    }

    /// The changes that were not taken yet, oldest first.
    pub closed spec fn changed(&self) -> Seq<SwitchInfo> {
        self.compare.pending()
    }

    /// An idle decoder with empty queues and a detector without records.
    pub fn new() -> (r: Self)
        ensures
            r.phase() == Phase::Idle,
            r.completed() == Seq::<SwitchInfo>::empty(),
            r.recorded() == Map::<SwitchId, SwitchInfo>::empty(),
            r.changed() == Seq::<SwitchInfo>::empty(),
    {
        Self { phase: Phase::Idle, completed: Vec::new(), compare: ActionCompare::new() }
    }

    /// Decodes a completed payload into the event it stands for.
    pub fn format_switch_data(payload: Payload, timestamp: i64) -> (r: SwitchInfo)
        ensures
            r == reading(payload, timestamp),
            r.is_reading(),
    {
        SwitchInfo {
            switch_type: payload.switch_type(),
            switch_id: payload.switch_id(),
            switch_state: payload.switch_state(),
            timestamp,
        }
    }

    /// Hands a decoded event on: it is queued as completed and shown to the
    /// change detector, which queues it as a change if it is one. Returns
    /// whether it was a change.
    pub fn on_complete_emit_all(&mut self, action: SwitchInfo) -> (r: bool)
        ensures
            r == is_change(old(self).recorded(), action),
            final(self).phase() == old(self).phase(),
            final(self).completed() == old(self).completed().push(action),
            final(self).recorded() == record(old(self).recorded(), action),
            final(self).changed() == if r {
                old(self).changed().push(action)
            } else {
                old(self).changed()
            },
    {
        self.completed.push(action);
        self.compare.put_action(action).is_some()
    }

    /// Consumes one byte of the device's stream.
    ///
    /// The decoder takes the one step that the byte calls for. Where the byte
    /// completes a frame, the frame's event is stamped with the time of this
    /// call, handed on as `on_complete_emit_all` does, and returned; otherwise
    /// nothing but the phase changes and `None` is returned.
    pub fn put_challenge(&mut self, data: u8) -> (r: Option<SwitchInfo>)
        ensures
            final(self).phase() == old(self).phase().next(data),
            match old(self).phase().emits(data) {
                Some(payload) => {
                    &&& r is Some
                    &&& r->0 == reading(payload, r->0.timestamp)
                    &&& r->0.is_reading()
                    &&& final(self).completed() == old(self).completed().push(r->0)
                    &&& final(self).recorded() == record(old(self).recorded(), r->0)
                    &&& final(self).changed() == if is_change(old(self).recorded(), r->0) {
                        old(self).changed().push(r->0)
                    } else {
                        old(self).changed()
                    }
                },
                None => {
                    &&& r is None
                    &&& final(self).completed() == old(self).completed()
                    &&& final(self).recorded() == old(self).recorded()
                    &&& final(self).changed() == old(self).changed()
                },
            },
    {
        let (next, emitted) = self.phase.step(data);
        self.phase = next;
        match emitted {
            Some(payload) => {
                let info = Self::format_switch_data(payload, get_time_millis());
                self.on_complete_emit_all(info);
                Some(info)
            },
            None => None,
        }
    }

    /// Consumes a buffer of bytes of the device's stream, first byte first,
    /// each as `put_challenge` does.
    ///
    /// Afterwards the decoder stands where the bytes lead it, the completed
    /// queue has grown by one event per frame that the bytes completed, in
    /// order, and the change detector has observed exactly these new events.
    pub fn put_data(&mut self, data: Vec<u8>)
        ensures
            final(self).phase() == run_phase(old(self).phase(), data@),
            old(self).completed().len() <= final(self).completed().len(),
            final(self).completed().take(old(self).completed().len() as int) == old(
                self,
            ).completed(),
            are_readings(
                final(self).completed().skip(old(self).completed().len() as int),
                run_payloads(old(self).phase(), data@),
            ),
            forall|i: int|
                old(self).completed().len() <= i < final(self).completed().len() ==> (
                #[trigger] final(self).completed()[i]).is_reading(),
            final(self).recorded() == record_all(
                old(self).recorded(),
                final(self).completed().skip(old(self).completed().len() as int),
            ),
            final(self).changed() == old(self).changed() + changes(
                old(self).recorded(),
                final(self).completed().skip(old(self).completed().len() as int),
            ),
    {
        let ghost start = self.phase();
        let ghost before = self.completed();
        let ghost recorded = self.recorded();
        let ghost changed = self.changed();
        let ghost n = before.len() as int;
        let mut i: usize = 0;
        proof {
            assert(before.take(n) =~= before);
            assert(before.skip(n) =~= Seq::<SwitchInfo>::empty());
            assert(changed + Seq::<SwitchInfo>::empty() =~= changed);
        }
        while i < data.len()
            invariant
                0 <= i <= data.len(),
                n == before.len(),
                self.phase() == run_phase(start, data@.take(i as int)),
                n <= self.completed().len(),
                self.completed().take(n) == before,
                are_readings(self.completed().skip(n), run_payloads(start, data@.take(i as int))),
                forall|k: int|
                    n <= k < self.completed().len() ==> (#[trigger] self.completed()[k]).is_reading(),
                self.recorded() == record_all(recorded, self.completed().skip(n)),
                self.changed() == changed + changes(recorded, self.completed().skip(n)),
            decreases data.len() - i,
        {
            let ghost seen = self.completed().skip(n);
            let ghost full = self.completed();
            let r = self.put_challenge(data[i]);
            proof {
                crate::frame::lemma_run_take_step(start, data@, i as int);
                match r {
                    Some(info) => {
                        let grown = self.completed().skip(n);
                        assert(grown =~= seen.push(info));
                        assert(grown.drop_last() =~= seen);
                        assert(self.completed().take(n) =~= full.take(n));
                        assert(changed + changes(recorded, seen).push(info) =~= (changed + changes(
                            recorded,
                            seen,
                        )).push(info));
                    },
                    None => {},
                }
            }
            i += 1;
        }
        proof {
            assert(data@.take(data.len() as int) =~= data@);
        }
    }

    /// Takes the decoded events, oldest first, and leaves their queue empty.
    pub fn on_complete(&mut self) -> (r: Vec<SwitchInfo>)
        ensures
            r@ == old(self).completed(),
            final(self).completed() == Seq::<SwitchInfo>::empty(),
            final(self).phase() == old(self).phase(),
            final(self).recorded() == old(self).recorded(),
            final(self).changed() == old(self).changed(),
    {
        let mut taken: Vec<SwitchInfo> = Vec::new();
        std::mem::swap(&mut taken, &mut self.completed);
        taken
    }

    /// Takes the changes, oldest first, and leaves their queue empty. The
    /// detector's records stay.
    pub fn on_change_action(&mut self) -> (r: Vec<SwitchInfo>)
        ensures
            r@ == old(self).changed(),
            final(self).changed() == Seq::<SwitchInfo>::empty(),
            final(self).phase() == old(self).phase(),
            final(self).recorded() == old(self).recorded(),
            final(self).completed() == old(self).completed(),
    {
        self.compare.on_change_action()
    }
}

/// Every event that a payload decodes to is one that a decoder may emit: its
/// kind is known, its identifier has at most six bits, and its state is 0 or 1
/// for a digital switch and at most 1023 for an analog one.
pub proof fn law_readings_are_valid(payload: Payload, timestamp: i64)
    ensures
        reading(payload, timestamp).is_reading(),
{
    match payload {
        Payload::Digital { b0 } => {
            assert((b0 & 0b0111_1110) >> 1 <= 63) by (bit_vector);
            assert(((b0 & 0b0000_0001) as u16) <= 1) by (bit_vector);
        },
        Payload::Analog { b0, b1 } => {
            assert((b0 & 0b0111_1100) >> 2 <= 63) by (bit_vector);
            assert(((((b0 & 0b0000_0011) as u16) << 8) | (b1 as u16)) <= 1023) by (bit_vector);
        },
    }
}

/// The same frame twice in a row, fed to an idle decoder whose detector has
/// no records, is decoded twice and let through once: the first event is a
/// change, the second is not, whatever the two timestamps are.
pub proof fn law_same_frame_twice_changes_once(payload: Payload, first: i64, second: i64)
    requires
        payload.well_tagged(),
    ensures
        run_payloads(Phase::Idle, payload.frame() + payload.frame()) == seq![payload, payload],
        changes(Map::empty(), seq![reading(payload, first), reading(payload, second)]) == seq![
            reading(payload, first),
        ],
{
    let twice = seq![payload, payload];
    law_frames_decode(twice);
    let once = twice.drop_last();
    assert(once.drop_last() =~= Seq::<Payload>::empty());
    assert(frames(once.drop_last()) =~= Seq::<u8>::empty());
    assert(frames(once) =~= payload.frame());
    assert(frames(twice) =~= payload.frame() + payload.frame());
    law_repeat_is_suppressed(Map::empty(), reading(payload, first), reading(payload, second));
}

} // verus!
