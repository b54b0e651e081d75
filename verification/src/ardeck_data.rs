//! The decoder at device level: it keeps the raw payload bytes beside the
//! decoded fields of each event and knows nothing of change detection.

use vstd::prelude::*;
use crate::clock::get_time_millis;
use crate::frame::{run_payloads, run_phase, Payload, Phase};
use crate::switch_info::SwitchType;

verus! {

/// What a `SwitchData` holds.
pub struct SwitchDataView {
    pub switch_type: SwitchType,
    pub id: u8,
    pub state: u16,
    pub raw_data: Seq<u8>,
    pub timestamp: i64,
}

/// One decoded frame together with its payload bytes.
#[derive(Debug)]
pub struct SwitchData {
    switch_type: SwitchType,
    id: u8,
    state: u16,
    raw_data: Vec<u8>,
    timestamp: i64,
}

impl View for SwitchData {
    type V = SwitchDataView;

    closed spec fn view(&self) -> SwitchDataView {
        SwitchDataView {
            switch_type: self.switch_type,
            id: self.id,
            state: self.state,
            raw_data: self.raw_data@,
            timestamp: self.timestamp,
        }
    }
}

/// What a completed payload decodes to, stamped with `timestamp`.
pub open spec fn raw_reading(payload: Payload, timestamp: i64) -> SwitchDataView {
    SwitchDataView {
        switch_type: payload.kind(),
        id: payload.id(),
        state: payload.state(),
        raw_data: payload.bytes(),
        timestamp,
    }
}

/// Whether `data` are the decodings of `payloads`, one for one and in order,
/// each with some timestamp.
pub open spec fn are_raw_readings(data: Seq<SwitchData>, payloads: Seq<Payload>) -> bool {
    &&& data.len() == payloads.len()
    &&& forall|i: int|
        0 <= i < data.len() ==> (#[trigger] data[i])@ == raw_reading(
            payloads[i],
            data[i]@.timestamp,
        )
}

impl SwitchData {
    /// Unknown kind, no payload bytes, everything else zero.
    pub open spec fn blank() -> SwitchDataView {
        SwitchDataView {
            switch_type: SwitchType::Unknown,
            id: 0,
            state: 0,
            raw_data: Seq::empty(),
            timestamp: 0,
        }
    }

    pub fn new() -> (r: SwitchData)
        ensures
            r@ == Self::blank(),
    {
        SwitchData {
            switch_type: SwitchType::Unknown,
            id: 0,
            state: 0,
            raw_data: Vec::new(),
            timestamp: 0,
        }
    }

    pub fn set_switch_type(&mut self, switch_type: SwitchType)
        ensures
            final(self)@ == (SwitchDataView { switch_type, ..old(self)@ }),
    {
        self.switch_type = switch_type;
    }

    pub fn switch_type(&self) -> (r: SwitchType)
        ensures
            r == self@.switch_type,
    {
        self.switch_type
    }

    pub fn set_id(&mut self, id: u8)
        ensures
            final(self)@ == (SwitchDataView { id, ..old(self)@ }),
    {
        self.id = id;
    }

    pub fn id(&self) -> (r: u8)
        ensures
            r == self@.id,
    {
        self.id
    }

    pub fn set_state(&mut self, state: u16)
        ensures
            final(self)@ == (SwitchDataView { state, ..old(self)@ }),
    {
        self.state = state;
    }

    pub fn state(&self) -> (r: u16)
        ensures
            r == self@.state,
    {
        self.state
    }

    pub fn set_raw_data(&mut self, raw_data: Vec<u8>)
        ensures
            final(self)@ == (SwitchDataView { raw_data: raw_data@, ..old(self)@ }),
    {
        self.raw_data = raw_data;
    }

    /// A copy of the payload bytes.
    pub fn raw_data(&self) -> (r: Vec<u8>)
        ensures
            r@ == self@.raw_data,
    {
        let r = self.raw_data.clone();
        assert(r@ =~= self.raw_data@);
        r
    }

    pub fn set_timestamp(&mut self, timestamp: i64)
        ensures
            final(self)@ == (SwitchDataView { timestamp, ..old(self)@ }),
    {
        self.timestamp = timestamp;
    }

    pub fn timestamp(&self) -> (r: i64)
        ensures
            r == self@.timestamp,
    {
        self.timestamp
    }
}

/// The frame decoder of one device.
///
/// Bytes go in through `put_challenge` or `on_data`; every completed frame
/// becomes a `SwitchData` in the queue that `on_complete` empties.
pub struct ArdeckData {
    phase: Phase,
    completed: Vec<SwitchData>,
}

impl ArdeckData {
    /// Where the decoder stands within a frame.
    pub closed spec fn phase(&self) -> Phase {
        self.phase
    }

    /// The decoded frames that were not taken yet, oldest first.
    pub closed spec fn completed(&self) -> Seq<SwitchData> {
        self.completed@
    }

    /// An idle decoder with an empty queue.
    pub fn new() -> (r: ArdeckData)
        ensures
            r.phase() == Phase::Idle,
            r.completed() == Seq::<SwitchData>::empty(),
    {
        ArdeckData { phase: Phase::Idle, completed: Vec::new() }
    }

    /// Decodes a completed payload and keeps its bytes.
    pub fn format_switch_data(payload: Payload, timestamp: i64) -> (r: SwitchData)
        ensures
            r@ == raw_reading(payload, timestamp),
            r@.switch_type != SwitchType::Unknown,
            r@.id <= 63,
            r@.state <= 1023,
    {
        SwitchData {
            switch_type: payload.switch_type(),
            id: payload.switch_id(),
            state: payload.switch_state(),
            raw_data: payload.raw_data(),
            timestamp,
        }
    }

    /// Consumes one byte of the device's stream and says whether it completed
    /// a frame. Where it did, the frame's decoding, stamped with the time of
    /// this call, is appended to the queue; otherwise only the phase changes.
    pub fn put_challenge(&mut self, data: u8) -> (r: bool)
        ensures
            final(self).phase() == old(self).phase().next(data),
            r == (old(self).phase().emits(data) is Some),
            match old(self).phase().emits(data) {
                Some(payload) => {
                    &&& final(self).completed().len() == old(self).completed().len() + 1
                    &&& final(self).completed().drop_last() == old(self).completed()
                    &&& final(self).completed().last()@ == raw_reading(
                        payload,
                        final(self).completed().last()@.timestamp,
                    )
                },
                None => final(self).completed() == old(self).completed(),
            },
    {
        let (next, emitted) = self.phase.step(data);
        self.phase = next;
        match emitted {
            Some(payload) => {
                let decoded = Self::format_switch_data(payload, get_time_millis());
                self.completed.push(decoded);
                assert(self.completed@.drop_last() =~= old(self).completed@);
                true
            },
            None => false,
        }
    }

    /// Consumes a buffer of bytes of the device's stream, first byte first,
    /// each as `put_challenge` does.
    pub fn on_data(&mut self, data: Vec<u8>)
        ensures
            final(self).phase() == run_phase(old(self).phase(), data@),
            old(self).completed().len() <= final(self).completed().len(),
            final(self).completed().take(old(self).completed().len() as int) == old(
                self,
            ).completed(),
            are_raw_readings(
                final(self).completed().skip(old(self).completed().len() as int),
                run_payloads(old(self).phase(), data@),
            ),
    {
        let ghost start = self.phase();
        let ghost before = self.completed();
        let ghost n = before.len() as int;
        let mut i: usize = 0;
        proof {
            assert(before.take(n) =~= before);
        }
        while i < data.len()
            invariant
                0 <= i <= data.len(),
                n == before.len(),
                self.phase() == run_phase(start, data@.take(i as int)),
                n <= self.completed().len(),
                self.completed().take(n) == before,
                are_raw_readings(
                    self.completed().skip(n),
                    run_payloads(start, data@.take(i as int)),
                ),
            decreases data.len() - i,
        {
            let ghost full = self.completed();
            let completes = self.put_challenge(data[i]);
            proof {
                crate::frame::lemma_run_take_step(start, data@, i as int);
                if completes {
                    let grown = self.completed().skip(n);
                    let seen = full.skip(n);
                    assert(self.completed().drop_last() == full);
                    assert(self.completed().take(n) =~= full.take(n));
                    assert(grown.drop_last() =~= seen);
                    assert(grown.last() == self.completed().last());
                    assert forall|j: int| 0 <= j < grown.len() implies (#[trigger] grown[j])@
                        == raw_reading(
                        run_payloads(start, data@.take(i + 1))[j],
                        grown[j]@.timestamp,
                    ) by {
                        if j < seen.len() {
                            assert(grown[j] == seen[j]);
                        }
                    }
                }
            }
            i += 1;
        }
        proof {
            assert(data@.take(data.len() as int) =~= data@);
        }
    }

    /// Takes the decoded frames, oldest first, and leaves the queue empty.
    pub fn on_complete(&mut self) -> (r: Vec<SwitchData>)
        ensures
            r@ == old(self).completed(),
            final(self).completed() == Seq::<SwitchData>::empty(),
            final(self).phase() == old(self).phase(),
    {
        let mut taken: Vec<SwitchData> = Vec::new();
        std::mem::swap(&mut taken, &mut self.completed);
        taken
    }
}

} // verus!
