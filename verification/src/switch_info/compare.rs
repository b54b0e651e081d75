//! The change detector: remembers, per switch, the event that was last let
//! through, and lets a new event through only where the switch is new or its
//! state differs from the remembered one.

use vstd::prelude::*;
use std::collections::HashMap;
use crate::switch_info::{SwitchId, SwitchInfo};

verus! {

broadcast use vstd::std_specs::hash::group_hash_axioms;

/// Whether `info` counts as a change against what is recorded: its switch has
/// no record, or the recorded state differs. Timestamps play no part.
pub open spec fn is_change(recorded: Map<SwitchId, SwitchInfo>, info: SwitchInfo) -> bool {
    !recorded.contains_key(info.switch_id) || recorded[info.switch_id].switch_state
        != info.switch_state
}

/// The record after `info` was observed: a change replaces the record of its
/// switch, anything else leaves the records as they were.
pub open spec fn record(recorded: Map<SwitchId, SwitchInfo>, info: SwitchInfo) -> Map<
    SwitchId,
    SwitchInfo,
> {
    if is_change(recorded, info) {
        recorded.insert(info.switch_id, info)
    } else {
        recorded
    }
}

/// The records after each of `infos` was observed in turn.
pub open spec fn record_all(recorded: Map<SwitchId, SwitchInfo>, infos: Seq<SwitchInfo>) -> Map<
    SwitchId,
    SwitchInfo,
>
    decreases infos.len(),
{
    if infos.len() == 0 {
        recorded
    } else {
        record(record_all(recorded, infos.drop_last()), infos.last())
    }
}

/// Those of `infos` that are let through when each is observed in turn.
pub open spec fn changes(recorded: Map<SwitchId, SwitchInfo>, infos: Seq<SwitchInfo>) -> Seq<
    SwitchInfo,
>
    decreases infos.len(),
{
    if infos.len() == 0 {
        Seq::empty()
    } else {
        let before = changes(recorded, infos.drop_last());
        if is_change(record_all(recorded, infos.drop_last()), infos.last()) {
            before.push(infos.last())
        } else {
            before
        }
    }
}

/// The latest of `emitted` that belongs to switch `id`.
pub open spec fn last_emitted(emitted: Seq<SwitchInfo>, id: SwitchId) -> Option<SwitchInfo>
    decreases emitted.len(),
{
    if emitted.len() == 0 {
        None
    } else if emitted.last().switch_id == id {
        Some(emitted.last())
    } else {
        last_emitted(emitted.drop_last(), id)
    }
}

pub struct ActionCompare {
    prev_actions: HashMap<SwitchId, SwitchInfo>,
    changed: Vec<SwitchInfo>,
}

impl ActionCompare {
    /// Per switch, the event that was last let through.
    pub closed spec fn recorded(&self) -> Map<SwitchId, SwitchInfo> {
        self.prev_actions@
    }

    /// The events that were let through and not yet taken, oldest first.
    pub closed spec fn pending(&self) -> Seq<SwitchInfo> {
        self.changed@
    }

    /// A detector that has seen no switch.
    pub fn new() -> (r: Self)
        ensures
            r.recorded() == Map::<SwitchId, SwitchInfo>::empty(),
            r.pending() == Seq::<SwitchInfo>::empty(),
    {
        Self { prev_actions: HashMap::new(), changed: Vec::new() }
    }

    /// Whether `info` would be let through now.
    pub fn compare(&self, info: &SwitchInfo) -> (r: bool)
        ensures
            r == is_change(self.recorded(), *info),
    {
        match self.prev_actions.get(&info.switch_id) {
            Some(prev) => prev.switch_state != info.switch_state,
            None => true,
        }
    }

    /// Observes one event. A change is recorded, queued for
    /// `on_change_action` and returned; anything else is dropped.
    pub fn put_action(&mut self, action: SwitchInfo) -> (r: Option<SwitchInfo>)
        ensures
            r == if is_change(old(self).recorded(), action) {
                Some(action)
            } else {
                None
            },
            final(self).recorded() == record(old(self).recorded(), action),
            final(self).pending() == match r {
                Some(e) => old(self).pending().push(e),
                None => old(self).pending(),
            },
    {
        if self.compare(&action) {
            self.prev_actions.insert(action.switch_id, action);
            self.changed.push(action);
            Some(action)
        } else {
            None
        }
    }

    /// Takes the queued changes, oldest first, and leaves the queue empty.
    /// The records stay.
    pub fn on_change_action(&mut self) -> (r: Vec<SwitchInfo>)
        ensures
            r@ == old(self).pending(),
            final(self).pending() == Seq::<SwitchInfo>::empty(),
            final(self).recorded() == old(self).recorded(),
    {
        let mut taken: Vec<SwitchInfo> = Vec::new();
        std::mem::swap(&mut taken, &mut self.changed);
        taken
    }
}

/// Observing one event extends what was observed before by one step.
pub proof fn lemma_observe_take_step(
    recorded: Map<SwitchId, SwitchInfo>,
    infos: Seq<SwitchInfo>,
    k: int,
)
    requires
        0 <= k < infos.len(),
    ensures
        record_all(recorded, infos.take(k + 1)) == record(
            record_all(recorded, infos.take(k)),
            infos[k],
        ),
        changes(recorded, infos.take(k + 1)) == if is_change(
            record_all(recorded, infos.take(k)),
            infos[k],
        ) {
            changes(recorded, infos.take(k)).push(infos[k])
        } else {
            changes(recorded, infos.take(k))
        },
{
    assert(infos.take(k + 1).drop_last() =~= infos.take(k));
    assert(infos.take(k + 1).last() == infos[k]);
}

/// Records are never dropped: a switch that has a record keeps having one,
/// whatever is observed, and a switch gets its first record with its first
/// event.
pub proof fn law_records_never_shrink(recorded: Map<SwitchId, SwitchInfo>, info: SwitchInfo)
    ensures
        forall|id: SwitchId| recorded.contains_key(id) ==> record(recorded, info).contains_key(id),
        record(recorded, info).contains_key(info.switch_id),
{
}

/// An event for the same switch with the same state as the event observed
/// just before it is not a change, whatever was recorded before and whatever
/// the two timestamps are.
pub proof fn law_repeat_is_suppressed(
    recorded: Map<SwitchId, SwitchInfo>,
    first: SwitchInfo,
    second: SwitchInfo,
)
    requires
        first.switch_id == second.switch_id,
        first.switch_state == second.switch_state,
    ensures
        !is_change(record(recorded, first), second),
        record(record(recorded, first), second) == record(recorded, first),
        changes(recorded, seq![first, second]) == if is_change(recorded, first) {
            seq![first]
        } else {
            Seq::empty()
        },
{
    let both = seq![first, second];
    assert(both.take(2) =~= both);
    assert(changes(recorded, both.take(0)) =~= Seq::<SwitchInfo>::empty());
    assert(record_all(recorded, both.take(0)) == recorded);
    lemma_observe_take_step(recorded, both, 0);
    lemma_observe_take_step(recorded, both, 1);
    if is_change(recorded, first) {
        assert(changes(recorded, both) =~= seq![first]);
    }
}

/// An event for the same switch with another state than the event observed
/// just before it is a change and becomes the record of its switch.
pub proof fn law_transition_is_emitted(
    recorded: Map<SwitchId, SwitchInfo>,
    first: SwitchInfo,
    second: SwitchInfo,
)
    requires
        first.switch_id == second.switch_id,
        first.switch_state != second.switch_state,
    ensures
        is_change(record(recorded, first), second),
        record(record(recorded, first), second)[second.switch_id] == second,
{
}

/// Whether the event at `i` is for the same switch as the event before it and
/// differs from it in state.
pub open spec fn is_transition(infos: Seq<SwitchInfo>, i: int) -> bool {
    &&& infos[i].switch_id == infos[i - 1].switch_id
    &&& infos[i].switch_state != infos[i - 1].switch_state
}

/// Events of one switch, each with another state than the one before it, are
/// all let through by a detector that starts without records, and the last of
/// them is then the record of the switch.
pub proof fn law_every_transition_is_emitted(infos: Seq<SwitchInfo>)
    requires
        forall|i: int| 0 < i < infos.len() ==> #[trigger] is_transition(infos, i),
    ensures
        changes(Map::empty(), infos) == infos,
        infos.len() > 0 ==> record_all(Map::empty(), infos).contains_key(infos.last().switch_id)
            && record_all(Map::empty(), infos)[infos.last().switch_id] == infos.last(),
    decreases infos.len(),
{
    if infos.len() > 0 {
        let init = infos.drop_last();
        let e = infos.last();
        assert forall|i: int| 0 < i < init.len() implies #[trigger] is_transition(init, i) by {
            assert(is_transition(infos, i));
        }
        law_every_transition_is_emitted(init);
        if init.len() > 0 {
            assert(is_transition(infos, infos.len() - 1));
            assert(init.last() == infos[infos.len() - 2]);
        }
        assert(is_change(record_all(Map::empty(), init), e));
        assert(changes(Map::empty(), infos) =~= infos);
    } else {
        assert(changes(Map::empty(), infos) =~= infos);
    }
}

/// A detector that starts without records lets through, of any events
/// observed in turn, a sequence in which each event differs in state from the
/// event let through before it for the same switch; and its record of each
/// switch is the event it last let through for that switch.
pub proof fn law_emissions_alternate(infos: Seq<SwitchInfo>)
    ensures
        ({
            let out = changes(Map::empty(), infos);
            let recorded = record_all(Map::empty(), infos);
            &&& forall|id: SwitchId|
                recorded.contains_key(id) <==> (#[trigger] last_emitted(out, id)) is Some
            &&& forall|id: SwitchId|
                recorded.contains_key(id) ==> Some(recorded[id]) == #[trigger] last_emitted(out, id)
            &&& forall|k: int|
                0 <= k < out.len() ==> match last_emitted(out.take(k), (#[trigger] out[k]).switch_id) {
                    Some(prev) => prev.switch_state != out[k].switch_state,
                    None => true,
                }
        }),
    decreases infos.len(),
{
    let out = changes(Map::empty(), infos);
    let recorded = record_all(Map::empty(), infos);
    if infos.len() > 0 {
        let init = infos.drop_last();
        let e = infos.last();
        law_emissions_alternate(init);
        let out0 = changes(Map::empty(), init);
        let rec0 = record_all(Map::empty(), init);
        if is_change(rec0, e) {
            assert(out == out0.push(e));
            assert(out.drop_last() =~= out0);
            assert(recorded == rec0.insert(e.switch_id, e));
            assert forall|id: SwitchId|
                (recorded.contains_key(id) <==> (#[trigger] last_emitted(out, id)) is Some) && (
                recorded.contains_key(id) ==> Some(recorded[id]) == last_emitted(out, id)) by {
                if id != e.switch_id {
                    assert(last_emitted(out, id) == last_emitted(out0, id));
                }
            }
            assert forall|k: int| 0 <= k < out.len() implies match last_emitted(
                out.take(k),
                (#[trigger] out[k]).switch_id,
            ) {
                Some(prev) => prev.switch_state != out[k].switch_state,
                None => true,
            } by {
                if k < out0.len() {
                    assert(out.take(k) =~= out0.take(k));
                    assert(out[k] == out0[k]);
                } else {
                    assert(out.take(k) =~= out0);
                    assert(out[k] == e);
                    let prev = last_emitted(out0, e.switch_id);
                    assert(rec0.contains_key(e.switch_id) <==> prev is Some);
                }
            }
        } else {
            assert(out == out0);
            assert(recorded == rec0);
        }
    } else {
        assert(out =~= Seq::<SwitchInfo>::empty());
        assert(recorded =~= Map::<SwitchId, SwitchInfo>::empty());
    }
}

} // verus!
