//! The router: from a changed switch to the plugin actions bound to it.
//!
//! The router keeps nothing between calls. It is handed the presets that are
//! active at the moment of the call and answers with one action per binding
//! of the switch, presets in their order and bindings in theirs.

use vstd::prelude::*;
use crate::action::map::ActionMap;
use crate::settings::mapping_presets::MappingPreset;
use crate::switch_info::SwitchInfo;

pub mod map;

verus! {

/// The action `action_id` of the plugin `plugin_id`.
#[derive(Debug)]
pub struct ActionTarget {
    pub plugin_id: String,
    pub action_id: String,
}

/// One instruction to run `target` for the event `switch`.
#[derive(Debug)]
pub struct Action {
    pub switch: SwitchInfo,
    pub target: ActionTarget,
}

/// The target that a binding names.
pub open spec fn target_of(map: ActionMap) -> ActionTarget {
    ActionTarget { plugin_id: map.plugin_id, action_id: map.action_id }
}

/// The targets of those of `mapping` that are bound to `switch`, in the order
/// of `mapping`.
pub open spec fn targets_in(mapping: Seq<ActionMap>, switch: SwitchInfo) -> Seq<ActionTarget>
    decreases mapping.len(),
{
    if mapping.len() == 0 {
        Seq::empty()
    } else {
        let before = targets_in(mapping.drop_last(), switch);
        if mapping.last().is_bound_to(switch) {
            before.push(target_of(mapping.last()))
        } else {
            before
        }
    }
}

/// The targets bound to `switch` in `presets`: those of the first preset,
/// then those of the second, and so on.
pub open spec fn targets_of(presets: Seq<MappingPreset>, switch: SwitchInfo) -> Seq<ActionTarget>
    decreases presets.len(),
{
    if presets.len() == 0 {
        Seq::empty()
    } else {
        targets_of(presets.drop_last(), switch) + targets_in(presets.last().mapping@, switch)
    }
}

/// The targets bound to `switch` in what the preset store gave: nothing where
/// the store could not be read.
pub open spec fn targets_from_store(store: Option<&Vec<MappingPreset>>, switch: SwitchInfo) -> Seq<
    ActionTarget,
> {
    match store {
        Some(presets) => targets_of(presets@, switch),
        None => Seq::empty(),
    }
}

/// Whether `actions` pair `switch` with each of `targets`, one for one and in
/// order.
pub open spec fn are_actions(
    actions: Seq<Action>,
    switch: SwitchInfo,
    targets: Seq<ActionTarget>,
) -> bool {
    &&& actions.len() == targets.len()
    &&& forall|i: int|
        0 <= i < actions.len() ==> #[trigger] actions[i] == (Action { switch, target: targets[i] })
}

impl Action {
    /// Routes one event: one action per binding of its switch in the presets
    /// that the store gave, in preset order and then binding order. Where the
    /// store could not be read (`None`), or nothing is bound, the answer is
    /// empty.
    pub fn from_switch_info(switch: SwitchInfo, store: Option<&Vec<MappingPreset>>) -> (r: Vec<
        Self,
    >)
        ensures
            are_actions(r@, switch, targets_from_store(store, switch)),
    {
        let target = Self::search_action_target(&switch, store);
        let mut actions: Vec<Action> = Vec::new();
        let mut i: usize = 0;
        while i < target.len()
            invariant
                0 <= i <= target.len(),
                actions@.len() == i,
                forall|k: int|
                    0 <= k < i ==> #[trigger] actions@[k] == (Action { switch, target: target@[k] }),
            decreases target.len() - i,
        {
            let t = &target[i];
            actions.push(
                Action {
                    switch,
                    target: ActionTarget {
                        plugin_id: t.plugin_id.clone(),
                        action_id: t.action_id.clone(),
                    },
                },
            );
            i += 1;
        }
        actions
    }

    /// The targets bound to the switch of `switch_info` in what the preset
    /// store gave, in preset order and then binding order.
    pub fn search_action_target(switch_info: &SwitchInfo, store: Option<&Vec<MappingPreset>>) -> (r:
        Vec<ActionTarget>)
        ensures
            r@ == targets_from_store(store, *switch_info),
    {
        let mut target: Vec<ActionTarget> = Vec::new();
        let mapping_presets = match store {
            Some(presets) => presets,
            None => {
                return target;
            },
        };
        let mut p: usize = 0;
        while p < mapping_presets.len()
            invariant
                0 <= p <= mapping_presets.len(),
                target@ == targets_of(mapping_presets@.take(p as int), *switch_info),
            decreases mapping_presets.len() - p,
        {
            let preset = &mapping_presets[p];
            let ghost done = target@;
            let mut m: usize = 0;
            while m < preset.mapping.len()
                invariant
                    0 <= m <= preset.mapping.len(),
                    target@ == done + targets_in(preset.mapping@.take(m as int), *switch_info),
                decreases preset.mapping.len() - m,
            {
                let map = &preset.mapping[m];
                proof {
                    assert(preset.mapping@.take(m + 1).drop_last() =~= preset.mapping@.take(
                        m as int,
                    ));
                }
                if map.matches(switch_info) {
                    target.push(
                        ActionTarget {
                            plugin_id: map.plugin_id.clone(),
                            action_id: map.action_id.clone(),
                        },
                    );
                    proof {
                        let seen = targets_in(preset.mapping@.take(m as int), *switch_info);
                        assert((done + seen).push(target_of(*map)) =~= done + seen.push(
                            target_of(*map),
                        ));
                    }
                }
                m += 1;
            }
            proof {
                assert(preset.mapping@.take(preset.mapping.len() as int) =~= preset.mapping@);
                assert(mapping_presets@.take(p + 1).drop_last() =~= mapping_presets@.take(
                    p as int,
                ));
            }
            p += 1;
        }
        proof {
            assert(mapping_presets@.take(mapping_presets.len() as int) =~= mapping_presets@);
        }
        target
    }
}

/// The targets of a preset are its bindings of the switch, filtered out in
/// order, each turned into its target.
pub proof fn law_targets_are_filtered_bindings(mapping: Seq<ActionMap>, switch: SwitchInfo)
    ensures
        targets_in(mapping, switch) == mapping.filter(
            |map: ActionMap| map.is_bound_to(switch),
        ).map_values(|map: ActionMap| target_of(map)),
    decreases mapping.len(),
{
    let bound = |map: ActionMap| map.is_bound_to(switch);
    let target = |map: ActionMap| target_of(map);
    reveal(Seq::filter);
    if mapping.len() > 0 {
        law_targets_are_filtered_bindings(mapping.drop_last(), switch);
        let before = mapping.drop_last().filter(bound);
        if mapping.last().is_bound_to(switch) {
            assert(before.push(mapping.last()).map_values(target) =~= before.map_values(
                target,
            ).push(target_of(mapping.last())));
        }
    } else {
        assert(mapping.filter(bound).map_values(target) =~= Seq::<ActionTarget>::empty());
    }
}

/// Without presets nothing is bound: every event routes to nothing.
pub proof fn law_no_presets_no_targets(switch: SwitchInfo)
    ensures
        targets_of(Seq::<MappingPreset>::empty(), switch) == Seq::<ActionTarget>::empty(),
        targets_from_store(None, switch) == Seq::<ActionTarget>::empty(),
{
}

/// Where no binding of a preset is for the switch, the preset adds nothing.
pub proof fn law_unbound_switch_has_no_targets(mapping: Seq<ActionMap>, switch: SwitchInfo)
    requires
        forall|i: int| 0 <= i < mapping.len() ==> !(#[trigger] mapping[i]).is_bound_to(switch),
    ensures
        targets_in(mapping, switch) == Seq::<ActionTarget>::empty(),
    decreases mapping.len(),
{
    if mapping.len() > 0 {
        law_unbound_switch_has_no_targets(mapping.drop_last(), switch);
    }
}

/// Where every binding of a preset is for the switch, every one of them
/// fires, in the order of the preset.
pub proof fn law_every_binding_fires(mapping: Seq<ActionMap>, switch: SwitchInfo)
    requires
        forall|i: int| 0 <= i < mapping.len() ==> (#[trigger] mapping[i]).is_bound_to(switch),
    ensures
        targets_in(mapping, switch).len() == mapping.len(),
        forall|i: int|
            0 <= i < mapping.len() ==> #[trigger] targets_in(mapping, switch)[i] == target_of(
                mapping[i],
            ),
    decreases mapping.len(),
{
    if mapping.len() > 0 {
        law_every_binding_fires(mapping.drop_last(), switch);
    }
}

/// Two bindings of one switch in one preset fan out: an event of that switch
/// routes to both targets, the first binding's first.
pub proof fn law_two_bindings_fan_out(preset: MappingPreset, switch: SwitchInfo)
    requires
        preset.mapping@.len() == 2,
        preset.mapping@[0].is_bound_to(switch),
        preset.mapping@[1].is_bound_to(switch),
    ensures
        targets_of(seq![preset], switch) == seq![
            target_of(preset.mapping@[0]),
            target_of(preset.mapping@[1]),
        ],
{
    law_every_binding_fires(preset.mapping@, switch);
    let presets = seq![preset];
    assert(presets.drop_last() =~= Seq::<MappingPreset>::empty());
    assert(targets_of(presets.drop_last(), switch) =~= Seq::<ActionTarget>::empty());
    assert(targets_of(presets, switch) =~= seq![
        target_of(preset.mapping@[0]),
        target_of(preset.mapping@[1]),
    ]);
}

} // verus!
