//! One binding of a switch to a plugin action.

use vstd::prelude::*;
use crate::switch_info::{SwitchId, SwitchInfo, SwitchType};

verus! {

/// Binds the switch `(switch_type, switch_id)` to the action `action_id` of
/// the plugin `plugin_id`.
#[derive(Debug)]
pub struct ActionMap {
    pub switch_type: SwitchType,
    pub switch_id: SwitchId,
    pub plugin_id: String,
    pub action_id: String,
}

impl ActionMap {
    /// Whether this binding is for the switch that `switch` reports: the kind
    /// and the identifier agree. State and timestamp play no part.
    pub open spec fn is_bound_to(self, switch: SwitchInfo) -> bool {
        self.switch_type == switch.switch_type && self.switch_id == switch.switch_id
    }

    pub fn matches(&self, switch: &SwitchInfo) -> (r: bool)
        ensures
            r == self.is_bound_to(*switch),
    {
        self.switch_type == switch.switch_type && self.switch_id == switch.switch_id
    }
}

} // verus!
