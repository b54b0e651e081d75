//! Presets: named, ordered tables of bindings, and the list of them that the
//! user edits.

use vstd::prelude::*;
use crate::action::map::ActionMap;

verus! {

/// A named table of bindings. The order of `mapping` is the order in which
/// its bindings fire.
#[derive(Debug)]
pub struct MappingPreset {
    pub preset_id: String,
    pub preset_name: String,
    pub mapping: Vec<ActionMap>,
}

/// Whether `i` is the first preset of `presets` with the identifier `id`.
pub open spec fn is_first_with_id(presets: Seq<MappingPreset>, id: Seq<char>, i: int) -> bool {
    &&& 0 <= i < presets.len()
    &&& presets[i].preset_id@ == id
    &&& forall|j: int| 0 <= j < i ==> (#[trigger] presets[j]).preset_id@ != id
}

/// Whether some preset of `presets` has the identifier `id`.
pub open spec fn has_id(presets: Seq<MappingPreset>, id: Seq<char>) -> bool {
    exists|i: int| 0 <= i < presets.len() && (#[trigger] presets[i]).preset_id@ == id
}

/// Draws a fresh preset identifier: a random UUID from `uuid::Uuid::new_v4`,
/// written out by its `to_string`.
///
/// Nothing is claimed of the value; in particular not that it differs from
/// the identifiers drawn before. `new_v4` gives up where the operating system
/// yields no random bytes.
#[verifier::external_body]
fn new_preset_id() -> (r: String) {
    uuid::Uuid::new_v4().to_string()
}

/// The index of the first preset with the identifier `id`.
pub fn find_mapping_preset(presets: &Vec<MappingPreset>, id: &String) -> (r: Option<usize>)
    ensures
        match r {
            Some(i) => is_first_with_id(presets@, id@, i as int),
            None => !has_id(presets@, id@),
        },
{
    let mut i: usize = 0;
    while i < presets.len()
        invariant
            0 <= i <= presets.len(),
            forall|j: int| 0 <= j < i ==> (#[trigger] presets@[j]).preset_id@ != id@,
        decreases presets.len() - i,
    {
        if presets[i].preset_id == *id {
            return Some(i);
        }
        i += 1;
    }
    None
}

/// The first preset with the identifier `id`.
pub fn get_mapping_preset<'a>(presets: &'a Vec<MappingPreset>, id: &String) -> (r: Option<
    &'a MappingPreset,
>)
    ensures
        match r {
            Some(preset) => exists|i: int|
                is_first_with_id(presets@, id@, i) && *preset == presets@[i],
            None => !has_id(presets@, id@),
        },
{
    match find_mapping_preset(presets, id) {
        Some(i) => Some(&presets[i]),
        None => None,
    }
}

/// Identifier and display name of every preset, in the order of the list.
pub fn get_mapping_list(presets: &Vec<MappingPreset>) -> (r: Vec<(String, String)>)
    ensures
        r@.len() == presets@.len(),
        forall|i: int|
            0 <= i < presets@.len() ==> #[trigger] r@[i] == (
                presets@[i].preset_id,
                presets@[i].preset_name,
            ),
{
    let mut list: Vec<(String, String)> = Vec::new();
    let mut i: usize = 0;
    while i < presets.len()
        invariant
            0 <= i <= presets.len(),
            list@.len() == i,
            forall|k: int|
                0 <= k < i ==> #[trigger] list@[k] == (
                    presets@[k].preset_id,
                    presets@[k].preset_name,
                ),
        decreases presets.len() - i,
    {
        list.push((presets[i].preset_id.clone(), presets[i].preset_name.clone()));
        i += 1;
    }
    list
}

/// Appends `preset` under the identifier `id`, whatever identifier it came
/// with, and returns its index.
pub fn add_mapping_preset(presets: &mut Vec<MappingPreset>, preset: MappingPreset, id: String) -> (r:
    usize)
    ensures
        r == old(presets)@.len(),
        final(presets)@ == old(presets)@.push(MappingPreset { preset_id: id, ..preset }),
{
    let index = presets.len();
    presets.push(
        MappingPreset { preset_id: id, preset_name: preset.preset_name, mapping: preset.mapping },
    );
    index
}

/// Stores `preset` in the list and returns the index at which it stands.
///
/// Where the list has a preset with the same identifier, the first such
/// preset is replaced. Otherwise `preset` is appended under a freshly drawn
/// identifier; the identifier it came with is dropped.
pub fn save_mapping_preset(presets: &mut Vec<MappingPreset>, preset: MappingPreset) -> (r: usize)
    ensures
        r < final(presets)@.len(),
        has_id(old(presets)@, preset.preset_id@) ==> {
            &&& is_first_with_id(old(presets)@, preset.preset_id@, r as int)
            &&& final(presets)@ == old(presets)@.update(r as int, preset)
        },
        !has_id(old(presets)@, preset.preset_id@) ==> {
            &&& r == old(presets)@.len()
            &&& final(presets)@ == old(presets)@.push(
                MappingPreset { preset_id: final(presets)@[r as int].preset_id, ..preset },
            )
        },
{
    match find_mapping_preset(presets, &preset.preset_id) {
        Some(i) => {
            presets.set(i, preset);
            i
        },
        None => {
            let id = new_preset_id();
            add_mapping_preset(presets, preset, id)
        },
    }
}

} // verus!
