//! Loading a settings file through the cache, as a sequence of decisions.
//!
//! The caller does the reading and writing. It asks `plan_load` what to do,
//! reads the file where the plan says so, and hands what it read to
//! `finish_load`, which brings the cache up to date and says what to parse.
//! After writing a file it calls `Cache::mark_dirty`.

use vstd::prelude::*;
use crate::settings::cache::{has_dirty, has_path, is_first, Cache, CacheInfo};

verus! {

/// What a load has to do first.
#[derive(Debug)]
pub enum LoadPlan {
    /// The path has no entry: read the file and cache what was read.
    ReadAndAdd,
    /// An entry of the path is marked as changed: read the file again and
    /// refresh the entry.
    ReadAndUpdate,
    /// The entry of the path is current: take its text.
    FromCache { data: String },
}

/// What a load ends with.
#[derive(Debug)]
pub enum Loaded {
    /// The text of the settings, to be parsed.
    Text { data: String },
    /// The file does not exist: the settings are the default ones. Where
    /// `save` holds, the default settings are to be written to the file.
    Default { save: bool },
}

/// Decides how the settings at `path` are to be loaded.
pub fn plan_load(cache: &Cache, path: &String) -> (r: LoadPlan)
    ensures
        match r {
            LoadPlan::ReadAndAdd => !has_path(cache@, path@),
            LoadPlan::ReadAndUpdate => has_path(cache@, path@) && has_dirty(cache@, path@),
            LoadPlan::FromCache { data } => {
                &&& !has_dirty(cache@, path@)
                &&& exists|i: int| is_first(cache@, path@, i) && data == cache@[i].data
            },
        },
{
    match cache.get_data(path) {
        None => LoadPlan::ReadAndAdd,
        Some(data) => {
            if cache.is_dirty(path) {
                LoadPlan::ReadAndUpdate
            } else {
                LoadPlan::FromCache { data }
            }
        },
    }
}

/// Ends a load. `contents` is what reading the file gave, `None` where the
/// file does not exist; it plays no part where the plan was to take the text
/// from the cache.
///
/// Text that was read is cached, as a new entry or in place of the old text
/// according to the plan, and is current from then on. A missing file leaves
/// the cache as it is and gives the default settings, which are to be written
/// only where the path had no entry.
pub fn finish_load(cache: &mut Cache, path: &String, plan: LoadPlan, contents: Option<String>) -> (r:
    Loaded)
    ensures
        match (plan, contents) {
            (LoadPlan::FromCache { data }, _) => {
                &&& r == (Loaded::Text { data })
                &&& final(cache)@ == old(cache)@
            },
            (LoadPlan::ReadAndAdd, Some(text)) => {
                &&& r == (Loaded::Text { data: text })
                &&& final(cache)@ == old(cache)@.push(
                    CacheInfo { path: *path, dirty: false, data: text },
                )
            },
            (LoadPlan::ReadAndUpdate, Some(text)) => {
                &&& r == (Loaded::Text { data: text })
                &&& final(cache)@.len() == old(cache)@.len()
                &&& forall|i: int|
                    0 <= i < old(cache)@.len() ==> #[trigger] final(cache)@[i] == if is_first(
                        old(cache)@,
                        path@,
                        i,
                    ) {
                        CacheInfo { dirty: false, data: text, ..old(cache)@[i] }
                    } else {
                        old(cache)@[i]
                    }
            },
            (LoadPlan::ReadAndAdd, None) => {
                &&& r == (Loaded::Default { save: true })
                &&& final(cache)@ == old(cache)@
            },
            (LoadPlan::ReadAndUpdate, None) => {
                &&& r == (Loaded::Default { save: false })
                &&& final(cache)@ == old(cache)@
            },
        },
{
    match plan {
        LoadPlan::FromCache { data } => Loaded::Text { data },
        LoadPlan::ReadAndAdd => match contents {
            Some(text) => {
                cache.add(path.clone(), text.clone(), false);
                Loaded::Text { data: text }
            },
            None => Loaded::Default { save: true },
        },
        LoadPlan::ReadAndUpdate => match contents {
            Some(text) => {
                cache.update_data(path, text.clone());
                Loaded::Text { data: text }
            },
            None => Loaded::Default { save: false },
        },
    }
}

} // verus!
