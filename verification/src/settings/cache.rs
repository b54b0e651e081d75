//! A small cache of settings files: per path, the text that was last read and
//! whether the file has changed since.
//!
//! Entries are kept in the order in which they were added. Paths may repeat;
//! a lookup or an update goes to the first entry of its path.

use vstd::prelude::*;

verus! {

/// The cached text of one file.
#[derive(Debug)]
pub struct CacheInfo {
    pub path: String,
    pub dirty: bool,
    pub data: String,
}

/// Whether `i` is the first entry of `path` in `entries`.
pub open spec fn is_first(entries: Seq<CacheInfo>, path: Seq<char>, i: int) -> bool {
    &&& 0 <= i < entries.len()
    &&& entries[i].path@ == path
    &&& forall|j: int| 0 <= j < i ==> (#[trigger] entries[j]).path@ != path
}

/// Whether `entries` has an entry of `path`.
pub open spec fn has_path(entries: Seq<CacheInfo>, path: Seq<char>) -> bool {
    exists|i: int| 0 <= i < entries.len() && (#[trigger] entries[i]).path@ == path
}

/// Whether some entry of `path` is marked as changed.
pub open spec fn has_dirty(entries: Seq<CacheInfo>, path: Seq<char>) -> bool {
    exists|i: int|
        0 <= i < entries.len() && (#[trigger] entries[i]).path@ == path && entries[i].dirty
}

/// `entries` without the entries of `path`, the others in their order.
pub open spec fn without(entries: Seq<CacheInfo>, path: Seq<char>) -> Seq<CacheInfo>
    decreases entries.len(),
{
    if entries.len() == 0 {
        Seq::empty()
    } else if entries.last().path@ == path {
        without(entries.drop_last(), path)
    } else {
        without(entries.drop_last(), path).push(entries.last())
    }
}

pub struct Cache {
    inner: Vec<CacheInfo>,
}

impl View for Cache {
    type V = Seq<CacheInfo>;

    closed spec fn view(&self) -> Seq<CacheInfo> {
        self.inner@
    }
}

impl Cache {
    pub fn new() -> (r: Self)
        ensures
            r@ == Seq::<CacheInfo>::empty(),
    {
        Self { inner: Vec::new() }
    }

    /// The index of the first entry of `path`.
    pub fn position(&self, path: &String) -> (r: Option<usize>)
        ensures
            match r {
                Some(i) => is_first(self@, path@, i as int),
                None => !has_path(self@, path@),
            },
    {
        let mut i: usize = 0;
        while i < self.inner.len()
            invariant
                0 <= i <= self.inner.len(),
                forall|j: int| 0 <= j < i ==> (#[trigger] self.inner@[j]).path@ != path@,
            decreases self.inner.len() - i,
        {
            if self.inner[i].path == *path {
                return Some(i);
            }
            i += 1;
        }
        None
    }

    /// Whether some entry of `path` is marked as changed. False where the
    /// path has no entry.
    pub fn is_dirty(&self, path: &String) -> (r: bool)
        ensures
            r == has_dirty(self@, path@),
    {
        let mut i: usize = 0;
        while i < self.inner.len()
            invariant
                0 <= i <= self.inner.len(),
                forall|j: int|
                    0 <= j < i ==> !((#[trigger] self.inner@[j]).path@ == path@
                        && self.inner@[j].dirty),
            decreases self.inner.len() - i,
        {
            if self.inner[i].path == *path && self.inner[i].dirty {
                assert(self@[i as int].path@ == path@ && self@[i as int].dirty);
                return true;
            }
            i += 1;
        }
        false
    }

    /// Sets the mark of the first entry of `path`. Nothing changes where the
    /// path has no entry.
    pub fn set_dirty(&mut self, path: &String, dirty: bool)
        ensures
            final(self)@.len() == old(self)@.len(),
            forall|i: int|
                0 <= i < old(self)@.len() ==> #[trigger] final(self)@[i] == if is_first(
                    old(self)@,
                    path@,
                    i,
                ) {
                    CacheInfo { dirty, ..old(self)@[i] }
                } else {
                    old(self)@[i]
                },
    {
        match self.position(path) {
            Some(i) => {
                let entry = &self.inner[i];
                let marked = CacheInfo {
                    path: entry.path.clone(),
                    dirty,
                    data: entry.data.clone(),
                };
                self.inner.set(i, marked);
            },
            None => {},
        }
    }

    /// Marks the first entry of `path` as changed.
    pub fn mark_dirty(&mut self, path: &String)
        ensures
            final(self)@.len() == old(self)@.len(),
            forall|i: int|
                0 <= i < old(self)@.len() ==> #[trigger] final(self)@[i] == if is_first(
                    old(self)@,
                    path@,
                    i,
                ) {
                    CacheInfo { dirty: true, ..old(self)@[i] }
                } else {
                    old(self)@[i]
                },
    {
        self.set_dirty(path, true);
    }

    /// Drops every entry of `path`; the others keep their order.
    pub fn remove(&mut self, path: &String)
        ensures
            final(self)@ == without(old(self)@, path@),
    {
        let mut kept: Vec<CacheInfo> = Vec::new();
        let mut i: usize = 0;
        while i < self.inner.len()
            invariant
                0 <= i <= self.inner.len(),
                self.inner@ == old(self).inner@,
                kept@ == without(self.inner@.take(i as int), path@),
            decreases self.inner.len() - i,
        {
            let entry = &self.inner[i];
            proof {
                assert(self.inner@.take(i + 1).drop_last() =~= self.inner@.take(i as int));
            }
            if entry.path != *path {
                kept.push(
                    CacheInfo {
                        path: entry.path.clone(),
                        dirty: entry.dirty,
                        data: entry.data.clone(),
                    },
                );
            }
            i += 1;
        }
        proof {
            assert(self.inner@.take(self.inner.len() as int) =~= self.inner@);
        }
        self.inner = kept;
    }

    /// A copy of the first entry of `path`.
    pub fn get(&self, path: &String) -> (r: Option<CacheInfo>)
        ensures
            match r {
                Some(entry) => exists|i: int| is_first(self@, path@, i) && entry == self@[i],
                None => !has_path(self@, path@),
            },
    {
        match self.position(path) {
            Some(i) => {
                let entry = &self.inner[i];
                Some(
                    CacheInfo {
                        path: entry.path.clone(),
                        dirty: entry.dirty,
                        data: entry.data.clone(),
                    },
                )
            },
            None => None,
        }
    }

    /// A copy of the text of the first entry of `path`.
    pub fn get_data(&self, path: &String) -> (r: Option<String>)
        ensures
            match r {
                Some(data) => exists|i: int| is_first(self@, path@, i) && data == self@[i].data,
                None => !has_path(self@, path@),
            },
    {
        match self.position(path) {
            Some(i) => Some(self.inner[i].data.clone()),
            None => None,
        }
    }

    /// Appends an entry, whether or not the path has one already.
    pub fn add(&mut self, path: String, data: String, dirty: bool)
        ensures
            final(self)@ == old(self)@.push(CacheInfo { path, dirty, data }),
    {
        self.inner.push(CacheInfo { path, dirty, data });
    }

    /// Replaces the text of the first entry of `path` and clears its mark.
    /// Nothing changes where the path has no entry.
    pub fn update_data(&mut self, path: &String, data: String)
        ensures
            final(self)@.len() == old(self)@.len(),
            forall|i: int|
                0 <= i < old(self)@.len() ==> #[trigger] final(self)@[i] == if is_first(
                    old(self)@,
                    path@,
                    i,
                ) {
                    CacheInfo { dirty: false, data, ..old(self)@[i] }
                } else {
                    old(self)@[i]
                },
    {
        match self.position(path) {
            Some(i) => {
                let fresh = CacheInfo { path: self.inner[i].path.clone(), dirty: false, data };
                self.inner.set(i, fresh);
            },
            None => {},
        }
    }
}

} // verus!
