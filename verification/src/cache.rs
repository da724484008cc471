//! The memoized manifest loader.
//!
//! Loading a manifest consults the directory picture at most once per
//! directory; later lookups reuse the remembered position. A `get` is only
//! legal once discovery has guaranteed the entry is present.

use vstd::prelude::*;
use crate::path::AbsPath;
use crate::manifest::{MaybePackage, RecordView};
use crate::fsys::{Fsys, ManifestFile, EntryView, find_entry, spec_load, loads_ok, record_at};
use crate::errors::WorkspaceError;

verus! {

/// Tracks which manifests have been loaded, so none is loaded twice.
#[derive(Debug)]
pub struct Packages {
    pub entries: Vec<(AbsPath, usize)>,
}

impl Packages {
    /// Which load the remembered entry `i` stands for.
    pub open spec fn entry_ok(self, fsv: Seq<EntryView>, i: int) -> bool {
        &&& self.entries@[i].1 < fsv.len()
        &&& fsv[self.entries@[i].1 as int].dir == self.entries@[i].0@
        &&& fsv[self.entries@[i].1 as int].manifest is Loaded
        &&& find_entry(fsv, self.entries@[i].0@) == Some(fsv[self.entries@[i].1 as int])
    }

    /// The cache only remembers loads that succeeded against `fsv`, each
    /// directory at most once.
    pub open spec fn wf(self, fsv: Seq<EntryView>) -> bool {
        &&& forall|i: int| 0 <= i < self.entries@.len() ==> self.entry_ok(fsv, i)
        &&& forall|i: int, j: int|
            0 <= i < j < self.entries@.len() ==> self.entries@[i].0@ != self.entries@[j].0@
    }

    /// Whether directory `d` has been loaded.
    pub open spec fn cached(self, d: Seq<Seq<char>>) -> bool {
        exists|i: int| 0 <= i < self.entries@.len() && self.entries@[i].0@ == d
    }

    /// An empty cache: nothing loaded yet.
    pub fn new() -> (r: Packages)
        ensures
            r.entries@.len() == 0,
            forall|fsv: Seq<EntryView>| r.wf(fsv),
            forall|d: Seq<Seq<char>>| !r.cached(d),
    {
        Packages { entries: Vec::new() }
    }

    /// The remembered position of directory `d`, if loaded.
    fn position(&self, d: &AbsPath) -> (r: Option<usize>)
        ensures
            match r {
                Some(i) => i < self.entries@.len() && self.entries@[i as int].0@ == d@,
                None => !self.cached(d@),
            },
    {
        let n = self.entries.len();
        let mut i: usize = 0;
        while i < n
            invariant
                i <= n == self.entries@.len(),
                forall|j: int| 0 <= j < i ==> self.entries@[j].0@ != d@,
            decreases n - i,
        {
            if self.entries[i].0.same_as(d) {
                return Some(i);
            }
            i += 1;
        }
        None
    }

    /// Loads the manifest at `d`, consulting the picture only on a miss.
    /// Returns the loader's error unchanged when the manifest is missing,
    /// unreadable or broken.
    pub fn load(&mut self, fs: &Fsys, d: &AbsPath) -> (r: Result<(), WorkspaceError>)
        requires
            old(self).wf(fs@),
        ensures
            final(self).wf(fs@),
            r is Ok <==> loads_ok(fs@, d@),
            r is Ok ==> final(self).cached(d@),
            r matches Err(e) ==> e@ == spec_load(fs@, d@)->Err_0 && final(self).entries@ == old(
                self,
            ).entries@,
            forall|q: Seq<Seq<char>>| old(self).cached(q) ==> final(self).cached(q),
            forall|q: Seq<Seq<char>>| final(self).cached(q) ==> old(self).cached(q) || q == d@,
    {
        match self.position(d) {
            Some(i) => {
                proof {
                    assert(self.entry_ok(fs@, i as int));
                }
                Ok(())
            },
            None => {
                match fs.lookup(d) {
                    Some(i) => {
                        match &fs.dirs[i].manifest {
                            ManifestFile::Loaded(_) => {
                                self.entries.push((d.dup(), i));
                                proof {
                                    let m = self.entries@.len() - 1;
                                    assert forall|k: int|
                                        0 <= k < self.entries@.len() implies self.entry_ok(
                                        fs@,
                                        k,
                                    ) by {
                                        if k < m {
                                            assert(old(self).entry_ok(fs@, k));
                                        }
                                    }
                                    assert(self.entries@[m].0@ == d@);
                                    assert(self.cached(d@));
                                    assert forall|q: Seq<Seq<char>>|
                                        old(self).cached(q) implies self.cached(q) by {
                                        let k = choose|k: int|
                                            0 <= k < old(self).entries@.len() && old(
                                                self,
                                            ).entries@[k].0@ == q;
                                        assert(self.entries@[k].0@ == q);
                                    }
                                }
                                Ok(())
                            },
                            ManifestFile::Broken => Err(
                                WorkspaceError::ManifestParse { dir: d.dup() },
                            ),
                            _ => Err(WorkspaceError::ManifestIo { dir: d.dup() }),
                        }
                    },
                    None => Err(WorkspaceError::ManifestIo { dir: d.dup() }),
                }
            },
        }
    }

    /// The record previously loaded for `d`. Discovery guarantees the entry
    /// is present before this is called.
    pub fn get<'a>(&self, fs: &'a Fsys, d: &AbsPath) -> (r: &'a MaybePackage)
        requires
            self.wf(fs@),
            self.cached(d@),
        ensures
            r@ == record_at(fs@, d@),
    {
        match self.position(d) {
            Some(i) => {
                proof {
                    assert(self.entry_ok(fs@, i as int));
                }
                let j = self.entries[i].1;
                match &fs.dirs[j].manifest {
                    ManifestFile::Loaded(m) => m,
                    _ => unreached(),
                }
            },
            None => unreached(),
        }
    }
}

} // verus!
