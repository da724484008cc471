//! The in-memory picture of the directories discovery walks over.
//!
//! Discovery is a lexical, in-memory computation: the caller lists every
//! existing directory once, together with the state of the manifest file it
//! holds, and the library never touches the filesystem itself. A directory
//! that is not listed does not exist.

use vstd::prelude::*;
use crate::path::AbsPath;
use crate::manifest::{MaybePackage, RecordView};
use crate::errors::ErrView;

verus! {

/// The state of the manifest file inside one directory.
#[derive(Debug)]
pub enum ManifestFile {
    /// The directory holds no manifest file.
    Missing,
    /// A manifest file exists but cannot be read.
    Unreadable,
    /// A manifest file exists but does not parse.
    Broken,
    /// A manifest file exists and parses to this record.
    Loaded(MaybePackage),
}

/// The mathematical shape of a manifest file's state.
pub enum FileView {
    Missing,
    Unreadable,
    Broken,
    Loaded(RecordView),
}

impl View for ManifestFile {
    type V = FileView;

    open spec fn view(&self) -> FileView {
        match self {
            ManifestFile::Missing => FileView::Missing,
            ManifestFile::Unreadable => FileView::Unreadable,
            ManifestFile::Broken => FileView::Broken,
            ManifestFile::Loaded(m) => FileView::Loaded(m@),
        }
    }
}

/// One existing directory and its manifest state.
#[derive(Debug)]
pub struct DirEntry {
    pub dir: AbsPath,
    pub manifest: ManifestFile,
}

/// The mathematical shape of a directory entry.
pub struct EntryView {
    pub dir: Seq<Seq<char>>,
    pub manifest: FileView,
}

impl View for DirEntry {
    type V = EntryView;

    open spec fn view(&self) -> EntryView {
        EntryView { dir: self.dir@, manifest: self.manifest@ }
    }
}

/// Every directory that exists, in the order glob expansion should consider
/// them (list them lexicographically to mirror a sorted directory walk).
#[derive(Debug)]
pub struct Fsys {
    pub dirs: Vec<DirEntry>,
}

impl View for Fsys {
    type V = Seq<EntryView>;

    open spec fn view(&self) -> Seq<EntryView> {
        Seq::new(self.dirs@.len(), |i: int| self.dirs@[i]@)
    }
}

/// The first listing of directory `d`, if any.
pub open spec fn find_entry(fs: Seq<EntryView>, d: Seq<Seq<char>>) -> Option<EntryView>
    decreases fs.len(),
{
    if fs.len() == 0 {
        None
    } else if fs[0].dir == d {
        Some(fs[0])
    } else {
        find_entry(fs.skip(1), d)
    }
}

/// The manifest state of directory `d`; an unlisted directory has none.
pub open spec fn file_at(fs: Seq<EntryView>, d: Seq<Seq<char>>) -> FileView {
    match find_entry(fs, d) {
        None => FileView::Missing,
        Some(e) => e.manifest,
    }
}

/// Whether a manifest file exists at `d`, readable or not.
pub open spec fn manifest_present(fs: Seq<EntryView>, d: Seq<Seq<char>>) -> bool {
    !(file_at(fs, d) is Missing)
}

/// What loading the manifest at `d` returns: the record, or the error the
/// loader reports.
pub open spec fn spec_load(fs: Seq<EntryView>, d: Seq<Seq<char>>) -> Result<RecordView, ErrView> {
    match file_at(fs, d) {
        FileView::Missing => Err(ErrView::Io(d)),
        FileView::Unreadable => Err(ErrView::Io(d)),
        FileView::Broken => Err(ErrView::Parse(d)),
        FileView::Loaded(r) => Ok(r),
    }
}

/// Whether loading the manifest at `d` succeeds.
pub open spec fn loads_ok(fs: Seq<EntryView>, d: Seq<Seq<char>>) -> bool {
    spec_load(fs, d) is Ok
}

/// The record at `d`, assuming loading succeeds.
pub open spec fn record_at(fs: Seq<EntryView>, d: Seq<Seq<char>>) -> RecordView {
    spec_load(fs, d)->Ok_0
}

/// A well-formed picture lists each directory at most once.
pub open spec fn fs_wf(fs: Seq<EntryView>) -> bool {
    forall|i: int, j: int| 0 <= i < j < fs.len() ==> fs[i].dir != fs[j].dir
}

impl Fsys {
    /// An empty picture: no directory exists.
    pub fn new() -> (r: Fsys)
        ensures
            r@ =~= Seq::<EntryView>::empty(),
    {
        let r = Fsys { dirs: Vec::new() };
        proof {
            assert(r@ =~= Seq::<EntryView>::empty());
        }
        r
    }

    /// Lists one more directory.
    pub fn add(&mut self, dir: AbsPath, manifest: ManifestFile)
        ensures
            final(self)@ == old(self)@.push(EntryView { dir: dir@, manifest: manifest@ }),
    {
        let ghost e = EntryView { dir: dir@, manifest: manifest@ };
        self.dirs.push(DirEntry { dir, manifest });
        proof {
            assert(self@ =~= old(self)@.push(e));
        }
    }

    /// Finds the position of directory `d`, if listed.
    pub fn lookup(&self, d: &AbsPath) -> (r: Option<usize>)
        ensures
            match r {
                Some(i) => i < self@.len() && self@[i as int].dir == d@ && find_entry(self@, d@)
                    == Some(self@[i as int]),
                None => find_entry(self@, d@) is None,
            },
    {
        let n = self.dirs.len();
        proof {
            assert(self@.skip(0) =~= self@);
        }
        let mut i: usize = 0;
        while i < n
            invariant
                i <= n == self@.len(),
                n == self.dirs@.len(),
                find_entry(self@, d@) == find_entry(self@.skip(i as int), d@),
                forall|j: int| 0 <= j < i ==> self@[j].dir != d@,
            decreases n - i,
        {
            proof {
                assert(self@.skip(i as int).len() > 0);
                assert(self@.skip(i as int)[0] == self@[i as int]);
                assert(self@.skip(i as int).skip(1) =~= self@.skip(i + 1));
            }
            if self.dirs[i].dir.same_as(d) {
                return Some(i);
            }
            i += 1;
        }
        proof {
            assert(self@.skip(n as int) =~= Seq::<EntryView>::empty());
        }
        None
    }

    /// Whether a manifest file exists at `d`, readable or not.
    pub fn manifest_exists(&self, d: &AbsPath) -> (r: bool)
        ensures
            r == manifest_present(self@, d@),
    {
        match self.lookup(d) {
            Some(i) => match &self.dirs[i].manifest {
                ManifestFile::Missing => false,
                _ => true,
            },
            None => false,
        }
    }
}

} // verus!
