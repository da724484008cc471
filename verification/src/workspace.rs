//! The assembled workspace: the one object handed downstream.
//!
//! Built once from an entry manifest by full discovery and validation, or
//! as an ephemeral single-package workspace that bypasses both; immutable
//! afterward.

use vstd::prelude::*;
use vstd::string::*;
use crate::path::{AbsPath, paths_view};
use crate::manifest::{
    Package, Dependency, MaybePackage, RecordView, Profiles, replace_view, spec_profiles_of,
    spec_replace_of,
};
use crate::fsys::{Fsys, ManifestFile, EntryView, find_entry, record_at};
use crate::cache::Packages;
use crate::errors::{WorkspaceError, ErrView};
use crate::discover::{spec_find_root, find_root};
use crate::collect::{spec_find_members, find_members, opt_path_view};
use crate::validate::{spec_validate, cfg_is_root, validate};

verus! {

/// A validated workspace: the entry manifest, the root (absent for a
/// standalone package), the members in discovery order, and the loaded
/// records behind them.
#[derive(Debug)]
pub struct Workspace {
    /// The directory picture discovery ran over.
    pub fs: Fsys,
    /// The manifests loaded while discovering, each at most once.
    pub packages: Packages,
    /// The directory of the entry manifest.
    pub current_manifest: AbsPath,
    /// The directory of the root manifest, if the entry belongs to a
    /// workspace.
    pub root_manifest: Option<AbsPath>,
    /// An explicit target-directory override.
    pub target_dir: Option<AbsPath>,
    /// The member directories, in discovery order.
    pub members: Vec<AbsPath>,
    /// The non-root packages whose profile customizations are ignored.
    pub profile_warnings: Vec<AbsPath>,
    /// Whether this is an in-memory, single-package workspace.
    pub is_ephemeral: bool,
    /// Whether optional dependency edges must be honored even when not
    /// activated.
    pub require_optional_deps: bool,
}

/// What constructing a workspace from `entry` produces: the root, the
/// member list and the profile warnings, or the first error on the way.
pub open spec fn spec_new(fs: Seq<EntryView>, entry: Seq<Seq<char>>) -> Result<
    (Option<Seq<Seq<char>>>, Seq<Seq<Seq<char>>>, Seq<Seq<Seq<char>>>),
    ErrView,
> {
    match spec_find_root(fs, entry) {
        Err(e) => Err(e),
        Ok(ro) => match spec_find_members(fs, entry, ro) {
            Err(e) => Err(e),
            Ok(ms) => match ro {
                None => Ok((ro, ms, Seq::empty())),
                Some(rm) => match spec_validate(fs, entry, rm, ms) {
                    Err(e) => Err(e),
                    Ok(ws) => Ok((ro, ms, ws)),
                },
            },
        },
    }
}

impl Workspace {
    /// The loaded records cover the entry, the root and every member.
    pub open spec fn wf(self) -> bool {
        &&& self.packages.wf(self.fs@)
        &&& self.packages.cached(self.current_manifest@)
        &&& (self.root_manifest matches Some(r) ==> self.packages.cached(r@))
        &&& forall|i: int|
            0 <= i < self.members@.len() ==> self.packages.cached(#[trigger] self.members@[i]@)
    }

    /// The root directory: the root manifest's directory, or the entry's
    /// own directory for a standalone package.
    pub open spec fn spec_root(self) -> Seq<Seq<char>> {
        match self.root_manifest {
            Some(p) => p@,
            None => self.current_manifest@,
        }
    }

    /// Builds the workspace for the manifest at `manifest_dir`: finds the
    /// root, collects the members, validates, and only then succeeds.
    pub fn new(fs: Fsys, manifest_dir: AbsPath, target_dir: Option<AbsPath>) -> (r: Result<
        Workspace,
        WorkspaceError,
    >)
        ensures
            match r {
                Ok(ws) => {
                    &&& ws.wf()
                    &&& ws.fs@ == fs@
                    &&& ws.current_manifest@ == manifest_dir@
                    &&& spec_new(fs@, manifest_dir@) == Ok::<_, ErrView>(
                        (
                            opt_path_view(ws.root_manifest),
                            paths_view(ws.members@),
                            paths_view(ws.profile_warnings@),
                        ),
                    )
                    &&& opt_path_view(ws.target_dir) == opt_path_view(target_dir)
                    &&& !ws.is_ephemeral
                    &&& ws.require_optional_deps
                },
                Err(e) => spec_new(fs@, manifest_dir@) == Err::<
                    (Option<Seq<Seq<char>>>, Seq<Seq<Seq<char>>>, Seq<Seq<Seq<char>>>),
                    _,
                >(e@),
            },
    {
        let mut cache = Packages::new();
        let root_manifest = match find_root(&fs, &mut cache, &manifest_dir) {
            Err(e) => {
                return Err(e);
            },
            Ok(ro) => ro,
        };
        let members = match find_members(&fs, &mut cache, &manifest_dir, &root_manifest) {
            Err(e) => {
                return Err(e);
            },
            Ok(v) => v,
        };
        proof {
            if !(root_manifest is None) {
                let rmv = opt_path_view(root_manifest)->Some_0;
                if !cfg_is_root(fs@, rmv) {
                    assert(spec_find_members(fs@, manifest_dir@, opt_path_view(root_manifest))
                        is Err);
                }
                assert(cfg_is_root(fs@, rmv));
            }
        }
        let profile_warnings = match validate(
            &fs,
            &mut cache,
            &manifest_dir,
            &root_manifest,
            &members,
        ) {
            Err(e) => {
                return Err(e);
            },
            Ok(w) => w,
        };
        proof {
            if root_manifest is None {
                assert(paths_view(profile_warnings@) =~= Seq::<Seq<Seq<char>>>::empty());
            }
        }
        Ok(
            Workspace {
                fs,
                packages: cache,
                current_manifest: manifest_dir,
                root_manifest,
                target_dir,
                members,
                profile_warnings,
                is_ephemeral: false,
                require_optional_deps: true,
            },
        )
    }

    /// Builds a temporary, in-memory workspace holding only the one given
    /// package; discovery and validation are bypassed.
    pub fn ephemeral(
        package: Package,
        package_dir: AbsPath,
        target_dir: Option<AbsPath>,
        require_optional_deps: bool,
    ) -> (r: Result<Workspace, WorkspaceError>)
        ensures
            match r {
                Ok(ws) => {
                    &&& ws.wf()
                    &&& ws.current_manifest@ == package_dir@
                    &&& ws.root_manifest is None
                    &&& paths_view(ws.members@) == seq![package_dir@]
                    &&& record_at(ws.fs@, package_dir@) == RecordView::Package(package@)
                    &&& opt_path_view(ws.target_dir) == opt_path_view(target_dir)
                    &&& ws.is_ephemeral
                    &&& ws.require_optional_deps == require_optional_deps
                    &&& ws.profile_warnings@.len() == 0
                },
                Err(e) => false,
            },
    {
        let ghost pv = package@;
        let mut fs = Fsys::new();
        fs.add(package_dir.dup(), ManifestFile::Loaded(MaybePackage::Package(package)));
        let mut cache = Packages::new();
        proof {
            assert(fs@[0].dir == package_dir@);
            assert(find_entry(fs@, package_dir@) == Some(fs@[0]));
        }
        match cache.load(&fs, &package_dir) {
            Err(_) => {
                return unreached();
            },
            Ok(u) => u,
        }
        let mut members: Vec<AbsPath> = Vec::new();
        members.push(package_dir.dup());
        proof {
            assert(paths_view(members@) =~= seq![package_dir@]);
        }
        Ok(
            Workspace {
                fs,
                packages: cache,
                current_manifest: package_dir,
                root_manifest: None,
                target_dir,
                members,
                profile_warnings: Vec::new(),
                is_ephemeral: true,
                require_optional_deps,
            },
        )
    }

    /// The current package, or nothing when the entry manifest is virtual.
    pub fn current_opt(&self) -> (r: Option<&Package>)
        requires
            self.wf(),
        ensures
            match r {
                Some(p) => record_at(self.fs@, self.current_manifest@) == RecordView::Package(p@),
                None => record_at(self.fs@, self.current_manifest@) is Virtual,
            },
    {
        match self.packages.get(&self.fs, &self.current_manifest) {
            MaybePackage::Package(p) => Some(p),
            MaybePackage::Virtual(_) => None,
        }
    }

    /// The current package; asking a virtual entry manifest for one is an
    /// error.
    pub fn current(&self) -> (r: Result<&Package, WorkspaceError>)
        requires
            self.wf(),
        ensures
            match r {
                Ok(p) => record_at(self.fs@, self.current_manifest@) == RecordView::Package(p@),
                Err(e) => record_at(self.fs@, self.current_manifest@) is Virtual && e@
                    == ErrView::CurrentVirtual(self.current_manifest@),
            },
    {
        match self.current_opt() {
            Some(p) => Ok(p),
            None => Err(WorkspaceError::CurrentIsVirtual { dir: self.current_manifest.dup() }),
        }
    }

    /// The root directory of this workspace.
    pub fn root(&self) -> (r: &AbsPath)
        ensures
            r@ == self.spec_root(),
    {
        match &self.root_manifest {
            Some(p) => p,
            None => &self.current_manifest,
        }
    }

    /// The shared build output directory: the explicit override, or
    /// `target` under the root.
    pub fn target_dir(&self) -> (r: AbsPath)
        ensures
            r@ == match self.target_dir {
                Some(t) => t@,
                None => self.spec_root().push("target"@),
            },
    {
        match &self.target_dir {
            Some(t) => t.dup(),
            None => {
                let mut r = self.root().dup();
                r.seg_push(String::from_str("target"));
                r
            },
        }
    }

    /// The root's dependency-override table, from the root manifest when
    /// there is one and from the entry manifest otherwise.
    pub fn root_replace(&self) -> (r: &Vec<(String, Dependency)>)
        requires
            self.wf(),
        ensures
            replace_view(r@) == spec_replace_of(record_at(self.fs@, self.spec_root())),
    {
        let path = match &self.root_manifest {
            Some(p) => p,
            None => &self.current_manifest,
        };
        match self.packages.get(&self.fs, path) {
            MaybePackage::Package(p) => &p.replace,
            MaybePackage::Virtual(v) => &v.replace,
        }
    }

    /// The workspace's build profiles: the root manifest's, or the entry
    /// manifest's for a standalone package.
    pub fn profiles(&self) -> (r: Profiles)
        requires
            self.wf(),
        ensures
            r == spec_profiles_of(record_at(self.fs@, self.spec_root())),
    {
        let path = match &self.root_manifest {
            Some(p) => p,
            None => &self.current_manifest,
        };
        self.packages.get(&self.fs, path).profiles()
    }

    /// An iterator over the member packages, skipping virtual manifests.
    pub fn members<'a>(&'a self) -> (r: Members<'a>)
        ensures
            r.ws == self,
            r.pos == 0,
    {
        Members { ws: self, pos: 0 }
    }

    /// Whether this is a temporary, in-memory workspace.
    pub fn is_ephemeral(&self) -> (r: bool)
        ensures
            r == self.is_ephemeral,
    {
        self.is_ephemeral
    }

    /// Whether optional dependencies must be honored even when not
    /// activated.
    pub fn require_optional_deps(&self) -> (r: bool)
        ensures
            r == self.require_optional_deps,
    {
        self.require_optional_deps
    }
}

/// The position of the first member at or after `i` that is a concrete
/// package.
pub open spec fn next_pkg_idx(fs: Seq<EntryView>, mv: Seq<Seq<Seq<char>>>, i: int) -> Option<int>
    decreases mv.len() - i,
{
    if i < 0 || i >= mv.len() {
        None
    } else if record_at(fs, mv[i]) is Package {
        Some(i)
    } else {
        next_pkg_idx(fs, mv, i + 1)
    }
}

/// A restartable walk over the member packages of a workspace, in member
/// order, skipping virtual manifests.
pub struct Members<'a> {
    /// The workspace walked over.
    pub ws: &'a Workspace,
    /// The next member position to look at.
    pub pos: usize,
}

impl<'a> Members<'a> {
    /// The next member package, if any member at or after the current
    /// position is a concrete package.
    pub fn next(&mut self) -> (r: Option<&'a Package>)
        requires
            old(self).ws.wf(),
        ensures
            final(self).ws == old(self).ws,
            match next_pkg_idx(old(self).ws.fs@, paths_view(old(self).ws.members@), old(self).pos as int) {
                Some(j) => r matches Some(p) && record_at(old(self).ws.fs@, old(self).ws.members@[j]@)
                    == RecordView::Package(p@) && final(self).pos == j + 1,
                None => r is None,
            },
    {
        let n = self.ws.members.len();
        let ghost mv = paths_view(self.ws.members@);
        while self.pos < n
            invariant
                self.ws == old(self).ws,
                n == self.ws.members@.len(),
                mv == paths_view(self.ws.members@),
                self.ws.wf(),
                old(self).pos <= self.pos,
                next_pkg_idx(self.ws.fs@, mv, old(self).pos as int) == next_pkg_idx(
                    self.ws.fs@,
                    mv,
                    self.pos as int,
                ),
            decreases n - self.pos,
        {
            let i = self.pos;
            self.pos = i + 1;
            match self.ws.packages.get(&self.ws.fs, &self.ws.members[i]) {
                MaybePackage::Package(p) => {
                    return Some(p);
                },
                MaybePackage::Virtual(_) => {},
            }
        }
        None
    }

    /// Whether the walk from the current position holds no package at all.
    pub fn is_empty(self) -> (r: bool)
        requires
            self.ws.wf(),
        ensures
            r == (next_pkg_idx(self.ws.fs@, paths_view(self.ws.members@), self.pos as int) is None),
    {
        let mut it = self;
        match it.next() {
            Some(_) => false,
            None => true,
        }
    }
}

} // verus!
