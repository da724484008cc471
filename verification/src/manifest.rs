//! The manifest records that discovery works over.
//!
//! A manifest either describes a concrete package (name, dependencies,
//! workspace configuration, build profiles) or is a virtual manifest that
//! only declares a workspace. Parsing manifest text is a collaborator's job:
//! this library consumes already-structured records.

use vstd::prelude::*;
use crate::path::AbsPath;

verus! {

/// The view of a list of strings.
pub open spec fn strs_view(v: Seq<String>) -> Seq<Seq<char>> {
    Seq::new(v.len(), |i: int| v[i]@)
}

/// The view of an optional list of strings.
pub open spec fn opt_strs_view(v: Option<Vec<String>>) -> Option<Seq<Seq<char>>> {
    match v {
        Some(m) => Some(strs_view(m@)),
        None => None,
    }
}

/// The view of a list of dependencies.
pub open spec fn deps_view(v: Seq<Dependency>) -> Seq<DepView> {
    Seq::new(v.len(), |i: int| v[i]@)
}

/// The view of a dependency-override table.
pub open spec fn replace_view(v: Seq<(String, Dependency)>) -> Seq<(Seq<char>, DepView)> {
    Seq::new(v.len(), |i: int| (v[i].0@, v[i].1@))
}

/// Configuration of a workspace in a manifest.
#[derive(Debug)]
pub enum WorkspaceConfig {
    /// `[workspace]` was present; the members may have been listed
    /// explicitly, and some paths may be excluded.
    Root { members: Option<Vec<String>>, exclude: Vec<String> },
    /// `[workspace]` was absent; `package.workspace`, if present, points at
    /// the root manifest's directory.
    Member { root: Option<String> },
}

/// The mathematical shape of a workspace configuration.
pub enum ConfigView {
    Root { members: Option<Seq<Seq<char>>>, exclude: Seq<Seq<char>> },
    Member { root: Option<Seq<char>> },
}

impl View for WorkspaceConfig {
    type V = ConfigView;

    open spec fn view(&self) -> ConfigView {
        match self {
            WorkspaceConfig::Root { members, exclude } => ConfigView::Root {
                members: opt_strs_view(*members),
                exclude: strs_view(exclude@),
            },
            WorkspaceConfig::Member { root } => ConfigView::Member {
                root: match root {
                    Some(r) => Some(r@),
                    None => None,
                },
            },
        }
    }
}

/// Where a dependency comes from.
#[derive(Debug)]
pub enum DepSource {
    /// A local filesystem directory; only these participate in member
    /// discovery.
    LocalPath(AbsPath),
    /// A package registry.
    Registry,
    /// Any other source, such as a remote repository.
    Other,
}

/// The mathematical shape of a dependency source.
pub enum SourceView {
    LocalPath(Seq<Seq<char>>),
    Registry,
    Other,
}

impl View for DepSource {
    type V = SourceView;

    open spec fn view(&self) -> SourceView {
        match self {
            DepSource::LocalPath(p) => SourceView::LocalPath(p@),
            DepSource::Registry => SourceView::Registry,
            DepSource::Other => SourceView::Other,
        }
    }
}

/// One declared dependency of a package.
#[derive(Debug)]
pub struct Dependency {
    pub name: String,
    pub source: DepSource,
}

/// The mathematical shape of a dependency.
pub struct DepView {
    pub name: Seq<char>,
    pub source: SourceView,
}

impl View for Dependency {
    type V = DepView;

    open spec fn view(&self) -> DepView {
        DepView { name: self.name@, source: self.source@ }
    }
}

/// A package's build-profile knobs. Only the root's profiles take effect;
/// the validator warns about non-root customizations.
#[derive(PartialEq, Eq, Structural, Clone, Copy, Debug)]
pub struct Profiles {
    pub opt_level: u8,
    pub debug_info: bool,
    pub debug_assertions: bool,
}

impl Profiles {
    /// The profile set every package starts from.
    pub open spec fn spec_default() -> Profiles {
        Profiles { opt_level: 0, debug_info: true, debug_assertions: true }
    }
}

impl Default for Profiles {
    /// The profile set every package starts from.
    fn default() -> (r: Profiles)
        ensures
            r == Profiles::spec_default(),
    {
        Profiles { opt_level: 0, debug_info: true, debug_assertions: true }
    }
}

/// A concrete package's manifest.
#[derive(Debug)]
pub struct Package {
    pub name: String,
    pub dependencies: Vec<Dependency>,
    pub config: WorkspaceConfig,
    pub profiles: Profiles,
    pub replace: Vec<(String, Dependency)>,
}

/// The mathematical shape of a concrete package.
pub struct PackView {
    pub name: Seq<char>,
    pub dependencies: Seq<DepView>,
    pub config: ConfigView,
    pub profiles: Profiles,
    pub replace: Seq<(Seq<char>, DepView)>,
}

impl View for Package {
    type V = PackView;

    open spec fn view(&self) -> PackView {
        PackView {
            name: self.name@,
            dependencies: deps_view(self.dependencies@),
            config: self.config@,
            profiles: self.profiles,
            replace: replace_view(self.replace@),
        }
    }
}

/// A manifest that declares a workspace but no package of its own.
#[derive(Debug)]
pub struct VirtualManifest {
    pub config: WorkspaceConfig,
    pub profiles: Profiles,
    pub replace: Vec<(String, Dependency)>,
}

/// The mathematical shape of a virtual manifest.
pub struct VirtView {
    pub config: ConfigView,
    pub profiles: Profiles,
    pub replace: Seq<(Seq<char>, DepView)>,
}

impl View for VirtualManifest {
    type V = VirtView;

    open spec fn view(&self) -> VirtView {
        VirtView {
            config: self.config@,
            profiles: self.profiles,
            replace: replace_view(self.replace@),
        }
    }
}

/// A loaded manifest: a concrete package or a virtual one.
#[derive(Debug)]
pub enum MaybePackage {
    Package(Package),
    Virtual(VirtualManifest),
}

/// The mathematical shape of a loaded manifest.
pub enum RecordView {
    Package(PackView),
    Virtual(VirtView),
}

impl View for MaybePackage {
    type V = RecordView;

    open spec fn view(&self) -> RecordView {
        match self {
            MaybePackage::Package(p) => RecordView::Package(p@),
            MaybePackage::Virtual(v) => RecordView::Virtual(v@),
        }
    }
}

/// The workspace configuration of a record, whichever variant it is.
pub open spec fn spec_config_of(r: RecordView) -> ConfigView {
    match r {
        RecordView::Package(p) => p.config,
        RecordView::Virtual(v) => v.config,
    }
}

/// The build profiles of a record, whichever variant it is.
pub open spec fn spec_profiles_of(r: RecordView) -> Profiles {
    match r {
        RecordView::Package(p) => p.profiles,
        RecordView::Virtual(v) => v.profiles,
    }
}

/// The dependency-override table of a record, whichever variant it is.
pub open spec fn spec_replace_of(r: RecordView) -> Seq<(Seq<char>, DepView)> {
    match r {
        RecordView::Package(p) => p.replace,
        RecordView::Virtual(v) => v.replace,
    }
}

impl MaybePackage {
    /// The workspace configuration, whichever variant the manifest is.
    pub fn workspace_config(&self) -> (r: &WorkspaceConfig)
        ensures
            r@ == spec_config_of(self@),
    {
        match self {
            MaybePackage::Virtual(v) => &v.config,
            MaybePackage::Package(p) => &p.config,
        }
    }

    /// The build profiles, whichever variant the manifest is.
    pub fn profiles(&self) -> (r: Profiles)
        ensures
            r == spec_profiles_of(self@),
    {
        match self {
            MaybePackage::Virtual(v) => v.profiles,
            MaybePackage::Package(p) => p.profiles,
        }
    }
}

} // verus!
