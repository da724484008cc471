//! Everything that can go wrong while constructing a workspace.
//!
//! Loader failures propagate unchanged; pattern failures come from member
//! expansion; the structural kinds come from validation. The variants carry
//! the paths and names a caller needs to render a diagnostic; rendering
//! itself is the caller's business.

use vstd::prelude::*;
use crate::path::{AbsPath, paths_view};

verus! {

/// A suggested fix attached to `NotAMember`.
#[derive(Debug)]
pub enum SuggestedFix {
    /// Add the entry to the root's explicit member list; when the entry's
    /// directory sits below the root directory, the relative path to add is
    /// given.
    AddMember { rel: Option<Vec<String>> },
    /// Make the root depend on the entry (the root infers its members from
    /// path dependencies).
    AddDependency,
}

/// The mathematical shape of a suggested fix.
pub enum FixView {
    AddMember { rel: Option<Seq<Seq<char>>> },
    AddDependency,
}

impl View for SuggestedFix {
    type V = FixView;

    open spec fn view(&self) -> FixView {
        match self {
            SuggestedFix::AddMember { rel } => FixView::AddMember {
                rel: match rel {
                    Some(r) => Some(crate::manifest::strs_view(r@)),
                    None => None,
                },
            },
            SuggestedFix::AddDependency => FixView::AddDependency,
        }
    }
}

/// A failure while loading manifests, expanding members or validating the
/// assembled workspace.
#[derive(Debug)]
pub enum WorkspaceError {
    /// The manifest file at `dir` is missing or unreadable.
    ManifestIo { dir: AbsPath },
    /// The manifest file at `dir` does not parse.
    ManifestParse { dir: AbsPath },
    /// A member pattern is not a valid glob pattern.
    BadPattern { pattern: String },
    /// The located root manifest is not configured as a workspace root.
    RootMisdeclared { root: AbsPath },
    /// No member is configured as a workspace root.
    NoRootConfigured { current: AbsPath, root: AbsPath },
    /// More than one member declares itself a workspace root.
    MultipleRoots { roots: Vec<AbsPath> },
    /// Two member packages share one name.
    DuplicateName { name: String, first: AbsPath, second: AbsPath },
    /// A member's own root is a different workspace root.
    WrongWorkspace { member: AbsPath, expected: AbsPath, actual: AbsPath },
    /// A member has no root of its own, so it is not below the workspace
    /// root.
    NotHierarchicallyBelow { member: AbsPath, root: AbsPath },
    /// The entry manifest did not end up in the member list.
    NotAMember { current: AbsPath, root: AbsPath, fix: SuggestedFix },
    /// The entry manifest is virtual, but a concrete package was asked for.
    CurrentIsVirtual { dir: AbsPath },
}

/// The mathematical shape of a workspace error.
pub enum ErrView {
    Io(Seq<Seq<char>>),
    Parse(Seq<Seq<char>>),
    Pattern(Seq<char>),
    RootMisdeclared(Seq<Seq<char>>),
    NoRoot { current: Seq<Seq<char>>, root: Seq<Seq<char>> },
    ManyRoots(Seq<Seq<Seq<char>>>),
    DupName { name: Seq<char>, first: Seq<Seq<char>>, second: Seq<Seq<char>> },
    WrongRoot { member: Seq<Seq<char>>, expected: Seq<Seq<char>>, actual: Seq<Seq<char>> },
    NotBelow { member: Seq<Seq<char>>, root: Seq<Seq<char>> },
    NotAMember { current: Seq<Seq<char>>, root: Seq<Seq<char>>, fix: FixView },
    CurrentVirtual(Seq<Seq<char>>),
}

impl View for WorkspaceError {
    type V = ErrView;

    open spec fn view(&self) -> ErrView {
        match self {
            WorkspaceError::ManifestIo { dir } => ErrView::Io(dir@),
            WorkspaceError::ManifestParse { dir } => ErrView::Parse(dir@),
            WorkspaceError::BadPattern { pattern } => ErrView::Pattern(pattern@),
            WorkspaceError::RootMisdeclared { root } => ErrView::RootMisdeclared(root@),
            WorkspaceError::NoRootConfigured { current, root } => ErrView::NoRoot {
                current: current@,
                root: root@,
            },
            WorkspaceError::MultipleRoots { roots } => ErrView::ManyRoots(paths_view(roots@)),
            WorkspaceError::DuplicateName { name, first, second } => ErrView::DupName {
                name: name@,
                first: first@,
                second: second@,
            },
            WorkspaceError::WrongWorkspace { member, expected, actual } => ErrView::WrongRoot {
                member: member@,
                expected: expected@,
                actual: actual@,
            },
            WorkspaceError::NotHierarchicallyBelow { member, root } => ErrView::NotBelow {
                member: member@,
                root: root@,
            },
            WorkspaceError::NotAMember { current, root, fix } => ErrView::NotAMember {
                current: current@,
                root: root@,
                fix: fix@,
            },
            WorkspaceError::CurrentIsVirtual { dir } => ErrView::CurrentVirtual(dir@),
        }
    }
}

} // verus!
