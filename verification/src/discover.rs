//! Locating the workspace root for an entry manifest.
//!
//! A manifest that declares `[workspace]` is its own root; an explicit
//! `package.workspace` pointer resolves immediately, without any search;
//! otherwise the directory ancestry is climbed, skipping root candidates
//! that exclude the entry, until a root or a pointer is found or the
//! ancestry is exhausted.

use vstd::prelude::*;
use vstd::seq_lib::*;
use crate::path::{AbsPath, spec_join};
use crate::manifest::{WorkspaceConfig, ConfigView, strs_view, opt_strs_view, spec_config_of};
use crate::fsys::{Fsys, EntryView, manifest_present, spec_load};
use crate::cache::Packages;
use crate::errors::{WorkspaceError, ErrView};

verus! {

/// Whether some pattern of `pats`, joined onto `root`, is a prefix of
/// `path`.
pub open spec fn matches_any_prefix(
    pats: Seq<Seq<char>>,
    root: Seq<Seq<char>>,
    path: Seq<Seq<char>>,
) -> bool {
    exists|i: int|
        #![trigger pats[i]]
        0 <= i < pats.len() && spec_join(root, pats[i]).is_prefix_of(path)
}

/// Whether the root at `root` shuts `path` out: an exclude pattern covers
/// it, and no explicit member pattern reclaims it. Explicit membership
/// always wins over exclusion.
pub open spec fn spec_is_excluded(
    members: Option<Seq<Seq<char>>>,
    exclude: Seq<Seq<char>>,
    root: Seq<Seq<char>>,
    path: Seq<Seq<char>>,
) -> bool {
    let excluded = matches_any_prefix(exclude, root, path);
    let explicit_member = match members {
        Some(m) => matches_any_prefix(m, root, path),
        None => false,
    };
    !explicit_member && excluded
}

/// Whether some pattern of `pats`, joined onto `root`, is a prefix of
/// `path`.
fn any_prefix(pats: &Vec<String>, root: &AbsPath, path: &AbsPath) -> (r: bool)
    ensures
        r == matches_any_prefix(strs_view(pats@), root@, path@),
{
    let n = pats.len();
    let mut i: usize = 0;
    while i < n
        invariant
            i <= n == pats@.len(),
            forall|j: int|
                0 <= j < i ==> !spec_join(root@, #[trigger] strs_view(pats@)[j]).is_prefix_of(
                    path@,
                ),
        decreases n - i,
    {
        let joined = root.join_rel(pats[i].as_str());
        if path.starts_with(&joined) {
            proof {
                assert(strs_view(pats@)[i as int] == pats@[i as int]@);
            }
            return true;
        }
        i += 1;
    }
    false
}

/// Whether the root at `root_path` shuts `manifest_path` out; an explicit
/// member pattern always wins over an exclude pattern.
pub fn is_excluded(
    members: &Option<Vec<String>>,
    exclude: &Vec<String>,
    root_path: &AbsPath,
    manifest_path: &AbsPath,
) -> (r: bool)
    ensures
        r == spec_is_excluded(
            opt_strs_view(*members),
            strs_view(exclude@),
            root_path@,
            manifest_path@,
        ),
{
    let excluded = any_prefix(exclude, root_path, manifest_path);
    let explicit_member = match members {
        Some(m) => any_prefix(m, root_path, manifest_path),
        None => false,
    };
    !explicit_member && excluded
}

/// What climbing the ancestry of `orig` from level `k` downward finds: the
/// first ancestor directory holding a manifest that either is a
/// non-excluding root (that directory), or carries a root pointer (its
/// target), with loader errors propagated; `None` when the ancestry is
/// exhausted.
pub open spec fn spec_climb(fs: Seq<EntryView>, orig: Seq<Seq<char>>, k: int) -> Result<
    Option<Seq<Seq<char>>>,
    ErrView,
>
    decreases k + 1,
{
    if k < 0 {
        Ok(None)
    } else {
        let d = orig.take(k);
        if manifest_present(fs, d) {
            match spec_load(fs, d) {
                Err(e) => Err(e),
                Ok(m) => match spec_config_of(m) {
                    ConfigView::Root { members, exclude } => if !spec_is_excluded(
                        members,
                        exclude,
                        d,
                        orig,
                    ) {
                        Ok(Some(d))
                    } else {
                        spec_climb(fs, orig, k - 1)
                    },
                    ConfigView::Member { root: Some(p) } => Ok(Some(spec_join(d, p))),
                    ConfigView::Member { root: None } => spec_climb(fs, orig, k - 1),
                },
            }
        } else {
            spec_climb(fs, orig, k - 1)
        }
    }
}

/// The workspace root governing the manifest at `entry`: the entry itself
/// when it declares a workspace, its pointer's target when it names one,
/// and otherwise whatever climbing the ancestry finds.
pub open spec fn spec_find_root(fs: Seq<EntryView>, entry: Seq<Seq<char>>) -> Result<
    Option<Seq<Seq<char>>>,
    ErrView,
> {
    match spec_load(fs, entry) {
        Err(e) => Err(e),
        Ok(m) => match spec_config_of(m) {
            ConfigView::Root { members, exclude } => Ok(Some(entry)),
            ConfigView::Member { root: Some(p) } => Ok(Some(spec_join(entry, p))),
            ConfigView::Member { root: None } => spec_climb(fs, entry, entry.len() - 1),
        },
    }
}

/// Finds the workspace root for the manifest at `entry`, loading every
/// manifest it inspects through the cache.
pub fn find_root(fs: &Fsys, cache: &mut Packages, entry: &AbsPath) -> (r: Result<
    Option<AbsPath>,
    WorkspaceError,
>)
    requires
        old(cache).wf(fs@),
    ensures
        final(cache).wf(fs@),
        forall|q: Seq<Seq<char>>| old(cache).cached(q) ==> final(cache).cached(q),
        r is Ok ==> final(cache).cached(entry@),
        match r {
            Ok(Some(p)) => spec_find_root(fs@, entry@) == Ok::<_, ErrView>(Some(p@)),
            Ok(None) => spec_find_root(fs@, entry@) == Ok::<Option<Seq<Seq<char>>>, ErrView>(
                None,
            ),
            Err(e) => spec_find_root(fs@, entry@) == Err::<Option<Seq<Seq<char>>>, _>(e@),
        },
{
    match cache.load(fs, entry) {
        Err(e) => {
            return Err(e);
        },
        Ok(u) => u,
    }
    match cache.get(fs, entry).workspace_config() {
        WorkspaceConfig::Root { .. } => {
            return Ok(Some(entry.dup()));
        },
        WorkspaceConfig::Member { root: Some(p) } => {
            return Ok(Some(entry.join_rel(p.as_str())));
        },
        WorkspaceConfig::Member { root: None } => {},
    }
    let mut k = entry.depth();
    while k > 0
        invariant
            cache.wf(fs@),
            forall|q: Seq<Seq<char>>| old(cache).cached(q) ==> cache.cached(q),
            cache.cached(entry@),
            k <= entry@.len(),
            spec_find_root(fs@, entry@) == spec_climb(fs@, entry@, k - 1),
        decreases k,
    {
        let kk = k - 1;
        let d = entry.prefix(kk);
        if fs.manifest_exists(&d) {
            match cache.load(fs, &d) {
                Err(e) => {
                    return Err(e);
                },
                Ok(u) => u,
            }
            match cache.get(fs, &d).workspace_config() {
                WorkspaceConfig::Root { members, exclude } => {
                    if !is_excluded(members, exclude, &d, entry) {
                        return Ok(Some(d));
                    }
                },
                WorkspaceConfig::Member { root: Some(p) } => {
                    return Ok(Some(d.join_rel(p.as_str())));
                },
                WorkspaceConfig::Member { root: None } => {},
            }
        }
        k = kk;
    }
    Ok(None)
}

} // verus!
