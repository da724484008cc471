//! Validation of an assembled workspace.
//!
//! In order, stopping at the first fatal error: exactly one member must
//! declare itself the root; no two member packages may share a name; every
//! member's independently recomputed root must be the workspace root; the
//! entry manifest must be a member (with a suggested fix when it is not);
//! and non-root packages with customized build profiles draw a warning,
//! never an error.

use vstd::prelude::*;
use vstd::seq_lib::*;
use crate::path::{AbsPath, paths_view, string_eq};
use crate::manifest::{
    WorkspaceConfig, ConfigView, RecordView, MaybePackage, Profiles, strs_view, spec_config_of,
    spec_profiles_of,
};
use crate::fsys::{Fsys, EntryView, record_at};
use crate::cache::Packages;
use crate::errors::{WorkspaceError, ErrView, FixView, SuggestedFix};
use crate::discover::{spec_find_root, find_root};
use crate::collect::path_in;

verus! {

/// Whether the manifest at `d` declares a workspace root.
pub open spec fn cfg_is_root(fs: Seq<EntryView>, d: Seq<Seq<char>>) -> bool {
    spec_config_of(record_at(fs, d)) is Root
}

/// The package name at `d`, or nothing for a virtual manifest.
pub open spec fn name_at(fs: Seq<EntryView>, d: Seq<Seq<char>>) -> Option<Seq<char>> {
    match record_at(fs, d) {
        RecordView::Package(p) => Some(p.name),
        RecordView::Virtual(_) => None,
    }
}

/// The members that declare a workspace root, in member order.
pub open spec fn roots_of(fs: Seq<EntryView>, mv: Seq<Seq<Seq<char>>>) -> Seq<Seq<Seq<char>>>
    decreases mv.len(),
{
    if mv.len() == 0 {
        Seq::empty()
    } else {
        roots_of(fs, mv.drop_last()) + (if cfg_is_root(fs, mv.last()) {
            seq![mv.last()]
        } else {
            Seq::empty()
        })
    }
}

/// Whether some member before position `b` is a package with the same name
/// as the member at `b`.
pub open spec fn earlier_same_name(fs: Seq<EntryView>, mv: Seq<Seq<Seq<char>>>, b: int) -> bool {
    exists|a: int|
        0 <= a < b && name_at(fs, #[trigger] mv[a]) is Some && name_at(fs, mv[a]) == name_at(
            fs,
            mv[b],
        )
}

/// The first position whose package name already occurred, scanning from
/// `b`.
pub open spec fn first_dup_from(fs: Seq<EntryView>, mv: Seq<Seq<Seq<char>>>, b: int) -> Option<int>
    decreases mv.len() - b,
{
    if b < 0 || b >= mv.len() {
        None
    } else if name_at(fs, mv[b]) is Some && earlier_same_name(fs, mv, b) {
        Some(b)
    } else {
        first_dup_from(fs, mv, b + 1)
    }
}

/// The first position at or after `a` holding a package named `nm`.
pub open spec fn first_named_from(
    fs: Seq<EntryView>,
    mv: Seq<Seq<Seq<char>>>,
    nm: Seq<char>,
    a: int,
) -> int
    decreases mv.len() - a,
{
    if a < 0 || a >= mv.len() {
        mv.len() as int
    } else if name_at(fs, mv[a]) == Some(nm) {
        a
    } else {
        first_named_from(fs, mv, nm, a + 1)
    }
}

/// The name-uniqueness outcome: the first member whose package name was
/// already taken, with the earlier holder cited first.
pub open spec fn spec_dup_check(fs: Seq<EntryView>, mv: Seq<Seq<Seq<char>>>) -> Result<
    (),
    ErrView,
> {
    match first_dup_from(fs, mv, 0) {
        None => Ok(()),
        Some(b) => {
            let nm = name_at(fs, mv[b])->Some_0;
            Err(
                ErrView::DupName {
                    name: nm,
                    first: mv[first_named_from(fs, mv, nm, 0)],
                    second: mv[b],
                },
            )
        },
    }
}

/// The containment outcome: every member's own root must be the workspace
/// root, with the first offender reported, and root-finding failures
/// propagated.
pub open spec fn spec_containment(
    fs: Seq<EntryView>,
    rootm: Seq<Seq<char>>,
    mv: Seq<Seq<Seq<char>>>,
) -> Result<(), ErrView>
    decreases mv.len(),
{
    if mv.len() == 0 {
        Ok(())
    } else {
        let m = mv[0];
        match spec_find_root(fs, m) {
            Err(e) => Err(e),
            Ok(Some(r)) => if r == rootm {
                spec_containment(fs, rootm, mv.skip(1))
            } else {
                Err(ErrView::WrongRoot { member: m, expected: rootm, actual: r })
            },
            Ok(None) => Err(ErrView::NotBelow { member: m, root: rootm }),
        }
    }
}

/// The fix suggested when the entry manifest is not a member: whenever the
/// entry sits below the root directory, name the relative path to add to
/// the member list; otherwise suggest depending on the entry when the root
/// infers its members from dependencies, and adding a member when it lists
/// them.
pub open spec fn spec_fix(
    fs: Seq<EntryView>,
    rootm: Seq<Seq<char>>,
    entry: Seq<Seq<char>>,
) -> FixView {
    let infer = match record_at(fs, rootm) {
        RecordView::Package(p) => p.config matches ConfigView::Root { members: None, .. },
        RecordView::Virtual(_) => false,
    };
    if rootm.is_prefix_of(entry) {
        FixView::AddMember { rel: Some(entry.skip(rootm.len() as int)) }
    } else if infer {
        FixView::AddDependency
    } else {
        FixView::AddMember { rel: None }
    }
}

/// The non-root member packages whose profiles differ from the default, in
/// member order; customizing them has no effect, which draws a warning.
pub open spec fn warn_list(
    fs: Seq<EntryView>,
    rootm: Seq<Seq<char>>,
    mv: Seq<Seq<Seq<char>>>,
) -> Seq<Seq<Seq<char>>>
    decreases mv.len(),
{
    if mv.len() == 0 {
        Seq::empty()
    } else {
        warn_list(fs, rootm, mv.drop_last()) + (if record_at(fs, mv.last()) is Package
            && mv.last() != rootm && spec_profiles_of(record_at(fs, mv.last()))
            != Profiles::spec_default() {
            seq![mv.last()]
        } else {
            Seq::empty()
        })
    }
}

/// The whole validation outcome for a workspace with a root: the checks in
/// order, stopping at the first fatal error — root count, then name
/// uniqueness, then containment, then entry membership — ending in the
/// profile warnings.
pub open spec fn spec_validate(
    fs: Seq<EntryView>,
    entry: Seq<Seq<char>>,
    rootm: Seq<Seq<char>>,
    mv: Seq<Seq<Seq<char>>>,
) -> Result<Seq<Seq<Seq<char>>>, ErrView> {
    let roots = roots_of(fs, mv);
    if roots.len() == 0 {
        Err(ErrView::NoRoot { current: entry, root: rootm })
    } else if roots.len() > 1 {
        Err(ErrView::ManyRoots(roots))
    } else {
        match spec_dup_check(fs, mv) {
            Err(e) => Err(e),
            Ok(u) => match spec_containment(fs, rootm, mv) {
                Err(e) => Err(e),
                Ok(v) => if !mv.contains(entry) {
                    Err(
                        ErrView::NotAMember {
                            current: entry,
                            root: rootm,
                            fix: spec_fix(fs, rootm, entry),
                        },
                    )
                } else {
                    Ok(warn_list(fs, rootm, mv))
                },
            },
        }
    }
}

/// Validates the assembled workspace, returning the directories of the
/// non-root packages whose profile customizations will be ignored; a
/// standalone workspace (no root) is always valid.
#[verifier::loop_isolation(false)]
pub fn validate(
    fs: &Fsys,
    cache: &mut Packages,
    entry: &AbsPath,
    root_opt: &Option<AbsPath>,
    members: &Vec<AbsPath>,
) -> (r: Result<Vec<AbsPath>, WorkspaceError>)
    requires
        old(cache).wf(fs@),
        forall|i: int| 0 <= i < members@.len() ==> old(cache).cached(#[trigger] members@[i]@),
        root_opt matches Some(rm) ==> old(cache).cached(rm@) && cfg_is_root(fs@, rm@),
    ensures
        final(cache).wf(fs@),
        forall|q: Seq<Seq<char>>| old(cache).cached(q) ==> final(cache).cached(q),
        root_opt is None ==> (r matches Ok(w) && w@.len() == 0),
        root_opt matches Some(rm) ==> match r {
            Ok(w) => spec_validate(fs@, entry@, rm@, paths_view(members@)) == Ok::<_, ErrView>(
                paths_view(w@),
            ),
            Err(e) => spec_validate(fs@, entry@, rm@, paths_view(members@)) == Err::<
                Seq<Seq<Seq<char>>>,
                _,
            >(e@),
        },
{
    let rootm = match root_opt {
        None => {
            let w: Vec<AbsPath> = Vec::new();
            return Ok(w);
        },
        Some(rm) => rm,
    };
    let ghost mv = paths_view(members@);
    let n = members.len();

    let mut roots: Vec<AbsPath> = Vec::new();
    proof {
        assert(mv.take(0) =~= Seq::<Seq<Seq<char>>>::empty());
        assert(paths_view(roots@) =~= Seq::<Seq<Seq<char>>>::empty());
    }
    let mut i: usize = 0;
    while i < n
        invariant
            i <= n,
            paths_view(roots@) == roots_of(fs@, mv.take(i as int)),
        decreases n - i,
    {
        proof {
            assert(mv.take(i + 1).drop_last() =~= mv.take(i as int));
            assert(mv.take(i + 1).last() == mv[i as int]);
        }
        let is_root = match cache.get(fs, &members[i]).workspace_config() {
            WorkspaceConfig::Root { .. } => true,
            WorkspaceConfig::Member { .. } => false,
        };
        if is_root {
            let ghost rv = paths_view(roots@);
            roots.push(members[i].dup());
            proof {
                assert(paths_view(roots@) =~= rv.push(mv[i as int]));
                assert(roots_of(fs@, mv.take(i + 1)) =~= rv.push(mv[i as int]));
            }
        } else {
            proof {
                assert(roots_of(fs@, mv.take(i + 1)) =~= roots_of(fs@, mv.take(i as int)));
            }
        }
        i += 1;
    }
    proof {
        assert(mv.take(n as int) =~= mv);
    }
    if roots.len() == 0 {
        return Err(WorkspaceError::NoRootConfigured { current: entry.dup(), root: rootm.dup() });
    }
    if roots.len() > 1 {
        return Err(WorkspaceError::MultipleRoots { roots });
    }

    let mut b: usize = 0;
    while b < n
        invariant
            b <= n,
            first_dup_from(fs@, mv, 0) == first_dup_from(fs@, mv, b as int),
        decreases n - b,
    {
        let nb: Option<&String> = match cache.get(fs, &members[b]) {
            MaybePackage::Package(p) => Some(&p.name),
            MaybePackage::Virtual(_) => None,
        };
        match nb {
            None => {
                proof {
                    assert(name_at(fs@, mv[b as int]) is None);
                }
            },
            Some(nm) => {
                proof {
                    assert(name_at(fs@, mv[b as int]) == Some(nm@));
                }
                let mut a: usize = 0;
                while a < b
                    invariant
                        a <= b < n,
                        name_at(fs@, mv[b as int]) == Some(nm@),
                        first_named_from(fs@, mv, nm@, 0) == first_named_from(
                            fs@,
                            mv,
                            nm@,
                            a as int,
                        ),
                        forall|j: int| 0 <= j < a ==> name_at(fs@, #[trigger] mv[j]) != Some(nm@),
                    decreases b - a,
                {
                    let na: Option<&String> = match cache.get(fs, &members[a]) {
                        MaybePackage::Package(p) => Some(&p.name),
                        MaybePackage::Virtual(_) => None,
                    };
                    let hit = match na {
                        Some(other) => string_eq(other, nm),
                        None => false,
                    };
                    if hit {
                        proof {
                            assert(name_at(fs@, mv[a as int]) == Some(nm@));
                            assert(earlier_same_name(fs@, mv, b as int));
                            assert(first_named_from(fs@, mv, nm@, a as int) == a as int);
                            assert(first_dup_from(fs@, mv, b as int) == Some(b as int));
                        }
                        return Err(
                            WorkspaceError::DuplicateName {
                                name: nm.clone(),
                                first: members[a].dup(),
                                second: members[b].dup(),
                            },
                        );
                    }
                    proof {
                        assert(name_at(fs@, mv[a as int]) != Some(nm@));
                    }
                    a += 1;
                }
                proof {
                    if earlier_same_name(fs@, mv, b as int) {
                        let w = choose|w: int|
                            0 <= w < b && name_at(fs@, #[trigger] mv[w]) is Some && name_at(
                                fs@,
                                mv[w],
                            ) == name_at(fs@, mv[b as int]);
                        assert(false);
                    }
                }
            },
        }
        b += 1;
    }

    let mut i: usize = 0;
    proof {
        assert(mv.skip(0) =~= mv);
    }
    while i < n
        invariant
            i <= n,
            cache.wf(fs@),
            forall|q: Seq<Seq<char>>| old(cache).cached(q) ==> cache.cached(q),
            spec_containment(fs@, rootm@, mv) == spec_containment(fs@, rootm@, mv.skip(i as int)),
        decreases n - i,
    {
        proof {
            assert(mv.skip(i as int).len() > 0);
            assert(mv.skip(i as int)[0] == mv[i as int]);
            assert(mv.skip(i as int).skip(1) =~= mv.skip(i + 1));
        }
        match find_root(fs, cache, &members[i]) {
            Err(e) => {
                return Err(e);
            },
            Ok(Some(rt)) => {
                if !rt.same_as(rootm) {
                    return Err(
                        WorkspaceError::WrongWorkspace {
                            member: members[i].dup(),
                            expected: rootm.dup(),
                            actual: rt,
                        },
                    );
                }
            },
            Ok(None) => {
                return Err(
                    WorkspaceError::NotHierarchicallyBelow {
                        member: members[i].dup(),
                        root: rootm.dup(),
                    },
                );
            },
        }
        i += 1;
    }

    if !path_in(members, entry) {
        let fix = if entry.starts_with(rootm) {
            let rl = rootm.depth();
            let el = entry.depth();
            let mut rel: Vec<String> = Vec::new();
            let mut j: usize = rl;
            proof {
                assert(strs_view(rel@) =~= entry@.subrange(rl as int, rl as int));
            }
            while j < el
                invariant
                    rl <= j <= el,
                    el == entry@.len(),
                    rl == rootm@.len(),
                    strs_view(rel@) == entry@.subrange(rl as int, j as int),
                decreases el - j,
            {
                let x = entry.segs[j].clone();
                proof {
                    assert(x@ == entry@[j as int]);
                }
                rel.push(x);
                proof {
                    assert(strs_view(rel@) =~= entry@.subrange(rl as int, j + 1));
                }
                j += 1;
            }
            proof {
                assert(entry@.subrange(rl as int, el as int) =~= entry@.skip(rl as int));
            }
            SuggestedFix::AddMember { rel: Some(rel) }
        } else {
            let infer = match cache.get(fs, rootm) {
                MaybePackage::Package(p) => match &p.config {
                    WorkspaceConfig::Root { members: None, .. } => true,
                    WorkspaceConfig::Root { members: Some(..), .. } => false,
                    WorkspaceConfig::Member { .. } => unreached(),
                },
                MaybePackage::Virtual(_) => false,
            };
            if infer {
                SuggestedFix::AddDependency
            } else {
                SuggestedFix::AddMember { rel: None }
            }
        };
        return Err(WorkspaceError::NotAMember { current: entry.dup(), root: rootm.dup(), fix });
    }

    let mut warns: Vec<AbsPath> = Vec::new();
    proof {
        assert(paths_view(warns@) =~= Seq::<Seq<Seq<char>>>::empty());
        assert(mv.take(0) =~= Seq::<Seq<Seq<char>>>::empty());
    }
    let mut i: usize = 0;
    while i < n
        invariant
            i <= n,
            paths_view(warns@) == warn_list(fs@, rootm@, mv.take(i as int)),
        decreases n - i,
    {
        proof {
            assert(mv.take(i + 1).drop_last() =~= mv.take(i as int));
            assert(mv.take(i + 1).last() == mv[i as int]);
        }
        let warn_here = match cache.get(fs, &members[i]) {
            MaybePackage::Package(p) => {
                if members[i].same_as(rootm) {
                    false
                } else {
                    let def = Profiles::default();
                    p.profiles != def
                }
            },
            MaybePackage::Virtual(_) => false,
        };
        if warn_here {
            let ghost wv = paths_view(warns@);
            warns.push(members[i].dup());
            proof {
                assert(paths_view(warns@) =~= wv.push(mv[i as int]));
                assert(warn_list(fs@, rootm@, mv.take(i + 1)) =~= wv.push(mv[i as int]));
            }
        } else {
            proof {
                assert(warn_list(fs@, rootm@, mv.take(i + 1)) =~= warn_list(
                    fs@,
                    rootm@,
                    mv.take(i as int),
                ));
            }
        }
        i += 1;
    }
    proof {
        assert(mv.take(n as int) =~= mv);
    }
    Ok(warns)
}

} // verus!
