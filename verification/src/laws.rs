//! Laws of discovery that hold across whole families of inputs.

use vstd::prelude::*;
use crate::manifest::{ConfigView, spec_config_of};
use crate::fsys::{EntryView, manifest_present, loads_ok, record_at, spec_load};
use crate::discover::{spec_climb, spec_find_root, spec_is_excluded, matches_any_prefix};
use crate::collect::{
    spec_collect, spec_find_members, member_queue, glob_expand, dep_queue, free_count,
};
use crate::validate::{
    spec_validate, spec_containment, first_dup_from, earlier_same_name, name_at, roots_of,
};
use crate::errors::ErrView;

verus! {

/// Every manifest that exists is loadable and declares neither
/// `[workspace]` nor a root pointer.
pub open spec fn all_plain(fs: Seq<EntryView>) -> bool {
    forall|d: Seq<Seq<char>>|
        #[trigger] manifest_present(fs, d) ==> loads_ok(fs, d) && (spec_config_of(
            record_at(fs, d),
        ) matches ConfigView::Member { root: None })
}

proof fn lemma_plain_climb(fs: Seq<EntryView>, orig: Seq<Seq<char>>, k: int)
    requires
        all_plain(fs),
    ensures
        spec_climb(fs, orig, k) == Ok::<Option<Seq<Seq<char>>>, ErrView>(None),
    decreases k + 1,
{
    if k >= 0 {
        lemma_plain_climb(fs, orig, k - 1);
    }
}

/// When no manifest in the picture declares a workspace or points at a
/// root, every entry is standalone: its root is absent and it is its own
/// only member.
pub proof fn lemma_no_workspace_standalone(fs: Seq<EntryView>, entry: Seq<Seq<char>>)
    requires
        all_plain(fs),
        loads_ok(fs, entry),
    ensures
        spec_find_root(fs, entry) == Ok::<Option<Seq<Seq<char>>>, ErrView>(None),
        spec_find_members(fs, entry, None) == Ok::<Seq<Seq<Seq<char>>>, ErrView>(seq![entry]),
{
    assert(manifest_present(fs, entry));
    lemma_plain_climb(fs, entry, entry.len() - 1);
}

/// An explicit root pointer short-circuits the ancestry search: the root
/// is the pointer's target, whatever stands in the directories above.
pub proof fn lemma_pointer_short_circuits(fs: Seq<EntryView>, entry: Seq<Seq<char>>, p: Seq<char>)
    requires
        loads_ok(fs, entry),
        spec_config_of(record_at(fs, entry)) == (ConfigView::Member { root: Some(p) }),
    ensures
        spec_find_root(fs, entry) == Ok::<Option<Seq<Seq<char>>>, ErrView>(
            Some(crate::path::spec_join(entry, p)),
        ),
{
}

/// Explicit membership beats exclusion: a path that matches a member
/// pattern is never excluded, whatever the exclude patterns say.
pub proof fn lemma_explicit_member_wins(
    members: Seq<Seq<char>>,
    exclude: Seq<Seq<char>>,
    root: Seq<Seq<char>>,
    path: Seq<Seq<char>>,
)
    requires
        matches_any_prefix(members, root, path),
    ensures
        !spec_is_excluded(Some(members), exclude, root, path),
{
}


proof fn lemma_collect_distinct(
    fs: Seq<EntryView>,
    rootm: Seq<Seq<char>>,
    acc: Seq<Seq<Seq<char>>>,
    queue: Seq<(Seq<Seq<char>>, bool)>,
)
    requires
        acc.no_duplicates(),
    ensures
        spec_collect(fs, rootm, acc, queue) matches Ok(ms) ==> ms.no_duplicates(),
    decreases free_count(fs, acc), queue.len(),
{
    if queue.len() > 0 {
        let raw = queue[0].0;
        let is_dep = queue[0].1;
        let rest = queue.skip(1);
        let path = crate::path::spec_normalize(raw);
        if acc.contains(path) {
            lemma_collect_distinct(fs, rootm, acc, rest);
        } else {
            let foreign_check = is_dep && !rootm.is_prefix_of(path);
            if foreign_check && spec_find_root(fs, path) is Err {
            } else if foreign_check && spec_find_root(fs, path) != Ok::<_, ErrView>(Some(rootm)) {
                lemma_collect_distinct(fs, rootm, acc, rest);
            } else {
                match crate::fsys::spec_load(fs, rootm) {
                    Err(e) => {},
                    Ok(rm) => {
                        let excl = match spec_config_of(rm) {
                            ConfigView::Root { members: ms, exclude } => spec_is_excluded(
                                ms,
                                exclude,
                                rootm,
                                path,
                            ),
                            ConfigView::Member { .. } => false,
                        };
                        if excl {
                            lemma_collect_distinct(fs, rootm, acc, rest);
                        } else {
                            match crate::fsys::spec_load(fs, path) {
                                Err(e) => {},
                                Ok(m) => {
                                    let acc2 = acc.push(path);
                                    assert(acc2.no_duplicates()) by {
                                        assert forall|i: int, j: int|
                                            0 <= i < acc2.len() && 0 <= j < acc2.len() && i
                                                != j implies acc2[i] != acc2[j] by {
                                            if i < acc.len() && j < acc.len() {
                                            } else if i < acc.len() {
                                                assert(acc[i] != path);
                                            } else if j < acc.len() {
                                                assert(acc[j] != path);
                                            }
                                        }
                                    }
                                    crate::collect::lemma_free_count_strict(fs, acc, path);
                                    match m {
                                        crate::manifest::RecordView::Virtual(v) => {
                                            lemma_collect_distinct(fs, rootm, acc2, rest);
                                        },
                                        crate::manifest::RecordView::Package(pk) => {
                                            lemma_collect_distinct(
                                                fs,
                                                rootm,
                                                acc2,
                                                crate::collect::dep_queue(pk.dependencies) + rest,
                                            );
                                        },
                                    }
                                },
                            }
                        }
                    },
                }
            }
        }
    }
}

/// The member list is deduplicated: discovery never lists a directory
/// twice, however many paths reach it.
pub proof fn lemma_members_distinct(
    fs: Seq<EntryView>,
    entry: Seq<Seq<char>>,
    root_opt: Option<Seq<Seq<char>>>,
)
    ensures
        spec_find_members(fs, entry, root_opt) matches Ok(ms) ==> ms.no_duplicates(),
{
    if root_opt is Some {
        let rootm = root_opt->Some_0;
        if spec_find_members(fs, entry, root_opt) is Ok {
            assert(Seq::<Seq<Seq<char>>>::empty().no_duplicates());
            match spec_load(fs, rootm) {
                Err(e) => {},
                Ok(m) => match spec_config_of(m) {
                    ConfigView::Member { .. } => {},
                    ConfigView::Root { members: None, .. } => {
                        lemma_collect_distinct(fs, rootm, Seq::empty(), seq![(rootm, false)]);
                    },
                    ConfigView::Root { members: Some(pats), .. } => {
                        match crate::collect::member_queue(fs, rootm, pats) {
                            Err(e) => {},
                            Ok(q) => {
                                lemma_collect_distinct(
                                    fs,
                                    rootm,
                                    Seq::empty(),
                                    q.push((rootm, false)),
                                );
                            },
                        }
                    },
                },
            }
        }
    } else {
        assert(seq![entry].no_duplicates());
    }
}

/// Within one workspace, the member list does not depend on which member
/// discovery started from: any two entries that answer to the same root
/// see the same members, in the same order. Together with the termination
/// measure on collection, this makes discovery of mutually dependent
/// packages safe from either end.
pub proof fn lemma_same_root_same_members(
    fs: Seq<EntryView>,
    e1: Seq<Seq<char>>,
    e2: Seq<Seq<char>>,
    rootm: Seq<Seq<char>>,
)
    ensures
        spec_find_members(fs, e1, Some(rootm)) == spec_find_members(fs, e2, Some(rootm)),
{
}

/// A validated workspace contains the entry manifest among its members.
pub proof fn lemma_validated_entry_is_member(
    fs: Seq<EntryView>,
    entry: Seq<Seq<char>>,
    rootm: Seq<Seq<char>>,
    mv: Seq<Seq<Seq<char>>>,
)
    ensures
        spec_validate(fs, entry, rootm, mv) is Ok ==> mv.contains(entry),
{
}

/// A validated workspace has exactly one member that declares itself a
/// root.
pub proof fn lemma_validated_single_root(
    fs: Seq<EntryView>,
    entry: Seq<Seq<char>>,
    rootm: Seq<Seq<char>>,
    mv: Seq<Seq<Seq<char>>>,
)
    ensures
        spec_validate(fs, entry, rootm, mv) is Ok ==> roots_of(fs, mv).len() == 1,
{
}

proof fn lemma_no_dup_from(fs: Seq<EntryView>, mv: Seq<Seq<Seq<char>>>, b: int)
    requires
        first_dup_from(fs, mv, b) is None,
        0 <= b,
    ensures
        forall|j: int|
            b <= j < mv.len() ==> !(name_at(fs, #[trigger] mv[j]) is Some && earlier_same_name(
                fs,
                mv,
                j,
            )),
    decreases mv.len() - b,
{
    if b < mv.len() {
        lemma_no_dup_from(fs, mv, b + 1);
    }
}

/// No two member packages of a validated workspace share a name.
pub proof fn lemma_validated_names_unique(
    fs: Seq<EntryView>,
    entry: Seq<Seq<char>>,
    rootm: Seq<Seq<char>>,
    mv: Seq<Seq<Seq<char>>>,
)
    ensures
        spec_validate(fs, entry, rootm, mv) is Ok ==> forall|a: int, b: int|
            0 <= a < b < mv.len() && name_at(fs, #[trigger] mv[a]) is Some && name_at(
                fs,
                #[trigger] mv[b],
            ) is Some ==> name_at(fs, mv[a]) != name_at(fs, mv[b]),
{
    if spec_validate(fs, entry, rootm, mv) is Ok {
        assert(first_dup_from(fs, mv, 0) is None);
        lemma_no_dup_from(fs, mv, 0);
        assert forall|a: int, b: int|
            0 <= a < b < mv.len() && name_at(fs, #[trigger] mv[a]) is Some && name_at(
                fs,
                #[trigger] mv[b],
            ) is Some implies name_at(fs, mv[a]) != name_at(fs, mv[b]) by {
            if name_at(fs, mv[a]) == name_at(fs, mv[b]) {
                assert(earlier_same_name(fs, mv, b));
            }
        }
    }
}


proof fn lemma_containment_all(fs: Seq<EntryView>, rootm: Seq<Seq<char>>, mv: Seq<Seq<Seq<char>>>)
    requires
        spec_containment(fs, rootm, mv) is Ok,
    ensures
        forall|i: int|
            0 <= i < mv.len() ==> spec_find_root(fs, #[trigger] mv[i]) == Ok::<
                Option<Seq<Seq<char>>>,
                ErrView,
            >(Some(rootm)),
    decreases mv.len(),
{
    if mv.len() > 0 {
        lemma_containment_all(fs, rootm, mv.skip(1));
        assert forall|i: int|
            0 <= i < mv.len() implies spec_find_root(fs, #[trigger] mv[i]) == Ok::<
            Option<Seq<Seq<char>>>,
            ErrView,
        >(Some(rootm)) by {
            if i > 0 {
                assert(mv.skip(1)[i - 1] == mv[i]);
            }
        }
    }
}

/// Every member of a validated workspace, asked on its own, names the
/// workspace root as its root.
pub proof fn lemma_validated_members_agree_on_root(
    fs: Seq<EntryView>,
    entry: Seq<Seq<char>>,
    rootm: Seq<Seq<char>>,
    mv: Seq<Seq<Seq<char>>>,
)
    ensures
        spec_validate(fs, entry, rootm, mv) is Ok ==> forall|i: int|
            0 <= i < mv.len() ==> spec_find_root(fs, #[trigger] mv[i]) == Ok::<
                Option<Seq<Seq<char>>>,
                ErrView,
            >(Some(rootm)),
{
    if spec_validate(fs, entry, rootm, mv) is Ok {
        lemma_containment_all(fs, rootm, mv);
    }
}


/// A member pattern that matches no listed directory does not silently
/// vanish: its literal joined path stands in the candidate queue, whatever
/// the other patterns produce.
pub proof fn lemma_zero_match_literal_kept(
    fs: Seq<EntryView>,
    rootm: Seq<Seq<char>>,
    pats: Seq<Seq<char>>,
    i: int,
)
    requires
        0 <= i < pats.len(),
        member_queue(fs, rootm, pats) is Ok,
        glob_expand(fs, crate::path::spec_render(crate::path::spec_join(rootm, pats[i]))).len()
            == 0,
    ensures
        member_queue(fs, rootm, pats)->Ok_0.contains(
            (crate::path::spec_join(rootm, pats[i]), false),
        ),
    decreases pats.len(),
{
    let joined = crate::path::spec_join(rootm, pats[i]);
    let q = member_queue(fs, rootm, pats.drop_last())->Ok_0;
    let whole = member_queue(fs, rootm, pats)->Ok_0;
    if i == pats.len() - 1 {
        assert(whole[q.len() as int] == (joined, false));
        assert(whole.contains((joined, false)));
    } else {
        assert(pats.drop_last()[i] == pats[i]);
        lemma_zero_match_literal_kept(fs, rootm, pats.drop_last(), i);
        let j = choose|j: int| 0 <= j < q.len() && q[j] == (joined, false);
        assert(whole[j] == (joined, false));
        assert(whole.contains((joined, false)));
    }
}


proof fn lemma_dep_queue_flagged(deps: Seq<crate::manifest::DepView>)
    ensures
        forall|i: int| 0 <= i < dep_queue(deps).len() ==> (#[trigger] dep_queue(deps)[i]).1,
    decreases deps.len(),
{
    if deps.len() > 0 {
        lemma_dep_queue_flagged(deps.drop_last());
        let dq0 = dep_queue(deps.drop_last());
        assert forall|i: int|
            0 <= i < dep_queue(deps).len() implies (#[trigger] dep_queue(deps)[i]).1 by {
            if i < dq0.len() {
                assert(dep_queue(deps)[i] == dq0[i]);
            } else {
                match deps.last().source {
                    crate::manifest::SourceView::LocalPath(p) => {
                        assert(dep_queue(deps)[i] == (seq![(p, true)])[i - dq0.len()]);
                    },
                    crate::manifest::SourceView::Registry => {
                        assert(dep_queue(deps).len() == dq0.len());
                    },
                    crate::manifest::SourceView::Other => {
                        assert(dep_queue(deps).len() == dq0.len());
                    },
                }
            }
        }
    }
}

/// Candidates equal to the foreign directory `x` only ever stand in the
/// queue as path dependencies, and `x` lies outside the root directory and
/// answers to a different root: collection then never lists `x`.
proof fn lemma_collect_foreign_skipped(
    fs: Seq<EntryView>,
    rootm: Seq<Seq<char>>,
    acc: Seq<Seq<Seq<char>>>,
    queue: Seq<(Seq<Seq<char>>, bool)>,
    x: Seq<Seq<char>>,
)
    requires
        !acc.contains(x),
        !rootm.is_prefix_of(x),
        spec_find_root(fs, x) is Ok,
        spec_find_root(fs, x) != Ok::<Option<Seq<Seq<char>>>, ErrView>(Some(rootm)),
        forall|i: int|
            0 <= i < queue.len() ==> (crate::path::spec_normalize((#[trigger] queue[i]).0) == x
                ==> queue[i].1),
    ensures
        spec_collect(fs, rootm, acc, queue) matches Ok(ms) ==> !ms.contains(x),
    decreases free_count(fs, acc), queue.len(),
{
    if queue.len() > 0 {
        let raw = queue[0].0;
        let is_dep = queue[0].1;
        let rest = queue.skip(1);
        let path = crate::path::spec_normalize(raw);
        assert forall|i: int|
            0 <= i < rest.len() implies (crate::path::spec_normalize((#[trigger] rest[i]).0) == x
                ==> rest[i].1) by {
            assert(rest[i] == queue[i + 1]);
        }
        if acc.contains(path) {
            lemma_collect_foreign_skipped(fs, rootm, acc, rest, x);
        } else {
            let foreign_check = is_dep && !rootm.is_prefix_of(path);
            if foreign_check && spec_find_root(fs, path) is Err {
            } else if foreign_check && spec_find_root(fs, path) != Ok::<_, ErrView>(Some(rootm)) {
                lemma_collect_foreign_skipped(fs, rootm, acc, rest, x);
            } else {
                assert(path != x);
                match spec_load(fs, rootm) {
                    Err(e) => {},
                    Ok(rm) => {
                        let excl = match spec_config_of(rm) {
                            ConfigView::Root { members: ms, exclude } => spec_is_excluded(
                                ms,
                                exclude,
                                rootm,
                                path,
                            ),
                            ConfigView::Member { .. } => false,
                        };
                        if excl {
                            lemma_collect_foreign_skipped(fs, rootm, acc, rest, x);
                        } else {
                            match spec_load(fs, path) {
                                Err(e) => {},
                                Ok(m) => {
                                    let acc2 = acc.push(path);
                                    assert(!acc2.contains(x)) by {
                                        if acc2.contains(x) {
                                            let w = choose|w: int|
                                                0 <= w < acc2.len() && acc2[w] == x;
                                            if w < acc.len() {
                                                assert(acc[w] == x);
                                            }
                                        }
                                    }
                                    crate::collect::lemma_free_count_strict(fs, acc, path);
                                    match m {
                                        crate::manifest::RecordView::Virtual(v) => {
                                            lemma_collect_foreign_skipped(fs, rootm, acc2, rest, x);
                                        },
                                        crate::manifest::RecordView::Package(pk) => {
                                            let dq = dep_queue(pk.dependencies);
                                            let nq = dq + rest;
                                            lemma_dep_queue_flagged(pk.dependencies);
                                            assert forall|i: int|
                                                0 <= i < nq.len() implies (
                                            crate::path::spec_normalize((#[trigger] nq[i]).0) == x
                                                ==> nq[i].1) by {
                                                if i < dq.len() {
                                                    assert(nq[i] == dq[i]);
                                                } else {
                                                    assert(nq[i] == rest[i - dq.len()]);
                                                }
                                            }
                                            lemma_collect_foreign_skipped(fs, rootm, acc2, nq, x);
                                        },
                                    }
                                },
                            }
                        }
                    },
                }
            }
        }
    }
}

/// A foreign path dependency is never absorbed: a directory that lies
/// outside the root directory and whose own root is a different workspace
/// (or none) stays out of the member list, as long as neither the root
/// itself nor any expanded member pattern names it directly.
pub proof fn lemma_foreign_dependency_excluded(
    fs: Seq<EntryView>,
    entry: Seq<Seq<char>>,
    rootm: Seq<Seq<char>>,
    x: Seq<Seq<char>>,
)
    requires
        !rootm.is_prefix_of(x),
        spec_find_root(fs, x) is Ok,
        spec_find_root(fs, x) != Ok::<Option<Seq<Seq<char>>>, ErrView>(Some(rootm)),
        crate::path::spec_normalize(rootm) != x,
        match spec_load(fs, rootm) {
            Ok(m) => match spec_config_of(m) {
                ConfigView::Root { members: Some(pats), .. } => match member_queue(
                    fs,
                    rootm,
                    pats,
                ) {
                    Ok(q) => forall|i: int|
                        0 <= i < q.len() ==> crate::path::spec_normalize((#[trigger] q[i]).0) != x,
                    Err(e) => true,
                },
                _ => true,
            },
            Err(e) => true,
        },
    ensures
        spec_find_members(fs, entry, Some(rootm)) matches Ok(ms) ==> !ms.contains(x),
{
    let none_acc = Seq::<Seq<Seq<char>>>::empty();
    assert(!none_acc.contains(x));
    match spec_load(fs, rootm) {
        Err(e) => {},
        Ok(m) => match spec_config_of(m) {
            ConfigView::Member { .. } => {},
            ConfigView::Root { members: None, .. } => {
                let q0 = seq![(rootm, false)];
                assert forall|i: int|
                    0 <= i < q0.len() implies (crate::path::spec_normalize((#[trigger] q0[i]).0)
                    == x ==> q0[i].1) by {
                    assert(q0[i] == (rootm, false));
                }
                lemma_collect_foreign_skipped(fs, rootm, none_acc, q0, x);
            },
            ConfigView::Root { members: Some(pats), .. } => match member_queue(fs, rootm, pats) {
                Err(e) => {},
                Ok(q) => {
                    let q0 = q.push((rootm, false));
                    assert forall|i: int|
                        0 <= i < q0.len() implies (crate::path::spec_normalize(
                        (#[trigger] q0[i]).0,
                    ) == x ==> q0[i].1) by {
                        if i < q.len() {
                            assert(q0[i] == q[i]);
                        } else {
                            assert(q0[i] == (rootm, false));
                        }
                    }
                    lemma_collect_foreign_skipped(fs, rootm, none_acc, q0, x);
                },
            },
        },
    }
}

} // verus!
