//! Collecting the members of a located workspace.
//!
//! With no root, the entry manifest is the only member. Otherwise the
//! root's member patterns are expanded against the directory picture (a
//! pattern with no match is kept literally), the root itself is added, and
//! every candidate's local path dependencies are followed transitively.
//! A candidate already collected is skipped, which breaks dependency
//! cycles; a path dependency that lives outside the root's tree and
//! answers to a different root is foreign and is not absorbed; a candidate
//! the root excludes is dropped. Discovery order is first-visit order.

use vstd::prelude::*;
use vstd::seq_lib::*;
use crate::path::{AbsPath, paths_view, spec_join, spec_normalize, spec_render};
use crate::manifest::{
    WorkspaceConfig, ConfigView, RecordView, DepView, SourceView, DepSource, MaybePackage,
    strs_view, deps_view, spec_config_of,
};
use crate::fsys::{Fsys, EntryView, spec_load, loads_ok, find_entry};
use crate::cache::Packages;
use crate::errors::{WorkspaceError, ErrView};
use crate::discover::{spec_is_excluded, spec_find_root, find_root, is_excluded};
use crate::glob_ext::{glob_pattern_ok, glob_matches, glob_match};

verus! {

/// The view of an optional root path.
pub open spec fn opt_path_view(o: Option<AbsPath>) -> Option<Seq<Seq<char>>> {
    match o {
        Some(p) => Some(p@),
        None => None,
    }
}

/// The view of a work queue of candidate directories; the flag records
/// whether the candidate was reached as a path dependency.
pub open spec fn queue_view(q: Seq<(AbsPath, bool)>) -> Seq<(Seq<Seq<char>>, bool)> {
    Seq::new(q.len(), |i: int| (q[i].0@, q[i].1))
}

/// Marks every path as a direct candidate, not a path dependency.
pub open spec fn mark_direct(ps: Seq<Seq<Seq<char>>>) -> Seq<(Seq<Seq<char>>, bool)> {
    Seq::new(ps.len(), |i: int| (ps[i], false))
}

/// The local path dependencies of a package, as path-dependency candidates,
/// in declaration order.
pub open spec fn dep_queue(deps: Seq<DepView>) -> Seq<(Seq<Seq<char>>, bool)>
    decreases deps.len(),
{
    if deps.len() == 0 {
        Seq::empty()
    } else {
        dep_queue(deps.drop_last()) + (match deps.last().source {
            SourceView::LocalPath(p) => seq![(p, true)],
            SourceView::Registry => Seq::empty(),
            SourceView::Other => Seq::empty(),
        })
    }
}

/// The listed directories the pattern string matches, in listing order.
pub open spec fn glob_expand(fs: Seq<EntryView>, pstr: Seq<char>) -> Seq<Seq<Seq<char>>>
    decreases fs.len(),
{
    if fs.len() == 0 {
        Seq::empty()
    } else {
        glob_expand(fs.drop_last(), pstr) + (if glob_matches(pstr, spec_render(fs.last().dir)) {
            seq![fs.last().dir]
        } else {
            Seq::empty()
        })
    }
}

/// The candidate queue the member patterns of the root at `rootm` produce:
/// each pattern is joined onto the root directory and expanded against the
/// listed directories; a pattern matching nothing is kept literally; a
/// malformed pattern is an error.
pub open spec fn member_queue(
    fs: Seq<EntryView>,
    rootm: Seq<Seq<char>>,
    pats: Seq<Seq<char>>,
) -> Result<Seq<(Seq<Seq<char>>, bool)>, ErrView>
    decreases pats.len(),
{
    if pats.len() == 0 {
        Ok(Seq::empty())
    } else {
        match member_queue(fs, rootm, pats.drop_last()) {
            Err(e) => Err(e),
            Ok(q) => {
                let pstr = spec_render(spec_join(rootm, pats.last()));
                if !glob_pattern_ok(pstr) {
                    Err(ErrView::Pattern(pstr))
                } else {
                    let hits = glob_expand(fs, pstr);
                    let h = if hits.len() == 0 {
                        seq![spec_join(rootm, pats.last())]
                    } else {
                        hits
                    };
                    Ok(q + mark_direct(h))
                }
            },
        }
    }
}

/// An error in a pattern prefix settles the whole pattern list.
pub proof fn lemma_member_queue_err(
    fs: Seq<EntryView>,
    rootm: Seq<Seq<char>>,
    pats: Seq<Seq<char>>,
    k: int,
)
    requires
        0 <= k <= pats.len(),
        member_queue(fs, rootm, pats.take(k)) is Err,
    ensures
        member_queue(fs, rootm, pats) == member_queue(fs, rootm, pats.take(k)),
    decreases pats.len() - k,
{
    if k < pats.len() {
        assert(pats.take(k + 1).drop_last() =~= pats.take(k));
        assert(member_queue(fs, rootm, pats.take(k + 1)) == member_queue(fs, rootm, pats.take(k)));
        lemma_member_queue_err(fs, rootm, pats, k + 1);
    } else {
        assert(pats.take(k) =~= pats);
    }
}

/// How many listed, loadable directories are not yet collected; the measure
/// that bounds the traversal.
pub open spec fn free_count(fs: Seq<EntryView>, acc: Seq<Seq<Seq<char>>>) -> nat
    decreases fs.len(),
{
    if fs.len() == 0 {
        0
    } else {
        free_count(fs.drop_last(), acc) + (if fs.last().manifest is Loaded && !acc.contains(
            fs.last().dir,
        ) {
            1nat
        } else {
            0nat
        })
    }
}

/// Collecting one more directory never makes more directories free.
pub proof fn lemma_free_count_mono(fs: Seq<EntryView>, acc: Seq<Seq<Seq<char>>>, p: Seq<Seq<char>>)
    ensures
        free_count(fs, acc.push(p)) <= free_count(fs, acc),
    decreases fs.len(),
{
    if fs.len() > 0 {
        lemma_free_count_mono(fs.drop_last(), acc, p);
        if !acc.contains(fs.last().dir) && acc.push(p).contains(fs.last().dir) {
        } else if acc.contains(fs.last().dir) {
            assert(acc.push(p).contains(fs.last().dir)) by {
                let i = choose|i: int| 0 <= i < acc.len() && acc[i] == fs.last().dir;
                assert(acc.push(p)[i] == fs.last().dir);
            }
        }
    }
}

/// A loadable directory occupies some listed position.
pub proof fn lemma_loads_ok_index(fs: Seq<EntryView>, d: Seq<Seq<char>>)
    requires
        loads_ok(fs, d),
    ensures
        exists|i: int|
            0 <= i < fs.len() && #[trigger] fs[i].dir == d && fs[i].manifest is Loaded,
    decreases fs.len(),
{
    assert(find_entry(fs, d) is Some);
    if fs.len() > 0 {
        if fs[0].dir == d {
            assert(fs[0].dir == d && fs[0].manifest is Loaded);
        } else {
            assert(find_entry(fs.skip(1), d) == find_entry(fs, d));
            assert(loads_ok(fs.skip(1), d));
            lemma_loads_ok_index(fs.skip(1), d);
            let i = choose|i: int|
                0 <= i < fs.skip(1).len() && #[trigger] fs.skip(1)[i].dir == d && fs.skip(
                    1,
                )[i].manifest is Loaded;
            assert(fs[i + 1].dir == d && fs[i + 1].manifest is Loaded);
        }
    }
}

/// Collecting a loadable, not-yet-collected directory strictly shrinks the
/// free count.
pub proof fn lemma_free_count_strict(fs: Seq<EntryView>, acc: Seq<Seq<Seq<char>>>, p: Seq<Seq<char>>)
    requires
        loads_ok(fs, p),
        !acc.contains(p),
    ensures
        free_count(fs, acc.push(p)) < free_count(fs, acc),
    decreases fs.len(),
{
    lemma_loads_ok_index(fs, p);
    let i = choose|i: int|
        0 <= i < fs.len() && #[trigger] fs[i].dir == p && fs[i].manifest is Loaded;
    lemma_free_count_strict_at(fs, acc, p, i);
}

/// The strict shrink, witnessed by the listed position of the collected
/// directory.
pub proof fn lemma_free_count_strict_at(
    fs: Seq<EntryView>,
    acc: Seq<Seq<Seq<char>>>,
    p: Seq<Seq<char>>,
    i: int,
)
    requires
        0 <= i < fs.len(),
        fs[i].dir == p,
        fs[i].manifest is Loaded,
        !acc.contains(p),
    ensures
        free_count(fs, acc.push(p)) < free_count(fs, acc),
    decreases fs.len(),
{
    assert(acc.push(p).contains(p)) by {
        assert(acc.push(p)[acc.len() as int] == p);
    }
    if i == fs.len() - 1 {
        lemma_free_count_mono(fs.drop_last(), acc, p);
        assert(fs.last() == fs[i]);
    } else {
        lemma_free_count_strict_at(fs.drop_last(), acc, p, i);
        assert(fs.drop_last()[i] == fs[i]);
        if acc.contains(fs.last().dir) {
            let w = choose|w: int| 0 <= w < acc.len() && acc[w] == fs.last().dir;
            assert(acc.push(p)[w] == fs.last().dir);
            assert(acc.push(p).contains(fs.last().dir));
        }
    }
}

/// The members collected once the queue has been worked off, starting from
/// the already-collected `acc`: the head candidate is normalized, skipped
/// when already collected, foreign or excluded, and otherwise collected,
/// with a package's local path dependencies queued up next, depth first.
pub open spec fn spec_collect(
    fs: Seq<EntryView>,
    rootm: Seq<Seq<char>>,
    acc: Seq<Seq<Seq<char>>>,
    queue: Seq<(Seq<Seq<char>>, bool)>,
) -> Result<Seq<Seq<Seq<char>>>, ErrView>
    decreases free_count(fs, acc), queue.len(),
{
    if queue.len() == 0 {
        Ok(acc)
    } else {
        let raw = queue[0].0;
        let is_dep = queue[0].1;
        let rest = queue.skip(1);
        let path = spec_normalize(raw);
        if acc.contains(path) {
            spec_collect(fs, rootm, acc, rest)
        } else {
            let foreign_check = is_dep && !rootm.is_prefix_of(path);
            if foreign_check && spec_find_root(fs, path) is Err {
                Err(spec_find_root(fs, path)->Err_0)
            } else if foreign_check && spec_find_root(fs, path) != Ok::<_, ErrView>(
                Some(rootm),
            ) {
                spec_collect(fs, rootm, acc, rest)
            } else {
                match spec_load(fs, rootm) {
                    Err(e) => Err(e),
                    Ok(rm) => {
                        let excl = match spec_config_of(rm) {
                            ConfigView::Root { members: ms, exclude } => spec_is_excluded(
                                ms,
                                exclude,
                                rootm,
                                path,
                            ),
                            ConfigView::Member { .. } => false,
                        };
                        if excl {
                            spec_collect(fs, rootm, acc, rest)
                        } else {
                            match spec_load(fs, path) {
                                Err(e) => Err(e),
                                Ok(m) => {
                                    let acc2 = acc.push(path);
                                    match m {
                                        RecordView::Virtual(v) => {
                                            proof {
                                                lemma_free_count_strict(fs, acc, path);
                                            }
                                            spec_collect(fs, rootm, acc2, rest)
                                        },
                                        RecordView::Package(pk) => {
                                            proof {
                                                lemma_free_count_strict(fs, acc, path);
                                            }
                                            spec_collect(
                                                fs,
                                                rootm,
                                                acc2,
                                                dep_queue(pk.dependencies) + rest,
                                            )
                                        },
                                    }
                                },
                            }
                        }
                    },
                }
            }
        }
    }
}

/// The member list discovery produces for `entry` under the root `root_opt`:
/// just the entry when standalone, and otherwise the worked-off queue of
/// expanded member patterns followed by the root itself.
pub open spec fn spec_find_members(
    fs: Seq<EntryView>,
    entry: Seq<Seq<char>>,
    root_opt: Option<Seq<Seq<char>>>,
) -> Result<Seq<Seq<Seq<char>>>, ErrView> {
    match root_opt {
        None => Ok(seq![entry]),
        Some(rootm) => match spec_load(fs, rootm) {
            Err(e) => Err(e),
            Ok(m) => match spec_config_of(m) {
                ConfigView::Member { .. } => Err(ErrView::RootMisdeclared(rootm)),
                ConfigView::Root { members: None, .. } => spec_collect(
                    fs,
                    rootm,
                    Seq::empty(),
                    seq![(rootm, false)],
                ),
                ConfigView::Root { members: Some(pats), .. } => match member_queue(
                    fs,
                    rootm,
                    pats,
                ) {
                    Err(e) => Err(e),
                    Ok(q) => spec_collect(fs, rootm, Seq::empty(), q.push((rootm, false))),
                },
            },
        },
    }
}

/// Whether `p` is already in the collected list.
pub(crate) fn path_in(v: &Vec<AbsPath>, p: &AbsPath) -> (r: bool)
    ensures
        r == paths_view(v@).contains(p@),
{
    let n = v.len();
    let mut i: usize = 0;
    while i < n
        invariant
            i <= n == v@.len(),
            forall|j: int| 0 <= j < i ==> paths_view(v@)[j] != p@,
        decreases n - i,
    {
        if v[i].same_as(p) {
            proof {
                assert(paths_view(v@)[i as int] == p@);
            }
            return true;
        }
        i += 1;
    }
    proof {
        if paths_view(v@).contains(p@) {
            let j = choose|j: int| 0 <= j < v@.len() && paths_view(v@)[j] == p@;
            assert(false);
        }
    }
    false
}


/// Collects the members of the workspace rooted at `root_opt`, discovered
/// from `entry`, in first-visit order.
#[verifier::loop_isolation(false)]
pub fn find_members(
    fs: &Fsys,
    cache: &mut Packages,
    entry: &AbsPath,
    root_opt: &Option<AbsPath>,
) -> (r: Result<Vec<AbsPath>, WorkspaceError>)
    requires
        old(cache).wf(fs@),
        old(cache).cached(entry@),
    ensures
        final(cache).wf(fs@),
        forall|q: Seq<Seq<char>>| old(cache).cached(q) ==> final(cache).cached(q),
        r is Ok ==> (root_opt matches Some(rm) ==> final(cache).cached(rm@)),
        match r {
            Ok(v) => spec_find_members(fs@, entry@, opt_path_view(*root_opt)) == Ok::<_, ErrView>(
                paths_view(v@),
            ) && (forall|i: int| 0 <= i < v@.len() ==> final(cache).cached(#[trigger] v@[i]@)),
            Err(e) => spec_find_members(fs@, entry@, opt_path_view(*root_opt)) == Err::<
                Seq<Seq<Seq<char>>>,
                _,
            >(e@),
        },
{
    let rootm = match root_opt {
        None => {
            let mut v: Vec<AbsPath> = Vec::new();
            v.push(entry.dup());
            proof {
                assert(paths_view(v@) =~= seq![entry@]);
            }
            return Ok(v);
        },
        Some(rootm) => rootm,
    };
    match cache.load(fs, rootm) {
        Err(e) => {
            return Err(e);
        },
        Ok(u) => u,
    }
    let mut queue: Vec<(AbsPath, bool)> = Vec::new();
    match cache.get(fs, rootm).workspace_config() {
        WorkspaceConfig::Member { .. } => {
            return Err(WorkspaceError::RootMisdeclared { root: rootm.dup() });
        },
        WorkspaceConfig::Root { members: None, .. } => {
            queue.push((rootm.dup(), false));
            proof {
                assert(queue_view(queue@) =~= seq![(rootm@, false)]);
            }
        },
        WorkspaceConfig::Root { members: Some(pats), .. } => {
            let ghost pv = strs_view(pats@);
            let np = pats.len();
            let mut i: usize = 0;
            proof {
                assert(pv.take(0) =~= Seq::<Seq<char>>::empty());
                assert(queue_view(queue@) =~= Seq::<(Seq<Seq<char>>, bool)>::empty());
            }
            while i < np
                invariant
                    i <= np == pats@.len(),
                    pv == strs_view(pats@),
                    member_queue(fs@, rootm@, pv.take(i as int)) == Ok::<_, ErrView>(
                        queue_view(queue@),
                    ),
                decreases np - i,
            {
                proof {
                    assert(pv.take(i + 1).drop_last() =~= pv.take(i as int));
                    assert(pv.take(i + 1).last() == pats@[i as int]@);
                }
                let ppath = rootm.join_rel(pats[i].as_str());
                let pstr = ppath.render();
                // A malformed pattern fails the whole expansion before any
                // directory is considered.
                match glob_match(pstr.as_str(), "") {
                    None => {
                        proof {
                            assert(member_queue(fs@, rootm@, pv.take(i + 1)) == Err::<
                                Seq<(Seq<Seq<char>>, bool)>,
                                _,
                            >(ErrView::Pattern(pstr@)));
                            lemma_member_queue_err(fs@, rootm@, pv, i + 1);
                        }
                        return Err(WorkspaceError::BadPattern { pattern: pstr });
                    },
                    Some(_) => {},
                }
                let ghost qpre = queue_view(queue@);
                let nd = fs.dirs.len();
                let hits0 = queue.len();
                let mut j: usize = 0;
                proof {
                    assert(glob_expand(fs@.take(0), pstr@) =~= Seq::<Seq<Seq<char>>>::empty());
                    assert(queue_view(queue@) =~= qpre + mark_direct(
                        glob_expand(fs@.take(0), pstr@),
                    ));
                }
                while j < nd
                    invariant
                        j <= nd == fs.dirs@.len(),
                        nd == fs@.len(),
                        hits0 <= queue@.len(),
                        glob_pattern_ok(pstr@),
                        queue_view(queue@) == qpre + mark_direct(
                            glob_expand(fs@.take(j as int), pstr@),
                        ),
                        queue@.len() - hits0 == glob_expand(fs@.take(j as int), pstr@).len(),
                    decreases nd - j,
                {
                    proof {
                        assert(fs@.take(j + 1).drop_last() =~= fs@.take(j as int));
                        assert(fs@.take(j + 1).last() == fs@[j as int]);
                    }
                    let ds = fs.dirs[j].dir.render();
                    match glob_match(pstr.as_str(), ds.as_str()) {
                        // The pattern compiled above, so matching cannot be
                        // refused here.
                        None => {
                            return unreached();
                        },
                        Some(true) => {
                            let xp = fs.dirs[j].dir.dup();
                            let ghost xv = xp@;
                            let ghost oq2 = queue@;
                            queue.push((xp, false));
                            proof {
                                assert(fs@[j as int].dir == xv);
                                assert(glob_matches(pstr@, spec_render(fs@[j as int].dir)));
                                let e1 = glob_expand(fs@.take(j as int), pstr@);
                                let e2 = glob_expand(fs@.take(j + 1), pstr@);
                                assert(e2 =~= e1 + seq![xv]);
                                assert forall|t: int| 0 <= t < e2.len() implies #[trigger] e2[t]
                                    == (if t < e1.len() {
                                    e1[t]
                                } else {
                                    xv
                                }) by {
                                    assert(e2[t] == (e1 + seq![xv])[t]);
                                }
                                assert(queue_view(oq2).len() == qpre.len() + e1.len());
                                assert(queue@ == oq2.push((queue@[oq2.len() as int])));
                                assert(queue@[oq2.len() as int].0@ == xv);
                                assert(queue@[oq2.len() as int].1 == false);
                                assert forall|t: int|
                                    0 <= t < queue_view(queue@).len() implies #[trigger] queue_view(
                                    queue@,
                                )[t] == (qpre + mark_direct(e2))[t] by {
                                    assert(queue_view(queue@)[t] == (queue@[t].0@, queue@[t].1));
                                    if t < oq2.len() {
                                        assert(queue@[t] == oq2[t]);
                                        assert(queue_view(oq2)[t] == (oq2[t].0@, oq2[t].1));
                                        assert(queue_view(oq2)[t] == (qpre + mark_direct(e1))[t]);
                                        if t < qpre.len() {
                                            assert((qpre + mark_direct(e1))[t] == qpre[t]);
                                            assert((qpre + mark_direct(e2))[t] == qpre[t]);
                                        } else {
                                            assert((qpre + mark_direct(e1))[t] == mark_direct(e1)[t
                                                - qpre.len()]);
                                            assert((qpre + mark_direct(e2))[t] == mark_direct(e2)[t
                                                - qpre.len()]);
                                            assert(mark_direct(e1)[t - qpre.len()] == (
                                            e1[t - qpre.len()],
                                            false,
                                            ));
                                            assert(mark_direct(e2)[t - qpre.len()] == (
                                            e2[t - qpre.len()],
                                            false,
                                            ));
                                        }
                                    } else {
                                        assert((qpre + mark_direct(e2))[t] == mark_direct(e2)[t
                                            - qpre.len()]);
                                        assert(mark_direct(e2)[t - qpre.len()] == (
                                        e2[t - qpre.len()],
                                        false,
                                        ));
                                        assert(e2[t - qpre.len()] == xv);
                                    }
                                }
                                assert(queue_view(queue@) =~= qpre + mark_direct(e2));
                            }
                        },
                        Some(false) => {
                            proof {
                                assert(glob_expand(fs@.take(j + 1), pstr@) =~= glob_expand(
                                    fs@.take(j as int),
                                    pstr@,
                                ));
                            }
                        },
                    }
                    j += 1;
                }
                proof {
                    assert(fs@.take(nd as int) =~= fs@);
                }
                if queue.len() == hits0 {
                    queue.push((ppath, false));
                    proof {
                        assert(glob_expand(fs@, pstr@).len() == 0);
                        assert(queue_view(queue@) =~= qpre + mark_direct(
                            seq![spec_join(rootm@, pv.take(i + 1).last())],
                        ));
                    }
                } else {
                    proof {
                        assert(glob_expand(fs@, pstr@).len() != 0);
                    }
                }
                i += 1;
            }
            proof {
                assert(pv.take(np as int) =~= pv);
            }
            let ghost mqv = queue_view(queue@);
            queue.push((rootm.dup(), false));
            proof {
                assert(queue_view(queue@) =~= mqv.push((rootm@, false)));
            }
        },
    }
    let ghost goal = spec_find_members(fs@, entry@, opt_path_view(*root_opt));
    proof {
        assert(goal == spec_collect(fs@, rootm@, Seq::empty(), queue_view(queue@)));
    }
    let mut acc: Vec<AbsPath> = Vec::new();
    proof {
        assert(paths_view(acc@) =~= Seq::<Seq<Seq<char>>>::empty());
    }
    while queue.len() > 0
        invariant
            cache.wf(fs@),
            cache.cached(rootm@),
            forall|q: Seq<Seq<char>>| old(cache).cached(q) ==> cache.cached(q),
            forall|k: int| 0 <= k < acc@.len() ==> cache.cached(#[trigger] acc@[k]@),
            spec_collect(fs@, rootm@, paths_view(acc@), queue_view(queue@)) == goal,
            goal == spec_find_members(fs@, entry@, opt_path_view(*root_opt)),
        decreases free_count(fs@, paths_view(acc@)), queue@.len(),
    {
        let ghost oqv = queue_view(queue@);
        let ghost av = paths_view(acc@);
        let rb = queue.remove(0);
        let raw = rb.0;
        let is_dep = rb.1;
        proof {
            assert(oqv[0] == (raw@, is_dep));
            assert(queue_view(queue@) =~= oqv.skip(1));
        }
        let path = raw.normalize();
        if path_in(&acc, &path) {
            continue ;
        }
        if is_dep && !path.starts_with(rootm) {
            match find_root(fs, cache, &path) {
                Err(e) => {
                    return Err(e);
                },
                Ok(opt) => {
                    let same = match &opt {
                        Some(p) => p.same_as(rootm),
                        None => false,
                    };
                    if !same {
                        continue ;
                    }
                },
            }
        }
        match cache.load(fs, rootm) {
            Err(e) => {
                return Err(e);
            },
            Ok(u) => u,
        }
        let excl = match cache.get(fs, rootm).workspace_config() {
            WorkspaceConfig::Root { members: ms, exclude } => is_excluded(ms, exclude, rootm, &path),
            WorkspaceConfig::Member { .. } => false,
        };
        if excl {
            continue ;
        }
        match cache.load(fs, &path) {
            Err(e) => {
                return Err(e);
            },
            Ok(u) => u,
        }
        acc.push(path.dup());
        proof {
            assert(paths_view(acc@) =~= av.push(path@));
            lemma_free_count_strict(fs@, av, path@);
        }
        match cache.get(fs, &path) {
            MaybePackage::Virtual(_) => {},
            MaybePackage::Package(pk) => {
                let ghost dv = deps_view(pk.dependencies@);
                let mut nq: Vec<(AbsPath, bool)> = Vec::new();
                let ndp = pk.dependencies.len();
                let mut di: usize = 0;
                proof {
                    assert(dv.take(0) =~= Seq::<DepView>::empty());
                    assert(queue_view(nq@) =~= Seq::<(Seq<Seq<char>>, bool)>::empty());
                }
                while di < ndp
                    invariant
                        di <= ndp == pk.dependencies@.len(),
                        dv == deps_view(pk.dependencies@),
                        queue_view(nq@) == dep_queue(dv.take(di as int)),
                    decreases ndp - di,
                {
                    proof {
                        assert(dv.take(di + 1).drop_last() =~= dv.take(di as int));
                        assert(dv.take(di + 1).last() == pk.dependencies@[di as int]@);
                    }
                    match &pk.dependencies[di].source {
                        DepSource::LocalPath(ap) => {
                            nq.push((ap.dup(), true));
                            proof {
                                assert(queue_view(nq@) =~= dep_queue(dv.take(di as int)) + seq![
                                    (ap@, true),
                                ]);
                            }
                        },
                        DepSource::Registry => {
                            proof {
                                assert(dep_queue(dv.take(di + 1)) =~= dep_queue(
                                    dv.take(di as int),
                                ));
                            }
                        },
                        DepSource::Other => {
                            proof {
                                assert(dep_queue(dv.take(di + 1)) =~= dep_queue(
                                    dv.take(di as int),
                                ));
                            }
                        },
                    }
                    di += 1;
                }
                proof {
                    assert(dv.take(ndp as int) =~= dv);
                }
                let ghost remv = queue_view(queue@);
                nq.append(&mut queue);
                queue = nq;
                proof {
                    assert(queue_view(queue@) =~= dep_queue(dv) + remv);
                }
            },
        }
    }
    proof {
        assert(queue_view(queue@) =~= Seq::<(Seq<Seq<char>>, bool)>::empty());
    }
    Ok(acc)
}

} // verus!
