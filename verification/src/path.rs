//! Normalized absolute directory paths and lexical path arithmetic.
//!
//! A manifest's identity is its containing directory, held as the sequence of
//! path segments below the filesystem root. Joining a relative path string
//! onto a directory resolves `.` and `..` lexically, with `..` at the root
//! staying at the root.

use vstd::prelude::*;
use vstd::string::*;

verus! {

/// A normalized absolute directory path, one segment per directory level.
///
/// The empty segment list stands for the filesystem root itself.
#[derive(Debug)]
pub struct AbsPath {
    pub segs: Vec<String>,
}

impl View for AbsPath {
    type V = Seq<Seq<char>>;

    open spec fn view(&self) -> Seq<Seq<char>> {
        Seq::new(self.segs@.len(), |i: int| self.segs@[i]@)
    }
}

/// The path segment `.`.
pub open spec fn seg_dot() -> Seq<char> {
    seq!['.']
}

/// The path segment `..`.
pub open spec fn seg_dotdot() -> Seq<char> {
    seq!['.', '.']
}

/// One step of lexical normalization: folding the raw segment `comp` onto the
/// already-normalized `base`. Empty segments and `.` are dropped, `..` removes
/// the last segment (staying put at the root), anything else is appended.
pub open spec fn norm_step(base: Seq<Seq<char>>, comp: Seq<char>) -> Seq<Seq<char>> {
    if comp.len() == 0 || comp == seg_dot() {
        base
    } else if comp == seg_dotdot() {
        if base.len() == 0 {
            base
        } else {
            base.drop_last()
        }
    } else {
        base.push(comp)
    }
}

/// Folds every raw segment of `comps` onto `base`, left to right.
pub open spec fn norm_fold(base: Seq<Seq<char>>, comps: Seq<Seq<char>>) -> Seq<Seq<char>>
    decreases comps.len(),
{
    if comps.len() == 0 {
        base
    } else {
        norm_fold(norm_step(base, comps[0]), comps.skip(1))
    }
}

/// Splits `s` at every `/`, reading from position `i` with `cur` the piece
/// gathered so far and `acc` the pieces already complete.
pub open spec fn split_acc(s: Seq<char>, i: int, cur: Seq<char>, acc: Seq<Seq<char>>) -> Seq<
    Seq<char>,
>
    decreases s.len() - i,
{
    if i < 0 || i >= s.len() {
        acc.push(cur)
    } else if s[i] == '/' {
        split_acc(s, i + 1, Seq::empty(), acc.push(cur))
    } else {
        split_acc(s, i + 1, cur.push(s[i]), acc)
    }
}

/// The pieces of `s` still to come when splitting has reached position `i`
/// with `cur` gathered so far.
pub open spec fn split_from(s: Seq<char>, i: int, cur: Seq<char>) -> Seq<Seq<char>> {
    split_acc(s, i, cur, Seq::empty())
}

/// Splits a whole string at every `/`.
pub open spec fn split_slash(s: Seq<char>) -> Seq<Seq<char>> {
    split_from(s, 0, Seq::empty())
}

/// Joins the relative path string `rel` onto the directory `base`,
/// resolving `.` and `..` lexically.
pub open spec fn spec_join(base: Seq<Seq<char>>, rel: Seq<char>) -> Seq<Seq<char>> {
    norm_fold(base, split_slash(rel))
}

/// Normalizes a path given as raw segments.
pub open spec fn spec_normalize(p: Seq<Seq<char>>) -> Seq<Seq<char>> {
    norm_fold(Seq::empty(), p)
}

proof fn lemma_split_acc_shift(s: Seq<char>, i: int, cur: Seq<char>, acc: Seq<Seq<char>>)
    ensures
        split_acc(s, i, cur, acc) == acc + split_from(s, i, cur),
    decreases s.len() - i,
{
    if i < 0 || i >= s.len() {
        assert(split_acc(s, i, cur, acc) =~= acc + split_from(s, i, cur));
    } else if s[i] == '/' {
        lemma_split_acc_shift(s, i + 1, Seq::empty(), acc.push(cur));
        lemma_split_acc_shift(s, i + 1, Seq::empty(), Seq::<Seq<char>>::empty().push(cur));
        assert(acc.push(cur) + split_from(s, i + 1, Seq::empty()) =~= acc + (Seq::<
            Seq<char>,
        >::empty().push(cur) + split_from(s, i + 1, Seq::empty())));
    } else {
        lemma_split_acc_shift(s, i + 1, cur.push(s[i]), acc);
    }
}

/// Splitting past the end leaves just the gathered piece.
proof fn lemma_split_from_end(s: Seq<char>, i: int, cur: Seq<char>)
    requires
        i >= s.len(),
    ensures
        split_from(s, i, cur) == seq![cur],
{
    assert(split_from(s, i, cur) =~= seq![cur]);
}

/// A `/` at position `i` completes the gathered piece.
proof fn lemma_split_from_sep(s: Seq<char>, i: int, cur: Seq<char>)
    requires
        0 <= i < s.len(),
        s[i] == '/',
    ensures
        split_from(s, i, cur) == seq![cur] + split_from(s, i + 1, Seq::<char>::empty()),
{
    lemma_split_acc_shift(s, i + 1, Seq::empty(), Seq::<Seq<char>>::empty().push(cur));
    assert(Seq::<Seq<char>>::empty().push(cur) =~= seq![cur]);
}

/// Any other character at position `i` extends the gathered piece.
proof fn lemma_split_from_chr(s: Seq<char>, i: int, cur: Seq<char>)
    requires
        0 <= i < s.len(),
        s[i] != '/',
    ensures
        split_from(s, i, cur) == split_from(s, i + 1, cur.push(s[i])),
{
}

/// Folding a list with a known head takes one `norm_step`.
proof fn lemma_norm_fold_cons(base: Seq<Seq<char>>, head: Seq<char>, rest: Seq<Seq<char>>)
    ensures
        norm_fold(base, seq![head] + rest) == norm_fold(norm_step(base, head), rest),
{
    let comps = seq![head] + rest;
    assert(comps.len() > 0);
    assert(comps[0] == head);
    assert(comps.skip(1) =~= rest);
}

impl AbsPath {
    /// Builds a path from its segments, normalizing nothing.
    pub fn from_segs(segs: Vec<String>) -> (r: AbsPath)
        ensures
            r@.len() == segs@.len(),
            forall|i: int| 0 <= i < segs@.len() ==> r@[i] == segs@[i]@,
    {
        AbsPath { segs }
    }

    /// The number of segments.
    pub fn depth(&self) -> (r: usize)
        ensures
            r == self@.len(),
    {
        self.segs.len()
    }

    /// Appends one segment, without normalization.
    pub fn seg_push(&mut self, s: String)
        ensures
            final(self)@ == old(self)@.push(s@),
    {
        self.segs.push(s);
        proof {
            assert(self@ =~= old(self)@.push(s@));
        }
    }

    /// Removes the last segment, if any.
    pub fn seg_pop(&mut self)
        requires
            old(self)@.len() > 0,
        ensures
            final(self)@ == old(self)@.drop_last(),
    {
        self.segs.pop();
        proof {
            assert(self@ =~= old(self)@.drop_last());
        }
    }

    /// An exact copy.
    pub fn dup(&self) -> (r: AbsPath)
        ensures
            r@ == self@,
    {
        let segs = self.segs.clone();
        let r = AbsPath { segs };
        proof {
            assert forall|i: int| 0 <= i < r.segs@.len() implies r.segs@[i]@ == self.segs@[i]@ by {
                assert(cloned::<String>(self.segs@[i], r.segs@[i]));
            }
            assert(r@ =~= self@);
        }
        r
    }

    /// The directory `n` levels below the root on the way down to `self`.
    pub fn prefix(&self, n: usize) -> (r: AbsPath)
        requires
            n <= self@.len(),
        ensures
            r@ == self@.take(n as int),
    {
        let mut r = AbsPath { segs: Vec::new() };
        proof {
            assert(r@ =~= self@.take(0));
        }
        let mut i: usize = 0;
        while i < n
            invariant
                i <= n <= self.segs@.len(),
                r@ == self@.take(i as int),
            decreases n - i,
        {
            let x = self.segs[i].clone();
            r.seg_push(x);
            proof {
                assert(r@ =~= self@.take(i + 1));
            }
            i += 1;
        }
        r
    }

    /// Whether the two paths are the same directory.
    pub fn same_as(&self, other: &AbsPath) -> (r: bool)
        ensures
            r <==> self@ == other@,
    {
        if self.segs.len() != other.segs.len() {
            proof {
                assert(self@.len() != other@.len());
            }
            return false;
        }
        let n = self.segs.len();
        let mut i: usize = 0;
        while i < n
            invariant
                i <= n,
                n == self.segs@.len() == other.segs@.len(),
                forall|j: int| 0 <= j < i ==> self@[j] == other@[j],
            decreases n - i,
        {
            if !string_eq(&self.segs[i], &other.segs[i]) {
                proof {
                    assert(self@[i as int] != other@[i as int]);
                }
                return false;
            }
            i += 1;
        }
        proof {
            assert(self@ =~= other@);
        }
        true
    }

    /// Whether `self` is `pre` itself or nested somewhere below it.
    pub fn starts_with(&self, pre: &AbsPath) -> (r: bool)
        ensures
            r <==> pre@.is_prefix_of(self@),
    {
        if pre.segs.len() > self.segs.len() {
            return false;
        }
        let n = pre.segs.len();
        let mut i: usize = 0;
        while i < n
            invariant
                i <= n == pre.segs@.len(),
                n <= self.segs@.len(),
                forall|j: int| 0 <= j < i ==> self@[j] == pre@[j],
            decreases n - i,
        {
            if !string_eq(&self.segs[i], &pre.segs[i]) {
                proof {
                    assert(self@[i as int] != pre@[i as int]);
                }
                return false;
            }
            i += 1;
        }
        proof {
            assert(pre@ =~= self@.take(n as int));
        }
        true
    }

    /// Joins the relative path string `rel` onto `self`, resolving `.` and
    /// `..` lexically.
    pub fn join_rel(&self, rel: &str) -> (r: AbsPath)
        ensures
            r@ == spec_join(self@, rel@),
    {
        let mut out = self.dup();
        let n = rel.unicode_len();
        let mut cur = String::new();
        let mut i: usize = 0;
        while i < n
            invariant
                i <= n,
                n == rel@.len(),
                norm_fold(out@, split_from(rel@, i as int, cur@)) == spec_join(self@, rel@),
            decreases n - i,
        {
            let c = rel.get_char(i);
            if c == '/' {
                proof {
                    lemma_split_from_sep(rel@, i as int, cur@);
                    lemma_norm_fold_cons(out@, cur@, split_from(rel@, i + 1, Seq::empty()));
                }
                norm_push(&mut out, cur);
                cur = String::new();
            } else {
                proof {
                    lemma_split_from_chr(rel@, i as int, cur@);
                }
                let piece = rel.substring_char(i, i + 1);
                proof {
                    assert(cur@ + piece@ =~= cur@.push(rel@[i as int]));
                }
                cur.append(piece);
            }
            i += 1;
        }
        proof {
            lemma_split_from_end(rel@, n as int, cur@);
            lemma_norm_fold_cons(out@, cur@, Seq::empty());
            assert(seq![cur@] + Seq::<Seq<char>>::empty() =~= seq![cur@]);
        }
        norm_push(&mut out, cur);
        out
    }

    /// Normalizes a path given as raw segments, resolving `.` and `..`.
    pub fn normalize(&self) -> (r: AbsPath)
        ensures
            r@ == spec_normalize(self@),
    {
        let mut out = AbsPath { segs: Vec::new() };
        proof {
            assert(out@ =~= Seq::<Seq<char>>::empty());
            assert(self@.skip(0) =~= self@);
        }
        let n = self.segs.len();
        let mut i: usize = 0;
        while i < n
            invariant
                i <= n == self.segs@.len(),
                norm_fold(out@, self@.skip(i as int)) == spec_normalize(self@),
            decreases n - i,
        {
            let ghost prev = out@;
            let ghost tail = self@.skip(i as int);
            proof {
                assert(tail.len() > 0);
                assert(tail[0] == self@[i as int]);
                assert(tail.skip(1) =~= self@.skip(i + 1));
                assert(norm_fold(prev, tail) == norm_fold(norm_step(prev, tail[0]), tail.skip(1)));
            }
            norm_push(&mut out, self.segs[i].clone());
            i += 1;
        }
        proof {
            assert(self@.skip(n as int) =~= Seq::<Seq<char>>::empty());
        }
        out
    }

    /// Renders the path as a string: one `/` before each segment, so the
    /// filesystem root renders as the empty string.
    pub fn render(&self) -> (r: String)
        ensures
            r@ == spec_render(self@),
    {
        let mut out = String::new();
        proof {
            assert(self@.take(0) =~= Seq::<Seq<char>>::empty());
        }
        let n = self.segs.len();
        let mut i: usize = 0;
        while i < n
            invariant
                i <= n == self.segs@.len(),
                out@ == spec_render(self@.take(i as int)),
            decreases n - i,
        {
            out.append("/");
            out.append(self.segs[i].as_str());
            proof {
                reveal_strlit("/");
                assert(("/")@ =~= seq!['/']);
                let pref = self@.take(i + 1);
                assert(pref.drop_last() =~= self@.take(i as int));
                assert(pref.last() == self@[i as int]);
                assert(out@ == spec_render(pref));
            }
            i += 1;
        }
        proof {
            assert(self@.take(n as int) =~= self@);
        }
        out
    }
}

/// Renders a path as a string, one `/` before each segment.
pub open spec fn spec_render(p: Seq<Seq<char>>) -> Seq<char>
    decreases p.len(),
{
    if p.len() == 0 {
        Seq::empty()
    } else {
        spec_render(p.drop_last()) + seq!['/'] + p.last()
    }
}

/// The view of a list of paths.
pub open spec fn paths_view(v: Seq<AbsPath>) -> Seq<Seq<Seq<char>>> {
    Seq::new(v.len(), |i: int| v[i]@)
}

/// Whether the two strings hold the same characters.
pub fn string_eq(a: &String, b: &String) -> (r: bool)
    ensures
        r <==> a@ == b@,
{
    a.eq(b)
}

/// Appends the raw segment `comp` onto the normalized path `out`, resolving
/// `.` and `..`.
pub fn norm_push(out: &mut AbsPath, comp: String)
    ensures
        final(out)@ == norm_step(old(out)@, comp@),
{
    let l = comp.as_str().unicode_len();
    if l == 0 {
        return ;
    }
    if l == 1 && comp.as_str().get_char(0) == '.' {
        proof {
            assert(comp@ =~= seg_dot());
        }
        return ;
    }
    if l == 2 && comp.as_str().get_char(0) == '.' && comp.as_str().get_char(1) == '.' {
        proof {
            assert(comp@ =~= seg_dotdot());
        }
        if out.depth() > 0 {
            out.seg_pop();
        }
        return ;
    }
    proof {
        assert(seg_dot().len() == 1 && seg_dot()[0] == '.');
        assert(seg_dotdot().len() == 2 && seg_dotdot()[0] == '.' && seg_dotdot()[1] == '.');
        assert(comp@ != seg_dot() && comp@ != seg_dotdot());
    }
    out.seg_push(comp);
}

} // verus!
