//! A captured sysfs tree, and the queries the backends make of it.
//!
//! A backend never touches the filesystem: it is handed a `Tree`, the
//! attributes of some sysfs root keyed by their path relative to that root,
//! and answers from it. The daemon captures `/sys`; tests build a tree by
//! hand. Attribute values are read with surrounding white space trimmed.
use vstd::prelude::*;

use crate::text::{
    decimal, parse_i32, parse_i32_spec, parse_u32, parse_u32_spec, parse_u8, parse_u8_spec,
    push_decimal,
    chars_eq, chars_of, copy_chars, find_char, insert_sorted, lemma_lex_irreflexive, lemma_lex_total,
    lex_lt, slice_range, starts_with, strictly_sorted, trim, trimmed, views,
};

verus! {

/// Files of a sysfs root, keyed by path relative to the root
/// (`class/power_supply/BAT0/capacity`).
pub struct Tree {
    files: Vec<(Vec<char>, Vec<char>)>,
}

/// The contents of the first entry with path `p`.
pub open spec fn lookup(s: Seq<(Vec<char>, Vec<char>)>, p: Seq<char>) -> Option<Seq<char>>
    decreases s.len(),
{
    if s.len() == 0 {
        None
    } else if s[0].0@ == p {
        Some(s[0].1@)
    } else {
        lookup(s.drop_first(), p)
    }
}

proof fn lemma_lookup_some(s: Seq<(Vec<char>, Vec<char>)>, p: Seq<char>)
    ensures
        lookup(s, p) is Some <==> exists|i: int| 0 <= i < s.len() && #[trigger] s[i].0@ == p,
    decreases s.len(),
{
    if s.len() > 0 {
        lemma_lookup_some(s.drop_first(), p);
        if exists|i: int| 0 <= i < s.len() && #[trigger] s[i].0@ == p {
            let i = choose|i: int| 0 <= i < s.len() && #[trigger] s[i].0@ == p;
            if i > 0 {
                assert(s.drop_first()[i - 1].0@ == p);
            }
        }
        if exists|i: int| 0 <= i < s.len() - 1 && #[trigger] s.drop_first()[i].0@ == p {
            let i = choose|i: int| 0 <= i < s.len() - 1 && #[trigger] s.drop_first()[i].0@ == p;
            assert(s[i + 1].0@ == p);
        }
    }
}

proof fn lemma_lookup_skip(s: Seq<(Vec<char>, Vec<char>)>, p: Seq<char>, i: int)
    requires
        0 <= i <= s.len(),
        forall|j: int| 0 <= j < i ==> #[trigger] s[j].0@ != p,
    ensures
        lookup(s, p) == lookup(s.subrange(i, s.len() as int), p),
    decreases i,
{
    if i > 0 {
        let t = s.drop_first();
        assert forall|j: int| 0 <= j < i - 1 implies #[trigger] t[j].0@ != p by {
            assert(t[j] == s[j + 1]);
        }
        lemma_lookup_skip(t, p, i - 1);
        assert(t.subrange(i - 1, t.len() as int) =~= s.subrange(i, s.len() as int));
    } else {
        assert(s.subrange(0, s.len() as int) =~= s);
    }
}

proof fn lemma_lookup_push(s: Seq<(Vec<char>, Vec<char>)>, e: (Vec<char>, Vec<char>), p: Seq<char>)
    ensures
        lookup(s.push(e), p) == if lookup(s, p) is Some {
            lookup(s, p)
        } else if e.0@ == p {
            Some(e.1@)
        } else {
            None
        },
    decreases s.len(),
{
    if s.len() > 0 {
        assert(s.push(e).drop_first() =~= s.drop_first().push(e));
        assert(s.push(e)[0] == s[0]);
        lemma_lookup_push(s.drop_first(), e, p);
    } else {
        assert(s.push(e).drop_first() =~= Seq::<(Vec<char>, Vec<char>)>::empty());
        assert(s.push(e)[0] == e);
        assert(lookup(s.push(e).drop_first(), p) is None);
        assert(lookup(s, p) is None);
    }
}

proof fn lemma_lookup_update(
    s: Seq<(Vec<char>, Vec<char>)>,
    i: int,
    e: (Vec<char>, Vec<char>),
    p: Seq<char>,
)
    requires
        0 <= i < s.len(),
        s[i].0@ == e.0@,
        forall|j: int| 0 <= j < i ==> #[trigger] s[j].0@ != e.0@,
    ensures
        lookup(s.update(i, e), p) == if p == e.0@ {
            Some(e.1@)
        } else {
            lookup(s, p)
        },
    decreases s.len(),
{
    if i > 0 {
        assert(s.update(i, e).drop_first() =~= s.drop_first().update(i - 1, e));
        assert forall|j: int| 0 <= j < i - 1 implies #[trigger] s.drop_first()[j].0@ != e.0@ by {
            assert(s.drop_first()[j] == s[j + 1]);
        }
        lemma_lookup_update(s.drop_first(), i - 1, e, p);
    } else {
        assert(s.update(i, e).drop_first() =~= s.drop_first());
    }
}

proof fn lemma_lookup_remove(s: Seq<(Vec<char>, Vec<char>)>, i: int, p: Seq<char>)
    requires
        0 <= i < s.len(),
        s[i].0@ != p,
    ensures
        lookup(s.remove(i), p) == lookup(s, p),
    decreases s.len(),
{
    if i > 0 {
        assert(s.remove(i).drop_first() =~= s.drop_first().remove(i - 1));
        lemma_lookup_remove(s.drop_first(), i - 1, p);
    } else {
        assert(s.remove(0) =~= s.drop_first());
    }
}

/// `dir/name`.
pub open spec fn join(dir: Seq<char>, name: Seq<char>) -> Seq<char> {
    dir + seq!['/'] + name
}

/// Paths in one directory with names of different lengths differ.
pub proof fn lemma_join_lengths_differ(dir: Seq<char>, a: Seq<char>, b: Seq<char>)
    requires
        a.len() != b.len(),
    ensures
        join(dir, a) != join(dir, b),
{
    assert(join(dir, a).len() != join(dir, b).len());
}

/// Paths whose names end in different characters differ, wherever they are.
pub proof fn lemma_join_endings_differ(d1: Seq<char>, a: Seq<char>, d2: Seq<char>, b: Seq<char>)
    requires
        a.len() > 0,
        b.len() > 0,
        a.last() != b.last(),
    ensures
        join(d1, a) != join(d2, b),
{
    let x = join(d1, a);
    let y = join(d2, b);
    assert(x[x.len() - 1] == a.last());
    assert(y[y.len() - 1] == b.last());
}

/// A single path component: non-empty, without a separator.
pub open spec fn is_component(n: Seq<char>) -> bool {
    n.len() > 0 && forall|i: int| 0 <= i < n.len() ==> n[i] != '/'
}

/// `p` is `dir/n` itself or lies below it.
pub open spec fn lies_under(p: Seq<char>, dir: Seq<char>, n: Seq<char>) -> bool {
    let pre = join(dir, n);
    p == pre || (p.len() > pre.len() && p.subrange(0, pre.len() as int) == pre && p[pre.len() as int]
        == '/')
}

proof fn lemma_component_unique(p: Seq<char>, dir: Seq<char>, a: Seq<char>, b: Seq<char>)
    requires
        is_component(a),
        is_component(b),
        lies_under(p, dir, a),
        lies_under(p, dir, b),
    ensures
        a == b,
{
    let pa = join(dir, a);
    let pb = join(dir, b);
    let k = dir.len() + 1;
    assert(p.subrange(0, pa.len() as int) == pa);
    assert(p.subrange(0, pb.len() as int) == pb);
    if a.len() < b.len() {
        assert(p.len() > pa.len());
        assert(p[pa.len() as int] == '/');
        assert(pb[pa.len() as int] == b[a.len() as int]);
        assert(p.subrange(0, pb.len() as int)[pa.len() as int] == p[pa.len() as int]);
        assert(false);
    } else if b.len() < a.len() {
        assert(p.len() > pb.len());
        assert(p[pb.len() as int] == '/');
        assert(pa[pb.len() as int] == a[b.len() as int]);
        assert(p.subrange(0, pa.len() as int)[pb.len() as int] == p[pb.len() as int]);
        assert(false);
    } else {
        assert forall|i: int| 0 <= i < a.len() implies a[i] == b[i] by {
            assert(pa[k + i] == a[i]);
            assert(pb[k + i] == b[i]);
            assert(p.subrange(0, pa.len() as int)[k + i] == p[k + i]);
            assert(p.subrange(0, pb.len() as int)[k + i] == p[k + i]);
        }
        assert(a =~= b);
    }
}

/// Two strictly sorted lists with the same elements are the same list.
pub proof fn lemma_sorted_unique(a: Seq<Seq<char>>, b: Seq<Seq<char>>)
    requires
        strictly_sorted(a),
        strictly_sorted(b),
        forall|y: Seq<char>| a.contains(y) <==> b.contains(y),
    ensures
        a == b,
    decreases a.len(),
{
    if a.len() == 0 {
        if b.len() > 0 {
            assert(b.contains(b[0]));
        }
        assert(a =~= b);
    } else {
        assert(a.contains(a[0]));
        assert(b.len() > 0);
        assert(b.contains(b[0]));
        let i = choose|i: int| 0 <= i < a.len() && a[i] == b[0];
        let j = choose|j: int| 0 <= j < b.len() && b[j] == a[0];
        if a[0] != b[0] {
            assert(i > 0 && j > 0);
            assert(lex_lt(a[0], a[i]));
            assert(lex_lt(b[0], b[j]));
            lemma_lex_total(a[0], b[0]);
        }
        let ta = a.drop_first();
        let tb = b.drop_first();
        assert forall|x: int, y: int| 0 <= x < y < ta.len() implies lex_lt(
            #[trigger] ta[x],
            #[trigger] ta[y],
        ) by {
            assert(ta[x] == a[x + 1] && ta[y] == a[y + 1]);
        }
        assert forall|x: int, y: int| 0 <= x < y < tb.len() implies lex_lt(
            #[trigger] tb[x],
            #[trigger] tb[y],
        ) by {
            assert(tb[x] == b[x + 1] && tb[y] == b[y + 1]);
        }
        assert forall|y: Seq<char>| ta.contains(y) <==> tb.contains(y) by {
            if ta.contains(y) {
                let k = choose|k: int| 0 <= k < ta.len() && ta[k] == y;
                assert(a[k + 1] == y);
                assert(lex_lt(a[0], a[k + 1]));
                lemma_lex_irreflexive(y);
                assert(a.contains(y));
                let m = choose|m: int| 0 <= m < b.len() && b[m] == y;
                assert(m != 0);
                assert(tb[m - 1] == y);
            }
            if tb.contains(y) {
                let k = choose|k: int| 0 <= k < tb.len() && tb[k] == y;
                assert(b[k + 1] == y);
                assert(lex_lt(b[0], b[k + 1]));
                lemma_lex_irreflexive(y);
                assert(b.contains(y));
                let m = choose|m: int| 0 <= m < a.len() && a[m] == y;
                assert(m != 0);
                assert(ta[m - 1] == y);
            }
        }
        lemma_sorted_unique(ta, tb);
        assert(a =~= seq![a[0]] + ta);
        assert(b =~= seq![b[0]] + tb);
    }
}

/// The contents at `path` once `writes` have been made in order on top of
/// `before`, each write replacing the whole file at its path.
pub open spec fn written(
    before: Option<Seq<char>>,
    writes: Seq<(Seq<char>, Seq<char>)>,
    path: Seq<char>,
) -> Option<Seq<char>>
    decreases writes.len(),
{
    if writes.len() == 0 {
        before
    } else if writes.last().0 == path {
        Some(writes.last().1)
    } else {
        written(before, writes.drop_last(), path)
    }
}

/// `after` is `before` with `writes` carried out in order.
pub open spec fn after_writes(before: Tree, writes: Seq<(Seq<char>, Seq<char>)>, after: Tree) -> bool {
    forall|p: Seq<char>| #[trigger] after.file(p) == written(before.file(p), writes, p)
}

/// Writes made in two batches leave what the second batch makes of what the
/// first one left.
pub proof fn lemma_written_concat(
    before: Option<Seq<char>>,
    first: Seq<(Seq<char>, Seq<char>)>,
    second: Seq<(Seq<char>, Seq<char>)>,
    path: Seq<char>,
)
    ensures
        written(before, first + second, path) == written(written(before, first, path), second, path),
    decreases second.len(),
{
    if second.len() == 0 {
        assert(first + second =~= first);
    } else {
        assert((first + second).drop_last() =~= first + second.drop_last());
        assert((first + second).last() == second.last());
        lemma_written_concat(before, first, second.drop_last(), path);
    }
}

/// Writes to other paths leave a file as it was.
pub proof fn lemma_written_elsewhere(
    before: Option<Seq<char>>,
    writes: Seq<(Seq<char>, Seq<char>)>,
    path: Seq<char>,
)
    requires
        forall|i: int| 0 <= i < writes.len() ==> (#[trigger] writes[i]).0 != path,
    ensures
        written(before, writes, path) == before,
    decreases writes.len(),
{
    if writes.len() > 0 {
        let rest = writes.drop_last();
        assert forall|i: int| 0 <= i < rest.len() implies (#[trigger] rest[i]).0 != path by {
            assert(rest[i] == writes[i]);
        }
        assert(writes.last() == writes[writes.len() - 1]);
        lemma_written_elsewhere(before, rest, path);
    }
}

impl Tree {
    /// The raw contents of the file at `path`, if the tree has one.
    pub closed spec fn file(&self, path: Seq<char>) -> Option<Seq<char>> {
        lookup(self.files@, path)
    }

    /// The attribute at `path`, white space trimmed: what reading it gives.
    pub open spec fn attr(&self, path: Seq<char>) -> Option<Seq<char>> {
        match self.file(path) {
            Some(c) => Some(trim(c)),
            None => None,
        }
    }

    /// The entries directly inside `dir`.
    pub open spec fn children(&self, dir: Seq<char>) -> Set<Seq<char>> {
        Set::new(
            |n: Seq<char>|
                is_component(n) && exists|p: Seq<char>| #[trigger]
                    self.file(p) is Some && lies_under(p, dir, n),
        )
    }

    /// The entries directly inside `dir`, in sorted order.
    pub open spec fn listing(&self, dir: Seq<char>) -> Seq<Seq<char>> {
        choose|s: Seq<Seq<char>>|
            strictly_sorted(s) && forall|y: Seq<char>| #[trigger]
                s.contains(y) <==> self.children(dir).contains(y)
    }

    /// The number of files, which bounds how many numbered attributes can be
    /// present.
    pub closed spec fn size(&self) -> nat {
        self.files@.len()
    }

    /// An empty tree.
    pub fn new() -> (t: Tree)
        ensures
            forall|p: Seq<char>| t.file(p) is None,
    {
        Tree { files: Vec::new() }
    }

    /// Puts a file into the tree, replacing one at the same path.
    pub fn insert(&mut self, path: &str, contents: &str)
        ensures
            final(self).file(path@) == Some(contents@),
            forall|p: Seq<char>| p != path@ ==> final(self).file(p) == old(self).file(p),
    {
        let key = chars_of(path);
        let value = chars_of(contents);
        let n = self.files.len();
        let mut i: usize = 0;
        while i < n
            invariant
                i <= n,
                n == self.files.len(),
                key@ == path@,
                value@ == contents@,
                self.files@ == old(self).files@,
                forall|j: int| 0 <= j < i ==> #[trigger] self.files@[j].0@ != key@,
            decreases n - i,
        {
            if chars_eq(&self.files[i].0, &key) {
                let ghost before = self.files@;
                let entry = (key, value);
                let ghost e = entry;
                self.files.set(i, entry);
                proof {
                    assert forall|p: Seq<char>| #[trigger] lookup(self.files@, p) == if p == e.0@ {
                        Some(e.1@)
                    } else {
                        lookup(before, p)
                    } by {
                        lemma_lookup_update(before, i as int, e, p);
                    }
                }
                return;
            }
            i += 1;
        }
        let ghost before = self.files@;
        proof {
            assert forall|p: Seq<char>| p == key@ implies lookup(before, p) is None by {
                lemma_lookup_some(before, p);
            }
        }
        let entry = (key, value);
        let ghost e = entry;
        self.files.push(entry);
        proof {
            assert forall|p: Seq<char>| #[trigger] lookup(self.files@, p) == if lookup(
                before,
                p,
            ) is Some {
                lookup(before, p)
            } else if e.0@ == p {
                Some(e.1@)
            } else {
                None
            } by {
                lemma_lookup_push(before, e, p);
            }
        }
    }

    /// Takes the file at `path` out of the tree.
    pub fn remove(&mut self, path: &str)
        ensures
            final(self).file(path@) is None,
            forall|p: Seq<char>| p != path@ ==> final(self).file(p) == old(self).file(p),
    {
        let key = chars_of(path);
        let ghost initial = self.files@;
        let mut i: usize = 0;
        while i < self.files.len()
            invariant
                i <= self.files.len(),
                key@ == path@,
                forall|j: int| 0 <= j < i ==> #[trigger] self.files@[j].0@ != key@,
                forall|p: Seq<char>| p != key@ ==> lookup(self.files@, p) == lookup(initial, p),
            decreases self.files.len() - i,
        {
            if chars_eq(&self.files[i].0, &key) {
                let ghost before = self.files@;
                self.files.remove(i);
                proof {
                    assert forall|p: Seq<char>| p != key@ implies lookup(self.files@, p) == lookup(
                        before,
                        p,
                    ) by {
                        lemma_lookup_remove(before, i as int, p);
                    }
                    assert forall|j: int| 0 <= j < i implies #[trigger] self.files@[j].0@
                        != key@ by {
                        assert(self.files@[j] == before[j]);
                    }
                }
            } else {
                i += 1;
            }
        }
        proof {
            lemma_lookup_some(self.files@, key@);
        }
    }

    /// The trimmed attribute at `path`.
    pub fn read_opt(&self, path: &[char]) -> (r: Option<Vec<char>>)
        ensures
            match r {
                Some(v) => self.attr(path@) == Some(v@),
                None => self.attr(path@) is None,
            },
    {
        let n = self.files.len();
        let mut i: usize = 0;
        proof {
            lemma_lookup_skip(self.files@, path@, 0);
        }
        while i < n
            invariant
                i <= n,
                n == self.files.len(),
                forall|j: int| 0 <= j < i ==> #[trigger] self.files@[j].0@ != path@,
            decreases n - i,
        {
            if chars_eq(&self.files[i].0, path) {
                proof {
                    lemma_lookup_skip(self.files@, path@, i as int);
                    let t = self.files@.subrange(i as int, n as int);
                    assert(t[0] == self.files@[i as int]);
                }
                return Some(trimmed(&self.files[i].1));
            }
            i += 1;
        }
        proof {
            lemma_lookup_some(self.files@, path@);
        }
        None
    }

    /// Whether a file exists at `path`.
    pub fn has_file(&self, path: &[char]) -> (r: bool)
        ensures
            r == (self.file(path@) is Some),
    {
        self.read_opt(path).is_some()
    }

    /// The entries directly inside `dir`, sorted.
    pub fn list(&self, dir: &[char]) -> (r: Vec<Vec<char>>)
        ensures
            views(r@) == self.listing(dir@),
            forall|i: int| 0 <= i < r@.len() ==> is_component(#[trigger] r@[i]@),
    {
        let mut prefix = copy_chars(dir);
        prefix.push('/');
        let ghost pre = prefix@;
        assert(pre == dir@ + seq!['/']);
        let start = prefix.len();
        let mut out: Vec<Vec<char>> = Vec::new();
        let n = self.files.len();
        let mut i: usize = 0;
        while i < n
            invariant
                i <= n,
                n == self.files.len(),
                prefix@ == pre,
                start == pre.len(),
                pre == dir@ + seq!['/'],
                strictly_sorted(views(out@)),
                forall|k: int| 0 <= k < out@.len() ==> is_component(#[trigger] out@[k]@),
                forall|y: Seq<char>| #[trigger]
                    views(out@).contains(y) <==> is_component(y) && exists|j: int|
                        0 <= j < i && lies_under(#[trigger] self.files@[j].0@, dir@, y),
            decreases n - i,
        {
            let path = &self.files[i].0;
            let ghost p = path@;
            if starts_with(path, &prefix) {
                let end = match find_char(path, '/', start) {
                    Some(k) => k,
                    None => path.len(),
                };
                let name = slice_range(path, start, end);
                let ghost nm = name@;
                proof {
                    assert(join(dir@, nm) =~= p.subrange(0, end as int));
                    if end < p.len() {
                        assert(p.subrange(0, join(dir@, nm).len() as int) == join(dir@, nm));
                    } else {
                        assert(p.subrange(0, p.len() as int) =~= p);
                    }
                    assert(lies_under(p, dir@, nm));
                    assert forall|k: int| 0 <= k < nm.len() implies nm[k] != '/' by {
                        assert(nm[k] == p[start + k]);
                    }
                }
                if name.len() > 0 {
                    let ghost prev = views(out@);
                    insert_sorted(&mut out, name);
                    proof {
                        let now = views(out@);
                        assert forall|k: int| 0 <= k < out@.len() implies is_component(
                            #[trigger] out@[k]@,
                        ) by {
                            assert(now.contains(now[k]));
                            if now[k] != nm {
                                let m = choose|m: int| 0 <= m < prev.len() && prev[m] == now[k];
                            }
                        }
                    }
                }
                proof {
                    assert forall|y: Seq<char>| #[trigger]
                        views(out@).contains(y) <==> is_component(y) && exists|j: int|
                            0 <= j < i + 1 && lies_under(#[trigger] self.files@[j].0@, dir@, y) by {
                        if is_component(y) && lies_under(p, dir@, y) && nm.len() > 0 {
                            lemma_component_unique(p, dir@, y, nm);
                        }
                        if is_component(y) && lies_under(p, dir@, y) && nm.len() == 0 {
                            let q = join(dir@, y);
                            assert(p.subrange(0, q.len() as int) == q || p == q);
                            if end < p.len() {
                                assert(p[start as int] == '/');
                                assert(q[start as int] == y[0]);
                                if p == q {
                                } else {
                                    assert(p.subrange(0, q.len() as int)[start as int] == p[start as int]);
                                }
                            }
                        }
                        if exists|j: int| 0 <= j < i + 1 && lies_under(#[trigger] self.files@[j].0@, dir@, y) {
                            let j = choose|j: int| 0 <= j < i + 1 && lies_under(#[trigger] self.files@[j].0@, dir@, y);
                            if j < i {
                                assert(exists|j: int| 0 <= j < i && lies_under(#[trigger] self.files@[j].0@, dir@, y));
                            }
                        }
                    }
                }
            } else {
                proof {
                    assert forall|y: Seq<char>| #[trigger]
                        views(out@).contains(y) <==> is_component(y) && exists|j: int|
                            0 <= j < i + 1 && lies_under(#[trigger] self.files@[j].0@, dir@, y) by {
                        if lies_under(p, dir@, y) {
                            let q = join(dir@, y);
                            assert(q.subrange(0, pre.len() as int) =~= pre);
                            if p != q {
                                assert(p.subrange(0, pre.len() as int) =~= p.subrange(0, q.len() as int).subrange(0, pre.len() as int));
                            }
                            assert(false);
                        }
                        if exists|j: int| 0 <= j < i + 1 && lies_under(#[trigger] self.files@[j].0@, dir@, y) {
                            let j = choose|j: int| 0 <= j < i + 1 && lies_under(#[trigger] self.files@[j].0@, dir@, y);
                            if j < i {
                                assert(exists|j: int| 0 <= j < i && lies_under(#[trigger] self.files@[j].0@, dir@, y));
                            }
                        }
                    }
                }
            }
            i += 1;
        }
        proof {
            let v = views(out@);
            assert forall|y: Seq<char>| #[trigger] v.contains(y) <==> self.children(dir@).contains(y) by {
                if v.contains(y) {
                    let j = choose|j: int| 0 <= j < n && lies_under(#[trigger] self.files@[j].0@, dir@, y);
                    let p = self.files@[j].0@;
                    lemma_lookup_some(self.files@, p);
                    assert(self.file(p) is Some);
                }
                if self.children(dir@).contains(y) {
                    let p = choose|p: Seq<char>| #[trigger] self.file(p) is Some && lies_under(p, dir@, y);
                    lemma_lookup_some(self.files@, p);
                    let j = choose|j: int| 0 <= j < self.files@.len() && #[trigger] self.files@[j].0@ == p;
                    assert(lies_under(self.files@[j].0@, dir@, y));
                }
            }
            let s = self.listing(dir@);
            lemma_sorted_unique(s, v);
        }
        out
    }
}


impl Tree {
    /// How many files the tree holds.
    pub fn len(&self) -> (r: usize)
        ensures
            r == self.size(),
    {
        self.files.len()
    }

    pub open spec fn read_u8_spec(&self, path: Seq<char>) -> Option<u8> {
        match self.attr(path) {
            Some(c) => parse_u8_spec(c),
            None => None,
        }
    }

    pub open spec fn read_u32_spec(&self, path: Seq<char>) -> Option<u32> {
        match self.attr(path) {
            Some(c) => parse_u32_spec(c),
            None => None,
        }
    }

    pub open spec fn read_i32_spec(&self, path: Seq<char>) -> Option<i32> {
        match self.attr(path) {
            Some(c) => parse_i32_spec(c),
            None => None,
        }
    }

    /// An attribute read as a `u8`; absent or unparsable reads as `None`.
    pub fn read_u8(&self, path: &[char]) -> (r: Option<u8>)
        ensures
            r == self.read_u8_spec(path@),
    {
        match self.read_opt(path) {
            Some(v) => parse_u8(&v),
            None => None,
        }
    }

    pub fn read_u32(&self, path: &[char]) -> (r: Option<u32>)
        ensures
            r == self.read_u32_spec(path@),
    {
        match self.read_opt(path) {
            Some(v) => parse_u32(&v),
            None => None,
        }
    }

    pub fn read_i32(&self, path: &[char]) -> (r: Option<i32>)
        ensures
            r == self.read_i32_spec(path@),
    {
        match self.read_opt(path) {
            Some(v) => parse_i32(&v),
            None => None,
        }
    }
}

/// `dir/name`.
pub fn join_path(dir: &[char], name: &str) -> (r: Vec<char>)
    ensures
        r@ == join(dir@, name@),
{
    let mut r = copy_chars(dir);
    r.push('/');
    let n = chars_of(name);
    let mut i: usize = 0;
    while i < n.len()
        invariant
            i <= n.len(),
            r@ == dir@ + seq!['/'] + n@.take(i as int),
        decreases n.len() - i,
    {
        r.push(n[i]);
        assert(n@.take(i as int).push(n@[i as int]) =~= n@.take(i + 1));
        assert(dir@ + seq!['/'] + n@.take(i + 1) =~= (dir@ + seq!['/'] + n@.take(i as int)).push(n@[i as int]));
        i += 1;
    }
    assert(n@.take(n.len() as int) =~= n@);
    r
}

/// `dir/name` for a name held as characters.
pub fn join_chars(dir: &[char], name: &[char]) -> (r: Vec<char>)
    ensures
        r@ == join(dir@, name@),
{
    let mut r = copy_chars(dir);
    r.push('/');
    let mut i: usize = 0;
    while i < name.len()
        invariant
            i <= name.len(),
            r@ == dir@ + seq!['/'] + name@.take(i as int),
        decreases name.len() - i,
    {
        r.push(name[i]);
        assert(name@.take(i as int).push(name@[i as int]) =~= name@.take(i + 1));
        assert(dir@ + seq!['/'] + name@.take(i + 1) =~= (dir@ + seq!['/'] + name@.take(i as int)).push(name@[i as int]));
        i += 1;
    }
    assert(name@.take(name.len() as int) =~= name@);
    r
}

/// The devices of a class (`class/hwmon`), as paths, in sorted order.
pub open spec fn devices(tree: Tree, class: Seq<char>) -> Seq<Seq<char>> {
    tree.listing(class).map_values(|n: Seq<char>| join(class, n))
}

/// Of the devices named in `names`, in that order, those whose attribute
/// `attr` reads `wanted`.
pub open spec fn select(
    tree: Tree,
    class: Seq<char>,
    names: Seq<Seq<char>>,
    attr: Seq<char>,
    wanted: Seq<char>,
) -> Seq<Seq<char>>
    decreases names.len(),
{
    if names.len() == 0 {
        Seq::empty()
    } else {
        let rest = select(tree, class, names.drop_last(), attr, wanted);
        let dev = join(class, names.last());
        if tree.attr(join(dev, attr)) == Some(wanted) {
            rest.push(dev)
        } else {
            rest
        }
    }
}

/// The devices of `class` whose `attr` reads `wanted`, in sorted order.
pub open spec fn devices_where(tree: Tree, class: Seq<char>, attr: Seq<char>, wanted: Seq<char>) -> Seq<
    Seq<char>,
> {
    select(tree, class, tree.listing(class), attr, wanted)
}

/// Every device of a class, as paths in sorted order.
///
/// Directory order from the kernel follows probe order, which changes between
/// boots; sorting keeps a snapshot comparable with the one before it.
pub fn devices_of(tree: &Tree, class: &[char]) -> (r: Vec<Vec<char>>)
    ensures
        views(r@) == devices(*tree, class@),
{
    let names = tree.list(class);
    let mut out: Vec<Vec<char>> = Vec::new();
    let mut i: usize = 0;
    while i < names.len()
        invariant
            i <= names.len(),
            views(names@) == tree.listing(class@),
            out@.len() == i,
            forall|k: int| 0 <= k < i ==> #[trigger] out@[k]@ == join(class@, names@[k]@),
        decreases names.len() - i,
    {
        let d = join_chars(class, &names[i]);
        out.push(d);
        i += 1;
    }
    proof {
        let a = views(out@);
        let b = devices(*tree, class@);
        assert(a.len() == b.len());
        assert forall|k: int| 0 <= k < a.len() implies a[k] == b[k] by {
            assert(views(names@)[k] == names@[k]@);
        }
        assert(a =~= b);
    }
    out
}

/// The devices of `class` whose `attr` reads `wanted`, sorted.
pub fn devices_with(tree: &Tree, class: &[char], attr: &str, wanted: &[char]) -> (r: Vec<Vec<char>>)
    ensures
        views(r@) == devices_where(*tree, class@, attr@, wanted@),
{
    let names = tree.list(class);
    let ghost ns = views(names@);
    let mut out: Vec<Vec<char>> = Vec::new();
    let mut i: usize = 0;
    while i < names.len()
        invariant
            i <= names.len(),
            ns == views(names@),
            ns == tree.listing(class@),
            views(out@) == select(*tree, class@, ns.take(i as int), attr@, wanted@),
        decreases names.len() - i,
    {
        let d = join_chars(class, &names[i]);
        let a = join_path(&d, attr);
        let v = tree.read_opt(&a);
        proof {
            assert(ns.take(i + 1).drop_last() =~= ns.take(i as int));
            assert(ns.take(i + 1).last() == names@[i as int]@);
        }
        let matched = match v {
            Some(val) => crate::text::chars_eq(&val, wanted),
            None => false,
        };
        if matched {
            let ghost before = views(out@);
            out.push(d);
            assert(views(out@) =~= before.push(d@));
        }
        i += 1;
    }
    assert(ns.take(names.len() as int) =~= ns);
    out
}

/// The first of `names`, in order, that some hwmon chip carries.
pub open spec fn first_hwmon(tree: Tree, names: Seq<Seq<char>>) -> Option<Seq<char>>
    decreases names.len(),
{
    if names.len() == 0 {
        None
    } else {
        let found = devices_where(tree, "class/hwmon"@, "name"@, names[0]);
        if found.len() > 0 {
            Some(found[0])
        } else {
            first_hwmon(tree, names.drop_first())
        }
    }
}

/// The hwmon chip whose `name` attribute matches (the first by directory
/// name when several do).
pub fn hwmon_by_name(tree: &Tree, wanted: &str) -> (r: Option<Vec<char>>)
    ensures
        match r {
            Some(d) => devices_where(*tree, "class/hwmon"@, "name"@, wanted@).len() > 0 && d@
                == devices_where(*tree, "class/hwmon"@, "name"@, wanted@)[0],
            None => devices_where(*tree, "class/hwmon"@, "name"@, wanted@).len() == 0,
        },
{
    let w = chars_of(wanted);
    let mut found = devices_with(tree, &chars_of("class/hwmon"), "name", &w);
    if found.len() > 0 {
        Some(found.remove(0))
    } else {
        None
    }
}

/// The first hwmon chip matching any of `wanted`, in the caller's order of
/// preference rather than the kernel's order of probing.
pub fn hwmon_by_any_name(tree: &Tree, wanted: &[&str]) -> (r: Option<Vec<char>>)
    ensures
        match r {
            Some(d) => first_hwmon(*tree, wanted@.map_values(|s: &str| s@)) == Some(d@),
            None => first_hwmon(*tree, wanted@.map_values(|s: &str| s@)) is None,
        },
{
    let ghost all = wanted@.map_values(|s: &str| s@);
    assert(all.subrange(0, all.len() as int) =~= all);
    let mut i: usize = 0;
    while i < wanted.len()
        invariant
            i <= wanted.len(),
            all == wanted@.map_values(|s: &str| s@),
            first_hwmon(*tree, all) == first_hwmon(*tree, all.subrange(i as int, all.len() as int)),
        decreases wanted.len() - i,
    {
        let ghost rest = all.subrange(i as int, all.len() as int);
        assert(rest[0] == wanted@[i as int]@);
        assert(rest.drop_first() =~= all.subrange(i + 1, all.len() as int));
        match hwmon_by_name(tree, wanted[i]) {
            Some(d) => {
                return Some(d);
            },
            None => {},
        }
        i += 1;
    }
    let ghost rest = all.subrange(i as int, all.len() as int);
    assert(rest.len() == 0);
    None
}

/// Every device of class `power_supply` whose `type` is `wanted`, sorted, so
/// `BAT0` always comes before `BAT1`.
pub fn power_supplies_of_type(tree: &Tree, wanted: &str) -> (r: Vec<Vec<char>>)
    ensures
        views(r@) == devices_where(*tree, "class/power_supply"@, "type"@, wanted@),
{
    devices_with(tree, &chars_of("class/power_supply"), "type", &chars_of(wanted))
}

/// The first power supply of a type, if any.
pub open spec fn first_supply(tree: Tree, wanted: Seq<char>) -> Option<Seq<char>> {
    let all = devices_where(tree, "class/power_supply"@, "type"@, wanted);
    if all.len() > 0 {
        Some(all[0])
    } else {
        None
    }
}

pub fn first_power_supply(tree: &Tree, wanted: &str) -> (r: Option<Vec<char>>)
    ensures
        match r {
            Some(d) => first_supply(*tree, wanted@) == Some(d@),
            None => first_supply(*tree, wanted@) is None,
        },
{
    let mut all = power_supplies_of_type(tree, wanted);
    if all.len() > 0 {
        Some(all.remove(0))
    } else {
        None
    }
}

/// `dir/fan<i>_input`.
pub open spec fn fan_path(dir: Seq<char>, i: nat) -> Seq<char> {
    join(dir, "fan"@ + decimal(i) + "_input"@)
}

/// Fan speeds from `fan<i>_input` on, stopping at the first attribute that is
/// missing or not a number (fans are numbered from 1 and the count varies by
/// model). No tree holds more numbered fans than it holds files.
pub open spec fn fans_from(tree: Tree, dir: Seq<char>, i: nat) -> Seq<u32>
    decreases tree.size() + 1 - i,
{
    if i > tree.size() || i == 0 {
        Seq::empty()
    } else {
        match tree.read_u32_spec(fan_path(dir, i)) {
            Some(v) => seq![v] + fans_from(tree, dir, i + 1),
            None => Seq::empty(),
        }
    }
}

/// The fan speeds a hwmon chip reports, in fan order.
pub open spec fn fans(tree: Tree, dir: Seq<char>) -> Seq<u32> {
    fans_from(tree, dir, 1)
}

fn fan_path_exec(dir: &[char], i: u64) -> (r: Vec<char>)
    ensures
        r@ == fan_path(dir@, i as nat),
{
    let mut name = chars_of("fan");
    let ghost start = name@;
    push_decimal(&mut name, i);
    let tail = chars_of("_input");
    let mut k: usize = 0;
    while k < tail.len()
        invariant
            k <= tail.len(),
            name@ == start + decimal(i as nat) + tail@.take(k as int),
        decreases tail.len() - k,
    {
        name.push(tail[k]);
        assert(tail@.take(k as int).push(tail@[k as int]) =~= tail@.take(k + 1));
        assert(start + decimal(i as nat) + tail@.take(k + 1) =~= (start + decimal(i as nat) + tail@.take(k as int)).push(tail@[k as int]));
        k += 1;
    }
    assert(tail@.take(tail.len() as int) =~= tail@);
    join_chars(dir, &name)
}

/// The fan speeds under `dir`, from `fan1_input` up to the first gap.
pub fn read_fans(tree: &Tree, dir: &[char]) -> (r: Vec<u32>)
    ensures
        r@ == fans(*tree, dir@),
{
    let n = tree.len();
    let mut out: Vec<u32> = Vec::new();
    let mut i: usize = 1;
    while i <= n
        invariant
            1 <= i <= n + 1,
            n == tree.size(),
            out@ + fans_from(*tree, dir@, i as nat) == fans(*tree, dir@),
        decreases n + 1 - i,
    {
        let p = fan_path_exec(dir, i as u64);
        match tree.read_u32(&p) {
            Some(v) => {
                assert(out@.push(v) + fans_from(*tree, dir@, (i + 1) as nat) =~= out@ + (seq![v]
                    + fans_from(*tree, dir@, (i + 1) as nat)));
                out.push(v);
            },
            None => {
                assert(out@ + Seq::<u32>::empty() =~= out@);
                return out;
            },
        }
        if i == n {
            assert(out@ + Seq::<u32>::empty() =~= out@);
            return out;
        }
        i += 1;
    }
    assert(out@ + Seq::<u32>::empty() =~= out@);
    out
}

} // verus!
