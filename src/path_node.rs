use vstd::prelude::*;
use crate::config::Config;
use crate::compare_functions::{compare_spec, sorted_by, PathNodeCompare};
use std::cmp::Ordering;
use crate::tree_index::{lemma_path_lt_cons, lemma_path_lt_irreflexive, path_lt, TreeIndex};

verus! {

/// One entry of the viewed hierarchy and, once expanded, the entries below it.
#[derive(Debug)]
pub struct PathNode {
    pub children: Vec<PathNode>,
    pub display_text: String,
    pub is_dir: bool,
    pub is_err: bool,
    pub is_expanded: bool,
    pub path: String,
}

/// Each path of `s` with the offset `k` put in front.
pub open spec fn prefixed(k: int, s: Seq<Seq<int>>) -> Seq<Seq<int>> {
    s.map_values(|p: Seq<int>| seq![k] + p)
}

/// The visible rows below `n`, in pre-order: the path of each descendant,
/// relative to `n`. `n` itself is not a row.
pub open spec fn rows(n: PathNode) -> Seq<Seq<int>>
    decreases n,
{
    child_rows(n.children@)
}

/// The rows contributed by the sibling list `cs`: for each child, in order,
/// its own row followed by the rows below it.
pub open spec fn child_rows(cs: Seq<PathNode>) -> Seq<Seq<int>>
    decreases cs,
{
    if cs.len() == 0 {
        Seq::empty()
    } else {
        let k = cs.len() - 1;
        child_rows(cs.subrange(0, k)) + seq![seq![k]] + prefixed(k, rows(cs[k]))
    }
}


/// Index `i` of the rows of `cs`: the row of child `i` and the rows below it.
pub open spec fn child_block(cs: Seq<PathNode>, i: int) -> Seq<Seq<int>> {
    seq![seq![i]] + prefixed(i, rows(cs[i]))
}

/// How many paths of `s` come before `t`.
pub open spec fn count_before(s: Seq<Seq<int>>, t: Seq<int>) -> nat
    decreases s.len(),
{
    if s.len() == 0 {
        0
    } else {
        count_before(s.drop_last(), t) + if path_lt(s.last(), t) {
            1nat
        } else {
            0nat
        }
    }
}

/// The paths of `s` strictly increase.
pub open spec fn strictly_sorted(s: Seq<Seq<int>>) -> bool {
    forall|i: int, j: int| 0 <= i < j < s.len() ==> path_lt(#[trigger] s[i], #[trigger] s[j])
}

pub proof fn lemma_child_rows_step(cs: Seq<PathNode>, i: int)
    requires
        0 <= i < cs.len(),
    ensures
        child_rows(cs.subrange(0, i + 1)) == child_rows(cs.subrange(0, i)) + child_block(cs, i),
{
    let s = cs.subrange(0, i + 1);
    assert(s.subrange(0, i) =~= cs.subrange(0, i));
    assert(s[i] == cs[i]);
}

pub proof fn lemma_child_rows_prefix(cs: Seq<PathNode>, j: int)
    requires
        0 <= j <= cs.len(),
    ensures
        child_rows(cs.subrange(0, j)).len() <= child_rows(cs).len(),
        child_rows(cs).subrange(0, child_rows(cs.subrange(0, j)).len() as int) == child_rows(
            cs.subrange(0, j),
        ),
    decreases cs.len(),
{
    if j == cs.len() {
        assert(cs.subrange(0, j) =~= cs);
        assert(child_rows(cs).subrange(0, child_rows(cs).len() as int) =~= child_rows(cs));
    } else {
        let k = cs.len() - 1;
        let c2 = cs.subrange(0, k);
        assert(c2.subrange(0, j) =~= cs.subrange(0, j));
        lemma_child_rows_prefix(c2, j);
        let a = child_rows(c2);
        let b = seq![seq![k]] + prefixed(k, rows(cs[k]));
        assert(child_rows(cs) == a + b);
        let m = child_rows(cs.subrange(0, j)).len() as int;
        assert((a + b).subrange(0, m) =~= a.subrange(0, m));
    }
}

pub proof fn lemma_child_rows_len(cs: Seq<PathNode>, i: int)
    requires
        0 <= i < cs.len(),
    ensures
        child_rows(cs.subrange(0, i)).len() + 1 + rows(cs[i]).len() <= child_rows(cs).len(),
{
    lemma_child_rows_step(cs, i);
    lemma_child_rows_prefix(cs, i + 1);
}

/// The row at position `x` of the rows of `cs`, when it falls in the block of child `i`.
pub proof fn lemma_child_rows_index(cs: Seq<PathNode>, i: int, x: int)
    requires
        0 <= i < cs.len(),
        child_rows(cs.subrange(0, i)).len() <= x,
        x < child_rows(cs.subrange(0, i)).len() + 1 + rows(cs[i]).len(),
    ensures
        x == child_rows(cs.subrange(0, i)).len() ==> child_rows(cs)[x] == seq![i],
        x > child_rows(cs.subrange(0, i)).len() ==> child_rows(cs)[x] == seq![i] + rows(
            cs[i],
        )[x - child_rows(cs.subrange(0, i)).len() - 1],
{
    lemma_child_rows_step(cs, i);
    lemma_child_rows_prefix(cs, i + 1);
    let a = child_rows(cs.subrange(0, i));
    let full = child_rows(cs.subrange(0, i + 1));
    assert(full[x] == child_rows(cs).subrange(0, full.len() as int)[x]);
}

pub proof fn lemma_count_before_add(a: Seq<Seq<int>>, b: Seq<Seq<int>>, t: Seq<int>)
    ensures
        count_before(a + b, t) == count_before(a, t) + count_before(b, t),
    decreases b.len(),
{
    if b.len() == 0 {
        assert(a + b =~= a);
    } else {
        assert((a + b).drop_last() =~= a + b.drop_last());
        lemma_count_before_add(a, b.drop_last(), t);
    }
}

pub proof fn lemma_count_before_all(s: Seq<Seq<int>>, t: Seq<int>)
    requires
        forall|i: int| 0 <= i < s.len() ==> path_lt(#[trigger] s[i], t),
    ensures
        count_before(s, t) == s.len(),
    decreases s.len(),
{
    if s.len() > 0 {
        lemma_count_before_all(s.drop_last(), t);
    }
}

pub proof fn lemma_count_before_none(s: Seq<Seq<int>>, t: Seq<int>)
    requires
        forall|i: int| 0 <= i < s.len() ==> !path_lt(#[trigger] s[i], t),
    ensures
        count_before(s, t) == 0,
    decreases s.len(),
{
    if s.len() > 0 {
        lemma_count_before_none(s.drop_last(), t);
    }
}

pub proof fn lemma_count_before_le(s: Seq<Seq<int>>, t: Seq<int>)
    ensures
        count_before(s, t) <= s.len(),
    decreases s.len(),
{
    if s.len() > 0 {
        lemma_count_before_le(s.drop_last(), t);
    }
}

pub proof fn lemma_count_before_prefixed(k: int, s: Seq<Seq<int>>, t: Seq<int>)
    requires
        t.len() > 0,
        t[0] == k,
    ensures
        count_before(prefixed(k, s), t) == count_before(s, t.drop_first()),
    decreases s.len(),
{
    if s.len() > 0 {
        assert(prefixed(k, s).drop_last() =~= prefixed(k, s.drop_last()));
        lemma_count_before_prefixed(k, s.drop_last(), t);
        assert(t =~= seq![k] + t.drop_first());
        lemma_path_lt_cons(k, s.last(), t.drop_first());
    }
}

/// Every row is a path of at least one offset, and the first offset names
/// one of the children.
pub proof fn lemma_child_rows_first(cs: Seq<PathNode>)
    ensures
        forall|i: int|
            0 <= i < child_rows(cs).len() ==> (#[trigger] child_rows(cs)[i]).len() >= 1 && 0
                <= child_rows(cs)[i][0] < cs.len(),
    decreases cs.len(),
{
    if cs.len() > 0 {
        let k = cs.len() - 1;
        lemma_child_rows_first(cs.subrange(0, k));
        let a = child_rows(cs.subrange(0, k));
        let b = seq![seq![k]] + prefixed(k, rows(cs[k]));
        assert(child_rows(cs) == a + b);
        assert forall|i: int| 0 <= i < child_rows(cs).len() implies (
        #[trigger] child_rows(cs)[i]).len() >= 1 && 0 <= child_rows(cs)[i][0] < cs.len() by {
            if i >= a.len() {
                let x = i - a.len();
                if x > 0 {
                    assert(b[x] == seq![k] + rows(cs[k])[x - 1]);
                }
            }
        }
    }
}

pub proof fn lemma_rows_sorted(n: PathNode)
    ensures
        strictly_sorted(rows(n)),
    decreases n,
{
    lemma_child_rows_sorted(n.children@);
}

pub proof fn lemma_child_rows_sorted(cs: Seq<PathNode>)
    ensures
        strictly_sorted(child_rows(cs)),
    decreases cs,
{
    if cs.len() > 0 {
        let k = cs.len() - 1;
        let c2 = cs.subrange(0, k);
        lemma_child_rows_sorted(c2);
        lemma_rows_sorted(cs[k]);
        lemma_child_rows_first(c2);
        lemma_child_rows_first(cs[k].children@);
        let a = child_rows(c2);
        let r = rows(cs[k]);
        let p = prefixed(k, r);
        let b = seq![seq![k]] + p;
        assert(child_rows(cs) == a + b);
        assert forall|i: int, j: int| 0 <= i < j < b.len() implies path_lt(
            #[trigger] b[i],
            #[trigger] b[j],
        ) by {
            if i == 0 {
                assert(b[j] == seq![k] + r[j - 1]);
                assert(r == child_rows(cs[k].children@));
                assert(r[j - 1] == child_rows(cs[k].children@)[j - 1]);
                assert(r[j - 1].len() >= 1);
                assert(b[j].drop_first() =~= r[j - 1]);
                assert(b[i].drop_first() =~= Seq::<int>::empty());
                assert(path_lt(Seq::<int>::empty(), r[j - 1]));
                assert(b[i] == seq![k]);
                assert(b[j][0] == k);
            } else {
                assert(b[i] == seq![k] + r[i - 1]);
                assert(b[j] == seq![k] + r[j - 1]);
                assert(path_lt(r[i - 1], r[j - 1]));
                lemma_path_lt_cons(k, r[i - 1], r[j - 1]);
            }
        }
        let s = a + b;
        assert forall|i: int, j: int| 0 <= i < j < s.len() implies path_lt(
            #[trigger] s[i],
            #[trigger] s[j],
        ) by {
            if j >= a.len() && i < a.len() {
                let y = j - a.len();
                assert(a[i][0] < k);
                if y > 0 {
                    assert(b[y] == seq![k] + r[y - 1]);
                }
                assert(b[y][0] == k);
            } else if i >= a.len() {
                assert(s[i] == b[i - a.len()]);
                assert(s[j] == b[j - a.len()]);
            }
        }
    }
}

/// In strictly increasing paths, the number of paths before the one at
/// position `r` is `r`.
pub proof fn lemma_count_before_sorted(s: Seq<Seq<int>>, r: int)
    requires
        strictly_sorted(s),
        0 <= r < s.len(),
    ensures
        count_before(s, s[r]) == r,
    decreases s.len(),
{
    let d = s.drop_last();
    assert(strictly_sorted(d));
    if r == s.len() - 1 {
        assert forall|i: int| 0 <= i < d.len() implies path_lt(#[trigger] d[i], s[r]) by {
            assert(d[i] == s[i]);
        }
        lemma_count_before_all(d, s[r]);
        lemma_path_lt_irreflexive(s[r]);
    } else {
        lemma_count_before_sorted(d, r);
        assert(d[r] == s[r]);
        crate::tree_index::lemma_path_lt_asymmetric(s[r], s.last());
    }
}


/// How many rows of the children `cs[0..j]` come before the path `q`, whose
/// first offset is `q[0]`.
pub proof fn lemma_count_child_rows(cs: Seq<PathNode>, j: int, q: Seq<int>)
    requires
        0 <= j <= cs.len(),
        q.len() > 0,
        q[0] >= 0,
    ensures
        j <= q[0] ==> count_before(child_rows(cs.subrange(0, j)), q) == child_rows(
            cs.subrange(0, j),
        ).len(),
        q[0] < j ==> count_before(child_rows(cs.subrange(0, j)), q) == child_rows(
            cs.subrange(0, q[0]),
        ).len() + (if q.len() > 1 {
            1int
        } else {
            0int
        }) + count_before(rows(cs[q[0]]), q.drop_first()),
    decreases j,
{
    if j == 0 {
        assert(cs.subrange(0, 0) =~= Seq::<PathNode>::empty());
    } else {
        let i = j - 1;
        lemma_count_child_rows(cs, i, q);
        lemma_child_rows_step(cs, i);
        let a = child_rows(cs.subrange(0, i));
        let b = child_block(cs, i);
        lemma_count_before_add(a, b, q);
        let r = rows(cs[i]);
        lemma_child_rows_first(cs[i].children@);
        assert(r == child_rows(cs[i].children@));
        lemma_count_before_add(seq![seq![i]], prefixed(i, r), q);
        assert(seq![seq![i]].drop_last() =~= Seq::<Seq<int>>::empty());
        assert(count_before(Seq::<Seq<int>>::empty(), q) == 0);
        assert(count_before(seq![seq![i]], q) == if path_lt(seq![i], q) {
            1nat
        } else {
            0nat
        });
        assert(b == seq![seq![i]] + prefixed(i, r));
        if i < q[0] {
            assert forall|x: int| 0 <= x < prefixed(i, r).len() implies path_lt(
                #[trigger] prefixed(i, r)[x],
                q,
            ) by {
                assert(prefixed(i, r)[x][0] == i);
            }
            lemma_count_before_all(prefixed(i, r), q);
            assert(path_lt(seq![i], q));
        } else if i == q[0] {
            lemma_count_before_prefixed(i, r, q);
            assert(cs[q[0]] == cs[i]);
            assert(count_before(prefixed(i, r), q) == count_before(rows(cs[q[0]]), q.drop_first()));
            if q.len() > 1 {
                assert(path_lt(Seq::<int>::empty(), q.drop_first()));
                assert(seq![i].drop_first() =~= Seq::<int>::empty());
                assert(path_lt(seq![i], q));
            } else {
                assert(q =~= seq![i]);
                crate::tree_index::lemma_path_lt_irreflexive(q);
            }
        } else {
            assert forall|x: int| 0 <= x < prefixed(i, r).len() implies !path_lt(
                #[trigger] prefixed(i, r)[x],
                q,
            ) by {
                assert(prefixed(i, r)[x][0] == i);
            }
            lemma_count_before_none(prefixed(i, r), q);
            assert(!path_lt(seq![i], q));
        }
    }
}

pub proof fn lemma_count_before_empty(s: Seq<Seq<int>>)
    ensures
        count_before(s, Seq::<int>::empty()) == 0,
    decreases s.len(),
{
    if s.len() > 0 {
        lemma_count_before_empty(s.drop_last());
    }
}

impl PathNode {
    /// The number of visible rows below this node.
    pub fn visible_count(&self) -> (r: usize)
        requires
            rows(*self).len() <= usize::MAX,
        ensures
            r == rows(*self).len(),
        decreases self,
    {
        let mut sum: usize = 0;
        let mut i: usize = 0;
        let n = self.children.len();
        while i < n
            invariant
                n == self.children.len(),
                0 <= i <= n,
                sum == child_rows(self.children@.subrange(0, i as int)).len(),
                rows(*self).len() <= usize::MAX,
            decreases n - i,
        {
            proof {
                lemma_child_rows_len(self.children@, i as int);
                lemma_child_rows_step(self.children@, i as int);
            }
            let c = self.children[i].visible_count();
            sum = sum + 1 + c;
            i += 1;
        }
        assert(self.children@.subrange(0, n as int) =~= self.children@);
        sum
    }

    /// Appends to `tree_index` the path, relative to this node, of the row
    /// `flat_index` below it.
    pub fn flat_index_to_tree_index_rec(&self, flat_index: usize, tree_index: &mut TreeIndex)
        requires
            flat_index < rows(*self).len(),
            rows(*self).len() <= usize::MAX,
        ensures
            final(tree_index)@ == old(tree_index)@ + rows(*self)[flat_index as int],
        decreases self,
    {
        let ghost cs = self.children@;
        let n = self.children.len();
        let mut i: usize = 0;
        let mut acc: usize = 0;
        while i < n
            invariant
                n == self.children.len(),
                cs == self.children@,
                0 <= i <= n,
                acc == child_rows(cs.subrange(0, i as int)).len(),
                acc <= flat_index,
                flat_index < rows(*self).len(),
                rows(*self).len() <= usize::MAX,
                *tree_index == *old(tree_index),
            decreases n - i,
        {
            proof {
                lemma_child_rows_len(cs, i as int);
                lemma_child_rows_step(cs, i as int);
            }
            let c = self.children[i].visible_count();
            if flat_index == acc {
                proof {
                    lemma_child_rows_index(cs, i as int, flat_index as int);
                }
                tree_index.index.push(i);
                assert(tree_index@ =~= old(tree_index)@ + rows(*self)[flat_index as int]);
                return;
            }
            if flat_index - acc - 1 < c {
                proof {
                    lemma_child_rows_index(cs, i as int, flat_index as int);
                }
                tree_index.index.push(i);
                let ghost mid = tree_index@;
                assert(mid =~= old(tree_index)@ + seq![i as int]);
                self.children[i].flat_index_to_tree_index_rec(flat_index - acc - 1, tree_index);
                assert(tree_index@ =~= old(tree_index)@ + rows(*self)[flat_index as int]);
                return;
            }
            acc = acc + 1 + c;
            i += 1;
        }
        assert(cs.subrange(0, n as int) =~= cs);
    }

    /// The path of the row `flat_index`; the root's empty path when there is
    /// no such row.
    pub fn flat_index_to_tree_index(&self, flat_index: usize) -> (r: TreeIndex)
        requires
            rows(*self).len() <= usize::MAX,
        ensures
            flat_index < rows(*self).len() ==> r@ == rows(*self)[flat_index as int],
            flat_index >= rows(*self).len() ==> r@ == Seq::<int>::empty(),
    {
        let mut tree_index = TreeIndex::new();
        if flat_index < self.visible_count() {
            self.flat_index_to_tree_index_rec(flat_index, &mut tree_index);
            assert(tree_index@ =~= rows(*self)[flat_index as int]);
        }
        tree_index
    }

    /// The number of rows below this node that come before the path
    /// `target[depth..]`, taken relative to this node.
    pub fn tree_index_to_flat_index_rec(&self, target: &TreeIndex, depth: usize) -> (r: usize)
        requires
            depth <= target@.len(),
            rows(*self).len() <= usize::MAX,
        ensures
            r == count_before(rows(*self), target@.skip(depth as int)),
        decreases self,
    {
        let ghost q = target@.skip(depth as int);
        let ghost cs = self.children@;
        if depth == target.index.len() {
            proof {
                assert(q =~= Seq::<int>::empty());
                lemma_count_before_empty(rows(*self));
            }
            return 0;
        }
        let k = target.index[depth];
        assert(q[0] == k);
        let n = self.children.len();
        let mut i: usize = 0;
        let mut acc: usize = 0;
        while i < n && i < k
            invariant
                n == self.children.len(),
                cs == self.children@,
                0 <= i <= n,
                i <= k,
                acc == child_rows(cs.subrange(0, i as int)).len(),
                acc <= rows(*self).len(),
                rows(*self).len() <= usize::MAX,
            decreases n - i,
        {
            proof {
                lemma_child_rows_len(cs, i as int);
                lemma_child_rows_step(cs, i as int);
            }
            let c = self.children[i].visible_count();
            acc = acc + 1 + c;
            i += 1;
        }
        proof {
            lemma_count_child_rows(cs, n as int, q);
            assert(cs.subrange(0, n as int) =~= cs);
            lemma_count_before_le(rows(*self), q);
        }
        if k < n {
            proof {
                lemma_child_rows_len(cs, k as int);
            }
            let extra: usize = if depth + 1 < target.index.len() {
                1
            } else {
                0
            };
            let sub = self.children[k].tree_index_to_flat_index_rec(target, depth + 1);
            assert(target@.skip(depth + 1) =~= q.drop_first());
            acc + extra + sub
        } else {
            acc
        }
    }

    /// The row of `tree_index`: how many visible rows come before it. A path
    /// beyond the last row gives the number of rows.
    pub fn tree_index_to_flat_index(&self, tree_index: &TreeIndex) -> (r: usize)
        requires
            rows(*self).len() <= usize::MAX,
        ensures
            r == count_before(rows(*self), tree_index@),
    {
        assert(tree_index@.skip(0) =~= tree_index@);
        self.tree_index_to_flat_index_rec(tree_index, 0)
    }
}


/// One entry of a directory listing, as the caller read it.
#[derive(Debug)]
pub struct DirEntry {
    pub name: String,
    pub is_dir: bool,
    pub path: String,
}

pub open spec fn entry_view(e: DirEntry) -> (Seq<char>, bool, Seq<char>) {
    (e.name@, e.is_dir, e.path@)
}

pub open spec fn node_entry(n: PathNode) -> (Seq<char>, bool, Seq<char>) {
    (n.display_text@, n.is_dir, n.path@)
}

/// A node as a listing creates it: collapsed, readable, without children.
pub open spec fn is_fresh(n: PathNode) -> bool {
    n.children@.len() == 0 && !n.is_expanded && !n.is_err
}

fn is_greater(o: Ordering) -> (r: bool)
    ensures
        r == (o == Ordering::Greater),
{
    match o {
        Ordering::Greater => true,
        _ => false,
    }
}

impl PathNode {
    /// Turns a listing into fresh child nodes, ordered by `compare`.
    pub fn list_path_node_children(entries: Vec<DirEntry>, compare: PathNodeCompare) -> (r: Vec<
        PathNode,
    >)
        ensures
            sorted_by(compare, r@),
            forall|i: int| 0 <= i < r@.len() ==> is_fresh(#[trigger] r@[i]),
            r@.map_values(|n: PathNode| node_entry(n)).to_multiset() == entries@.map_values(
                |e: DirEntry| entry_view(e),
            ).to_multiset(),
            compare == PathNodeCompare::Unsorted ==> r@.map_values(|n: PathNode| node_entry(n))
                == entries@.map_values(|e: DirEntry| entry_view(e)),
    {
        let ghost orig = entries@;
        let mut entries = entries;
        let mut result: Vec<PathNode> = Vec::new();
        let mut taken: usize = 0;
        let n = entries.len();
        assert(orig.subrange(0, 0).map_values(|e: DirEntry| entry_view(e)) =~= Seq::empty());
        assert(result@.map_values(|n: PathNode| node_entry(n)) =~= Seq::empty());
        assert(entries@ =~= orig.subrange(0, 0 + n));
        while taken < n
            invariant
                n == orig.len(),
                0 <= taken <= n,
                entries@ == orig.subrange(taken as int, n as int),
                sorted_by(compare, result@),
                forall|i: int| 0 <= i < result@.len() ==> is_fresh(#[trigger] result@[i]),
                result@.map_values(|n: PathNode| node_entry(n)).to_multiset() == orig.subrange(
                    0,
                    taken as int,
                ).map_values(|e: DirEntry| entry_view(e)).to_multiset(),
                compare == PathNodeCompare::Unsorted ==> result@.map_values(
                    |n: PathNode| node_entry(n),
                ) == orig.subrange(0, taken as int).map_values(|e: DirEntry| entry_view(e)),
            decreases n - taken,
        {
            let e = entries.remove(0);
            assert(e == orig[taken as int]);
            let node = PathNode {
                children: Vec::new(),
                display_text: e.name,
                is_dir: e.is_dir,
                is_err: false,
                is_expanded: false,
                path: e.path,
            };
            let mut j: usize = 0;
            let mut found = false;
            while j < result.len() && !found
                invariant
                    0 <= j <= result@.len(),
                    forall|k: int|
                        0 <= k < j ==> compare_spec(compare, #[trigger] result@[k], node)
                            != Ordering::Greater,
                    found ==> j < result@.len() && compare_spec(compare, result@[j as int], node)
                        == Ordering::Greater,
                decreases result@.len() - j + if found {
                    0int
                } else {
                    1int
                },
            {
                if is_greater(compare.compare(&result[j], &node)) {
                    found = true;
                } else {
                    j += 1;
                }
            }
            let ghost old_result = result@;
            proof {
                assert forall|a: int, b: int|
                    0 <= a < b < old_result.len() + 1 implies compare_spec(
                    compare,
                    #[trigger] old_result.insert(j as int, node)[a],
                    #[trigger] old_result.insert(j as int, node)[b],
                ) != Ordering::Greater by {
                    let s = old_result.insert(j as int, node);
                    if a == j && b > j {
                        let y = old_result[b - 1];
                        if compare_spec(compare, node, y) == Ordering::Greater {
                            crate::compare_functions::lemma_compare_flip(compare, node, y);
                            if b - 1 > j {
                                assert(compare_spec(compare, old_result[j as int], y)
                                    != Ordering::Greater);
                            }
                            crate::compare_functions::lemma_compare_trans(
                                compare,
                                old_result[j as int],
                                y,
                                node,
                            );
                        }
                    } else if a < j && b > j {
                        assert(s[a] == old_result[a]);
                        assert(s[b] == old_result[b - 1]);
                    } else if a > j {
                        assert(s[a] == old_result[a - 1]);
                        assert(s[b] == old_result[b - 1]);
                    }
                }
                let f = |n: PathNode| node_entry(n);
                let g = |e: DirEntry| entry_view(e);
                assert(old_result.insert(j as int, node).map_values(f) =~= old_result.map_values(
                    f,
                ).insert(j as int, node_entry(node)));
                vstd::seq_lib::to_multiset_insert(
                    old_result.map_values(f),
                    j as int,
                    node_entry(node),
                );
                assert(orig.subrange(0, taken + 1).map_values(g) =~= orig.subrange(
                    0,
                    taken as int,
                ).map_values(g).push(entry_view(e)));
                vstd::seq_lib::to_multiset_build(
                    orig.subrange(0, taken as int).map_values(g),
                    entry_view(e),
                );
                if compare == PathNodeCompare::Unsorted {
                    assert(j == old_result.len());
                    assert(old_result.map_values(f).insert(j as int, node_entry(node))
                        =~= old_result.map_values(f).push(node_entry(node)));
                }
            }
            result.insert(j, node);
            taken += 1;
            proof {
                assert(entries@ =~= orig.subrange(taken as int, n as int));
            }
        }
        assert(orig.subrange(0, n as int) =~= orig);
        result
    }
}


/// The node that `p` leads to from `n`, if every offset names a child.
pub open spec fn node_at(n: PathNode, p: Seq<int>) -> Option<PathNode>
    decreases p.len(),
{
    if p.len() == 0 {
        Some(n)
    } else if 0 <= p[0] < n.children@.len() {
        node_at(n.children@[p[0]], p.drop_first())
    } else {
        None
    }
}

/// `a` and `b` are equal but for the node at the end of `p`, which both hold.
pub open spec fn agrees_except(a: PathNode, b: PathNode, p: Seq<int>) -> bool
    decreases p.len(),
{
    if p.len() == 0 {
        true
    } else {
        &&& a.display_text == b.display_text
        &&& a.is_dir == b.is_dir
        &&& a.is_err == b.is_err
        &&& a.is_expanded == b.is_expanded
        &&& a.path == b.path
        &&& a.children@.len() == b.children@.len()
        &&& 0 <= p[0] < a.children@.len()
        &&& forall|i: int|
            0 <= i < a.children@.len() && i != p[0] ==> #[trigger] a.children@[i]
                == b.children@[i]
        &&& agrees_except(a.children@[p[0]], b.children@[p[0]], p.drop_first())
    }
}

/// `y` is `x` after an expansion with `listing`: `None` when the listing failed.
pub open spec fn expanded_from(
    x: PathNode,
    y: PathNode,
    compare: PathNodeCompare,
    listing: Option<Seq<(Seq<char>, bool, Seq<char>)>>,
) -> bool {
    &&& y.display_text == x.display_text
    &&& y.path == x.path
    &&& y.is_dir == x.is_dir
    &&& y.is_expanded
    &&& match listing {
        None => y.is_err && y.children@.len() == 0,
        Some(l) => {
            &&& y.is_err == x.is_err
            &&& sorted_by(compare, y.children@)
            &&& forall|i: int| 0 <= i < y.children@.len() ==> is_fresh(#[trigger] y.children@[i])
            &&& y.children@.map_values(|n: PathNode| node_entry(n)).to_multiset()
                == l.to_multiset()
            &&& compare == PathNodeCompare::Unsorted ==> y.children@.map_values(
                |n: PathNode| node_entry(n),
            ) == l
        },
    }
}

/// `new` is `old` after expanding the node at `p` with `listing`: nothing
/// changes unless `p` leads to a container.
pub open spec fn expand_result(
    old: PathNode,
    new: PathNode,
    p: Seq<int>,
    compare: PathNodeCompare,
    listing: Option<Seq<(Seq<char>, bool, Seq<char>)>>,
) -> bool {
    if node_at(old, p) is Some && node_at(old, p)->0.is_dir {
        &&& node_at(new, p) is Some
        &&& agrees_except(old, new, p)
        &&& expanded_from(node_at(old, p)->0, node_at(new, p)->0, compare, listing)
    } else {
        new == old
    }
}

/// `new` is `old` after collapsing the node at `p`: it keeps its fields but
/// is no longer expanded and has no children. Nothing changes when `p` leads
/// nowhere.
pub open spec fn collapse_result(old: PathNode, new: PathNode, p: Seq<int>) -> bool {
    if node_at(old, p) is Some {
        let x = node_at(old, p)->0;
        &&& node_at(new, p) is Some
        &&& agrees_except(old, new, p)
        &&& node_at(new, p)->0.display_text == x.display_text
        &&& node_at(new, p)->0.path == x.path
        &&& node_at(new, p)->0.is_dir == x.is_dir
        &&& node_at(new, p)->0.is_err == x.is_err
        &&& !node_at(new, p)->0.is_expanded
        &&& node_at(new, p)->0.children@.len() == 0
    } else {
        new == old
    }
}

pub open spec fn listing_view(listing: Option<Vec<DirEntry>>) -> Option<
    Seq<(Seq<char>, bool, Seq<char>)>,
> {
    match listing {
        None => None,
        Some(v) => Some(v@.map_values(|e: DirEntry| entry_view(e))),
    }
}

impl PathNode {
    fn expand_rec(
        &mut self,
        tree_index: &TreeIndex,
        depth: usize,
        compare: PathNodeCompare,
        listing: Option<Vec<DirEntry>>,
    )
        requires
            depth <= tree_index@.len(),
            node_at(*old(self), tree_index@.skip(depth as int)) is Some,
            node_at(*old(self), tree_index@.skip(depth as int))->0.is_dir,
        ensures
            expand_result(
                *old(self),
                *final(self),
                tree_index@.skip(depth as int),
                compare,
                listing_view(listing),
            ),
        decreases tree_index@.len() - depth,
    {
        let ghost p = tree_index@.skip(depth as int);
        if depth == tree_index.index.len() {
            assert(p =~= Seq::<int>::empty());
            if self.is_dir {
                self.is_expanded = true;
                match listing {
                    None => {
                        self.is_err = true;
                        self.children = Vec::new();
                    },
                    Some(entries) => {
                        self.children = Self::list_path_node_children(entries, compare);
                    },
                }
            }
            return ;
        }
        let k = tree_index.index[depth];
        assert(p[0] == k);
        assert(p.drop_first() =~= tree_index@.skip(depth + 1));
        if k < self.children.len() {
            let ghost before = *self;
            self.children[k].expand_rec(tree_index, depth + 1, compare, listing);
            assert(agrees_except(before, *self, p));
        }
    }

    /// Expands the container at `tree_index` with the entries that listing it
    /// gave, or marks it unreadable when `listing` is `None`. A path that leads
    /// nowhere, or to a node that is no container, changes nothing.
    pub fn expand_dir(
        &mut self,
        tree_index: &TreeIndex,
        compare: PathNodeCompare,
        listing: Option<Vec<DirEntry>>,
    )
        ensures
            expand_result(*old(self), *final(self), tree_index@, compare, listing_view(listing)),
            wf_node(*old(self)) ==> wf_node(*final(self)),
    {
        let ghost before = *self;
        let ghost l = listing_view(listing);
        assert(tree_index@.skip(0) =~= tree_index@);
        match self.find_node(tree_index) {
            Some(is_dir) => {
                if is_dir {
                    self.expand_rec(tree_index, 0, compare, listing);
                }
            },
            None => {},
        }
        proof {
            if wf_node(before) {
                lemma_expand_keeps_wf(before, *self, tree_index@, compare, l);
            }
        }
    }

    fn collapse_rec(&mut self, tree_index: &TreeIndex, depth: usize)
        requires
            depth <= tree_index@.len(),
            node_at(*old(self), tree_index@.skip(depth as int)) is Some,
        ensures
            collapse_result(*old(self), *final(self), tree_index@.skip(depth as int)),
        decreases tree_index@.len() - depth,
    {
        let ghost p = tree_index@.skip(depth as int);
        if depth == tree_index.index.len() {
            assert(p =~= Seq::<int>::empty());
            self.is_expanded = false;
            self.children = Vec::new();
            return ;
        }
        let k = tree_index.index[depth];
        assert(p[0] == k);
        assert(p.drop_first() =~= tree_index@.skip(depth + 1));
        if k < self.children.len() {
            let ghost before = *self;
            self.children[k].collapse_rec(tree_index, depth + 1);
            assert(agrees_except(before, *self, p));
        }
    }

    /// Collapses the node at `tree_index`, dropping the nodes below it. A path
    /// that leads nowhere changes nothing.
    pub fn collapse_dir(&mut self, tree_index: &TreeIndex)
        ensures
            collapse_result(*old(self), *final(self), tree_index@),
            wf_node(*old(self)) ==> wf_node(*final(self)),
    {
        let ghost before = *self;
        assert(tree_index@.skip(0) =~= tree_index@);
        if self.find_node(tree_index).is_some() {
            self.collapse_rec(tree_index, 0);
        }
        proof {
            if wf_node(before) {
                lemma_collapse_keeps_wf(before, *self, tree_index@);
            }
        }
    }

    /// Whether `tree_index` leads to a node, and whether that node is a
    /// container.
    pub fn find_node(&self, tree_index: &TreeIndex) -> (r: Option<bool>)
        ensures
            r is Some <==> node_at(*self, tree_index@) is Some,
            r is Some ==> r->0 == node_at(*self, tree_index@)->0.is_dir,
    {
        let mut node = self;
        let mut i: usize = 0;
        let n = tree_index.index.len();
        assert(tree_index@.skip(0) =~= tree_index@);
        while i < n
            invariant
                n == tree_index@.len(),
                0 <= i <= n,
                node_at(*self, tree_index@) == node_at(*node, tree_index@.skip(i as int)),
            decreases n - i,
        {
            let k = tree_index.index[i];
            assert(tree_index@.skip(i as int)[0] == k);
            assert(tree_index@.skip(i as int).drop_first() =~= tree_index@.skip(i + 1));
            if k >= node.children.len() {
                return None;
            }
            node = &node.children[k];
            i += 1;
        }
        assert(tree_index@.skip(n as int) =~= Seq::<int>::empty());
        Some(node.is_dir)
    }

    /// The node at `tree_index`.
    pub fn get_child_path_node(&self, tree_index: &TreeIndex) -> (r: &PathNode)
        requires
            node_at(*self, tree_index@) is Some,
        ensures
            node_at(*self, tree_index@) == Some(*r),
    {
        let mut node = self;
        let mut i: usize = 0;
        let n = tree_index.index.len();
        assert(tree_index@.skip(0) =~= tree_index@);
        while i < n
            invariant
                n == tree_index@.len(),
                0 <= i <= n,
                node_at(*self, tree_index@) == node_at(*node, tree_index@.skip(i as int)),
                node_at(*self, tree_index@) is Some,
            decreases n - i,
        {
            let k = tree_index.index[i];
            assert(tree_index@.skip(i as int)[0] == k);
            assert(tree_index@.skip(i as int).drop_first() =~= tree_index@.skip(i + 1));
            node = &node.children[k];
            i += 1;
        }
        assert(tree_index@.skip(n as int) =~= Seq::<int>::empty());
        node
    }
}


/// Sibling lists whose children have the same numbers of rows give the same
/// number of rows.
pub proof fn lemma_child_rows_len_eq(c1: Seq<PathNode>, c2: Seq<PathNode>)
    requires
        c1.len() == c2.len(),
        forall|i: int| 0 <= i < c1.len() ==> rows(#[trigger] c1[i]).len() == rows(c2[i]).len(),
    ensures
        child_rows(c1).len() == child_rows(c2).len(),
    decreases c1.len(),
{
    if c1.len() > 0 {
        let k = c1.len() - 1;
        let d1 = c1.subrange(0, k);
        let d2 = c2.subrange(0, k);
        assert forall|i: int| 0 <= i < d1.len() implies rows(#[trigger] d1[i]).len() == rows(
            d2[i],
        ).len() by {
            assert(d1[i] == c1[i]);
            assert(d2[i] == c2[i]);
        }
        lemma_child_rows_len_eq(d1, d2);
        assert(rows(c1[k]).len() == rows(c2[k]).len());
    }
}

pub proof fn lemma_agrees_except_trans(a: PathNode, b: PathNode, c: PathNode, p: Seq<int>)
    requires
        agrees_except(a, b, p),
        agrees_except(b, c, p),
    ensures
        agrees_except(a, c, p),
    decreases p.len(),
{
    if p.len() > 0 {
        lemma_agrees_except_trans(
            a.children@[p[0]],
            b.children@[p[0]],
            c.children@[p[0]],
            p.drop_first(),
        );
        assert forall|i: int|
            0 <= i < a.children@.len() && i != p[0] implies #[trigger] a.children@[i]
            == c.children@[i] by {
            assert(a.children@[i] == b.children@[i]);
        }
    }
}

/// Two trees that differ only at the end of `p` differ in their number of
/// rows only by what differs there.
pub proof fn lemma_agrees_except_rows_len(a: PathNode, b: PathNode, p: Seq<int>)
    requires
        agrees_except(a, b, p),
        node_at(a, p) is Some,
        node_at(b, p) is Some,
        rows(node_at(a, p)->0).len() == rows(node_at(b, p)->0).len(),
    ensures
        rows(a).len() == rows(b).len(),
    decreases p.len(),
{
    if p.len() > 0 {
        let k = p[0];
        lemma_agrees_except_rows_len(a.children@[k], b.children@[k], p.drop_first());
        lemma_child_rows_len_eq(a.children@, b.children@);
    }
}

/// Round trip: the row of the path of row `r` is `r`.
pub proof fn lemma_flat_round_trip(n: PathNode, r: int)
    requires
        0 <= r < rows(n).len(),
    ensures
        count_before(rows(n), rows(n)[r]) == r,
{
    lemma_rows_sorted(n);
    lemma_count_before_sorted(rows(n), r);
}

/// Of two visible paths, the one that comes first in position order has the
/// lower row.
pub proof fn lemma_flat_monotonic(n: PathNode, a: Seq<int>, b: Seq<int>)
    requires
        path_lt(a, b),
        rows(n).contains(a),
        rows(n).contains(b),
    ensures
        count_before(rows(n), a) < count_before(rows(n), b),
{
    let s = rows(n);
    lemma_rows_sorted(n);
    let i = choose|i: int| 0 <= i < s.len() && s[i] == a;
    let j = choose|j: int| 0 <= j < s.len() && s[j] == b;
    lemma_count_before_sorted(s, i);
    lemma_count_before_sorted(s, j);
    if j < i {
        crate::tree_index::lemma_path_lt_asymmetric(s[j], s[i]);
    } else if j == i {
        lemma_path_lt_irreflexive(a);
    }
}

/// Expanding a node that is no container, or a path that leads nowhere,
/// leaves the number of rows as it was.
pub proof fn lemma_expand_non_container_keeps_count(
    old: PathNode,
    new: PathNode,
    p: Seq<int>,
    compare: PathNodeCompare,
    listing: Option<Seq<(Seq<char>, bool, Seq<char>)>>,
)
    requires
        expand_result(old, new, p, compare, listing),
        node_at(old, p) is None || !node_at(old, p)->0.is_dir,
    ensures
        rows(new).len() == rows(old).len(),
{
}

/// Expanding a collapsed node and then collapsing it again gives back the
/// number of rows from before.
pub proof fn lemma_expand_collapse_keeps_count(
    t0: PathNode,
    t1: PathNode,
    t2: PathNode,
    p: Seq<int>,
    compare: PathNodeCompare,
    listing: Option<Seq<(Seq<char>, bool, Seq<char>)>>,
)
    requires
        expand_result(t0, t1, p, compare, listing),
        collapse_result(t1, t2, p),
        node_at(t0, p) is Some ==> node_at(t0, p)->0.children@.len() == 0,
    ensures
        rows(t2).len() == rows(t0).len(),
{
    if node_at(t0, p) is Some {
        if node_at(t0, p)->0.is_dir {
            lemma_agrees_except_trans(t0, t1, t2, p);
        }
        assert(rows(node_at(t0, p)->0) =~= Seq::<Seq<int>>::empty());
        assert(rows(node_at(t2, p)->0) =~= Seq::<Seq<int>>::empty());
        lemma_agrees_except_rows_len(t0, t2, p);
    }
}


/// `n` is the collapsed root of a tree at `location`.
pub open spec fn is_root_at(n: PathNode, location: Seq<char>) -> bool {
    &&& n.display_text@ == location
    &&& n.path@ == location
    &&& n.is_dir
    &&& !n.is_err
    &&& !n.is_expanded
    &&& n.children@.len() == 0
}

impl From<&str> for PathNode {
    /// A collapsed root at `working_dir`.
    fn from(working_dir: &str) -> (r: PathNode)
        ensures
            is_root_at(r, working_dir@),
            wf_node(r),
    {
        PathNode {
            children: Vec::new(),
            display_text: working_dir.to_owned(),
            is_dir: true,
            is_err: false,
            is_expanded: false,
            path: working_dir.to_owned(),
        }
    }
}

impl vstd::std_specs::convert::FromSpecImpl<&str> for PathNode {
    open spec fn obeys_from_spec() -> bool {
        false
    }

    open spec fn from_spec(working_dir: &str) -> PathNode {
        arbitrary()
    }
}

impl From<String> for PathNode {
    /// A collapsed root at `working_dir`.
    fn from(working_dir: String) -> (r: PathNode)
        ensures
            is_root_at(r, working_dir@),
            wf_node(r),
    {
        PathNode {
            children: Vec::new(),
            display_text: working_dir.as_str().to_owned(),
            is_dir: true,
            is_err: false,
            is_expanded: false,
            path: working_dir,
        }
    }
}

impl vstd::std_specs::convert::FromSpecImpl<String> for PathNode {
    open spec fn obeys_from_spec() -> bool {
        false
    }

    open spec fn from_spec(working_dir: String) -> PathNode {
        arbitrary()
    }
}

impl PathNode {
    /// The root at the configured working directory, expanded with the
    /// listing of that directory under the configured order.
    pub fn new_expanded(config: &Config, listing: Option<Vec<DirEntry>>) -> (r: PathNode)
        ensures
            r.display_text@ == config.setup.working_dir@,
            r.path@ == config.setup.working_dir@,
            r.is_dir,
            r.is_expanded,
            listing is Some ==> !r.is_err,
            wf_node(r),
            expanded_from(
                r,
                r,
                crate::compare_functions::compare_named(config.behavior.path_node_sort@),
                listing_view(listing),
            ),
    {
        let mut root = PathNode::from(config.setup.working_dir.as_str());
        let compare = PathNode::get_path_node_compare(config);
        let index = TreeIndex::new();
        let ghost before = root;
        root.expand_dir(&index, compare, listing);
        assert(node_at(before, index@) == Some(before));
        assert(node_at(root, index@) == Some(root));
        root
    }
}


impl PathNode {
    /// The number of visible rows below this node, or `None` when it does
    /// not fit in a `usize`.
    pub fn checked_visible_count(&self) -> (r: Option<usize>)
        ensures
            r is Some <==> rows(*self).len() <= usize::MAX,
            r is Some ==> r->0 == rows(*self).len(),
        decreases self,
    {
        let mut sum: usize = 0;
        let mut i: usize = 0;
        let n = self.children.len();
        while i < n
            invariant
                n == self.children.len(),
                0 <= i <= n,
                sum == child_rows(self.children@.subrange(0, i as int)).len(),
            decreases n - i,
        {
            proof {
                lemma_child_rows_len(self.children@, i as int);
                lemma_child_rows_step(self.children@, i as int);
            }
            match self.children[i].checked_visible_count() {
                None => {
                    return None;
                },
                Some(c) => {
                    if c > usize::MAX - 1 || sum > usize::MAX - 1 - c {
                        proof {
                            lemma_child_rows_prefix(self.children@, i + 1);
                        }
                        return None;
                    }
                    sum = sum + 1 + c;
                },
            }
            i += 1;
        }
        assert(self.children@.subrange(0, n as int) =~= self.children@);
        Some(sum)
    }
}


/// The paths of the expanded nodes below `n`, in pre-order: the order in
/// which expanding them again rebuilds the same shape.
pub open spec fn expansions(n: PathNode) -> Seq<Seq<int>>
    decreases n,
{
    child_expansions(n.children@)
}

pub open spec fn child_expansions(cs: Seq<PathNode>) -> Seq<Seq<int>>
    decreases cs,
{
    if cs.len() == 0 {
        Seq::empty()
    } else {
        let k = cs.len() - 1;
        child_expansions(cs.subrange(0, k)) + if cs[k].is_expanded {
            seq![seq![k]] + prefixed(k, expansions(cs[k]))
        } else {
            Seq::empty()
        }
    }
}

pub open spec fn index_views(v: Seq<TreeIndex>) -> Seq<Seq<int>> {
    v.map_values(|t: TreeIndex| t@)
}

impl PathNode {
    /// Appends the paths of the expanded nodes below this node, each put
    /// behind `prefix`.
    pub fn collect_expansions(&self, prefix: &mut TreeIndex, out: &mut Vec<TreeIndex>)
        ensures
            final(prefix)@ == old(prefix)@,
            index_views(final(out)@) == index_views(old(out)@) + expansions(*self).map_values(
                |p: Seq<int>| old(prefix)@ + p,
            ),
        decreases self,
    {
        let ghost cs = self.children@;
        let ghost pre = prefix@;
        let ghost f = |p: Seq<int>| pre + p;
        let n = self.children.len();
        let mut i: usize = 0;
        assert(child_expansions(cs.subrange(0, 0)).map_values(f) =~= Seq::<Seq<int>>::empty());
        assert(index_views(out@) =~= index_views(old(out)@) + child_expansions(
            cs.subrange(0, 0),
        ).map_values(f));
        while i < n
            invariant
                n == self.children@.len(),
                cs == self.children@,
                pre == old(prefix)@,
                f == (|p: Seq<int>| pre + p),
                prefix@ == pre,
                0 <= i <= n,
                index_views(out@) == index_views(old(out)@) + child_expansions(
                    cs.subrange(0, i as int),
                ).map_values(f),
            decreases n - i,
        {
            let child = &self.children[i];
            let ghost before = index_views(out@);
            proof {
                let s = cs.subrange(0, i + 1);
                assert(s.subrange(0, i as int) =~= cs.subrange(0, i as int));
                assert(s[i as int] == cs[i as int]);
            }
            if child.is_expanded {
                prefix.index.push(i);
                let ghost inner = prefix@;
                assert(inner =~= pre + seq![i as int]);
                let copy = prefix.clone_index();
                out.push(copy);
                assert(index_views(out@) =~= before.push(inner));
                let ghost mid = index_views(out@);
                child.collect_expansions(prefix, out);
                let ghost idx_before = prefix.index@;
                assert(idx_before.map_values(|i: usize| i as int) == inner);
                let _ = prefix.index.pop();
                assert(prefix@ =~= inner.drop_last());
                assert(prefix@ =~= pre);
                assert(index_views(out@) == mid + expansions(cs[i as int]).map_values(
                    |p: Seq<int>| inner + p,
                ));
                proof {
                    let e = expansions(cs[i as int]);
                    let block = seq![seq![i as int]] + prefixed(i as int, e);
                    assert(block.map_values(f) =~= seq![inner] + e.map_values(
                        |p: Seq<int>| inner + p,
                    )) by {
                        assert forall|x: int| 0 <= x < e.len() implies #[trigger] prefixed(
                            i as int,
                            e,
                        )[x].len() >= 0 && pre + prefixed(i as int, e)[x] =~= inner + e[x] by {}
                    }
                    assert(child_expansions(cs.subrange(0, i + 1)).map_values(f)
                        =~= child_expansions(cs.subrange(0, i as int)).map_values(f)
                        + block.map_values(f));
                }
            } else {
                proof {
                    assert(child_expansions(cs.subrange(0, i + 1)) =~= child_expansions(
                        cs.subrange(0, i as int),
                    ));
                }
            }
            i += 1;
            assert(index_views(out@) =~= index_views(old(out)@) + child_expansions(
                cs.subrange(0, i as int),
            ).map_values(f));
        }
        assert(cs.subrange(0, n as int) =~= cs);
    }

    /// The paths of all expanded nodes below the root, in the order in which
    /// expanding them again rebuilds the same shape.
    pub fn expanded_paths(&self) -> (r: Vec<TreeIndex>)
        ensures
            index_views(r@) == expansions(*self),
    {
        let mut prefix = TreeIndex::new();
        let mut out: Vec<TreeIndex> = Vec::new();
        assert(index_views(out@) =~= Seq::<Seq<int>>::empty());
        self.collect_expansions(&mut prefix, &mut out);
        assert(expansions(*self).map_values(|p: Seq<int>| Seq::<int>::empty() + p) =~= expansions(
            *self,
        )) by {
            assert forall|x: int| 0 <= x < expansions(*self).len() implies Seq::<int>::empty()
                + #[trigger] expansions(*self)[x] =~= expansions(*self)[x] by {}
        }
        assert(index_views(out@) =~= expansions(*self));
        out
    }
}


impl PathNode {
    /// The location of the container at `tree_index`, which an expansion
    /// there lists; `None` when the path leads nowhere or to no container.
    pub fn expand_location(&self, tree_index: &TreeIndex) -> (r: Option<String>)
        ensures
            r is Some <==> (node_at(*self, tree_index@) is Some && node_at(
                *self,
                tree_index@,
            )->0.is_dir),
            r is Some ==> r->0@ == node_at(*self, tree_index@)->0.path@,
    {
        match self.find_node(tree_index) {
            Some(is_dir) => {
                if is_dir {
                    let node = self.get_child_path_node(tree_index);
                    Some(node.path.clone())
                } else {
                    None
                }
            },
            None => None,
        }
    }
}


/// Every row leads to a node.
pub proof fn lemma_row_resolves(n: PathNode, i: int)
    requires
        0 <= i < rows(n).len(),
    ensures
        node_at(n, rows(n)[i]) is Some,
    decreases n,
{
    lemma_child_row_resolves(n.children@, i);
}

pub proof fn lemma_child_row_resolves(cs: Seq<PathNode>, i: int)
    requires
        0 <= i < child_rows(cs).len(),
    ensures
        child_rows(cs)[i].len() > 0,
        0 <= child_rows(cs)[i][0] < cs.len(),
        node_at(cs[child_rows(cs)[i][0]], child_rows(cs)[i].drop_first()) is Some,
    decreases cs,
{
    let k = cs.len() - 1;
    let c2 = cs.subrange(0, k);
    let a = child_rows(c2);
    let r = rows(cs[k]);
    let b = seq![seq![k]] + prefixed(k, r);
    assert(child_rows(cs) == a + b);
    if i < a.len() {
        lemma_child_row_resolves(c2, i);
        assert(c2[a[i][0]] == cs[a[i][0]]);
    } else {
        let x = i - a.len();
        if x == 0 {
            assert(b[x] == seq![k]);
            assert(b[x].drop_first() =~= Seq::<int>::empty());
        } else {
            assert(b[x] == seq![k] + r[x - 1]);
            assert(b[x].drop_first() =~= r[x - 1]);
            lemma_row_resolves(cs[k], x - 1);
        }
    }
}


/// The shape every node keeps: an entry that is no container is never
/// expanded and has no children, and only an expanded node has children.
pub open spec fn wf_node(n: PathNode) -> bool
    decreases n,
{
    &&& (!n.is_dir ==> !n.is_expanded && n.children@.len() == 0)
    &&& (n.children@.len() > 0 ==> n.is_expanded)
    &&& wf_nodes(n.children@)
}

/// Every node of `cs` keeps the shape of `wf_node`.
pub open spec fn wf_nodes(cs: Seq<PathNode>) -> bool
    decreases cs,
{
    cs.len() == 0 || (wf_nodes(cs.subrange(0, cs.len() - 1)) && wf_node(cs[cs.len() - 1]))
}

pub proof fn lemma_wf_nodes_index(cs: Seq<PathNode>, i: int)
    requires
        wf_nodes(cs),
        0 <= i < cs.len(),
    ensures
        wf_node(cs[i]),
    decreases cs.len(),
{
    if i < cs.len() - 1 {
        let d = cs.subrange(0, cs.len() - 1);
        lemma_wf_nodes_index(d, i);
        assert(d[i] == cs[i]);
    }
}

pub proof fn lemma_wf_nodes_intro(cs: Seq<PathNode>)
    requires
        forall|i: int| 0 <= i < cs.len() ==> wf_node(#[trigger] cs[i]),
    ensures
        wf_nodes(cs),
    decreases cs.len(),
{
    if cs.len() > 0 {
        let d = cs.subrange(0, cs.len() - 1);
        assert forall|i: int| 0 <= i < d.len() implies wf_node(#[trigger] d[i]) by {
            assert(d[i] == cs[i]);
        }
        lemma_wf_nodes_intro(d);
    }
}

/// Replacing a well-formed node at the end of `p` keeps a tree well formed.
pub proof fn lemma_agrees_except_wf(a: PathNode, b: PathNode, p: Seq<int>)
    requires
        agrees_except(a, b, p),
        wf_node(a),
        node_at(b, p) is Some,
        wf_node(node_at(b, p)->0),
    ensures
        wf_node(b),
    decreases p.len(),
{
    if p.len() == 0 {
    } else {
        let k = p[0];
        lemma_wf_nodes_index(a.children@, k);
        lemma_agrees_except_wf(a.children@[k], b.children@[k], p.drop_first());
        assert forall|i: int| 0 <= i < b.children@.len() implies wf_node(
            #[trigger] b.children@[i],
        ) by {
            if i != k {
                assert(a.children@[i] == b.children@[i]);
                lemma_wf_nodes_index(a.children@, i);
            }
        }
        lemma_wf_nodes_intro(b.children@);
    }
}

/// Expanding keeps a tree well formed.
pub proof fn lemma_expand_keeps_wf(
    old: PathNode,
    new: PathNode,
    p: Seq<int>,
    compare: PathNodeCompare,
    listing: Option<Seq<(Seq<char>, bool, Seq<char>)>>,
)
    requires
        expand_result(old, new, p, compare, listing),
        wf_node(old),
    ensures
        wf_node(new),
{
    if node_at(old, p) is Some && node_at(old, p)->0.is_dir {
        let y = node_at(new, p)->0;
        match listing {
            Some(l) => {
                assert forall|i: int| 0 <= i < y.children@.len() implies wf_node(
                    #[trigger] y.children@[i],
                ) by {
                    assert(is_fresh(y.children@[i]));
                    assert(y.children@[i].children@ =~= Seq::<PathNode>::empty());
                }
                lemma_wf_nodes_intro(y.children@);
            },
            None => {
                assert(y.children@ =~= Seq::<PathNode>::empty());
            },
        }
        assert(wf_node(y));
        lemma_agrees_except_wf(old, new, p);
    }
}

/// Collapsing keeps a tree well formed.
pub proof fn lemma_collapse_keeps_wf(old: PathNode, new: PathNode, p: Seq<int>)
    requires
        collapse_result(old, new, p),
        wf_node(old),
    ensures
        wf_node(new),
{
    if node_at(old, p) is Some {
        assert(node_at(new, p)->0.children@ =~= Seq::<PathNode>::empty());
        assert(wf_node(node_at(new, p)->0));
        lemma_agrees_except_wf(old, new, p);
    }
}

} // verus!
