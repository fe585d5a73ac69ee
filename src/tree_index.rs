use vstd::prelude::*;

verus! {

/// Pre-order position order on paths: lexicographic, with a path placed
/// before each of its extensions.
pub open spec fn path_lt(a: Seq<int>, b: Seq<int>) -> bool
    decreases a.len(),
{
    if b.len() == 0 {
        false
    } else if a.len() == 0 {
        true
    } else if a[0] != b[0] {
        a[0] < b[0]
    } else {
        path_lt(a.drop_first(), b.drop_first())
    }
}

pub proof fn lemma_path_lt_irreflexive(a: Seq<int>)
    ensures
        !path_lt(a, a),
    decreases a.len(),
{
    if a.len() > 0 {
        lemma_path_lt_irreflexive(a.drop_first());
    }
}

pub proof fn lemma_path_lt_asymmetric(a: Seq<int>, b: Seq<int>)
    requires
        path_lt(a, b),
    ensures
        !path_lt(b, a),
    decreases a.len(),
{
    if a.len() > 0 && a[0] == b[0] {
        lemma_path_lt_asymmetric(a.drop_first(), b.drop_first());
    }
}

/// Putting the same offset in front of two paths keeps their order.
pub proof fn lemma_path_lt_cons(k: int, a: Seq<int>, b: Seq<int>)
    ensures
        path_lt(seq![k] + a, seq![k] + b) == path_lt(a, b),
{
    assert((seq![k] + a).drop_first() =~= a);
    assert((seq![k] + b).drop_first() =~= b);
}

/// A position in the tree: the offsets of the children to follow from the root.
#[derive(Debug, Clone)]
pub struct TreeIndex {
    pub index: Vec<usize>,
}

impl View for TreeIndex {
    type V = Seq<int>;

    open spec fn view(&self) -> Seq<int> {
        self.index@.map_values(|i: usize| i as int)
    }
}

/// The sum of the offsets of a path, each counted one higher.
pub open spec fn offset_sum(p: Seq<int>) -> int
    decreases p.len(),
{
    if p.len() == 0 {
        0
    } else {
        offset_sum(p.drop_last()) + p.last() + 1
    }
}

impl PartialEq for TreeIndex {
    fn eq(&self, other: &TreeIndex) -> (r: bool)
        ensures
            r == (self@ == other@),
    {
        let n = self.index.len();
        if n != other.index.len() {
            assert(self@.len() != other@.len());
            return false;
        }
        let mut i: usize = 0;
        while i < n
            invariant
                n == self.index.len(),
                n == other.index.len(),
                0 <= i <= n,
                forall|j: int| 0 <= j < i ==> self.index@[j] == other.index@[j],
            decreases n - i,
        {
            if self.index[i] != other.index[i] {
                assert(self@[i as int] != other@[i as int]);
                return false;
            }
            i += 1;
        }
        assert(self@ =~= other@);
        true
    }
}

impl vstd::std_specs::cmp::PartialEqSpecImpl for TreeIndex {
    open spec fn obeys_eq_spec() -> bool {
        true
    }

    open spec fn eq_spec(&self, other: &TreeIndex) -> bool {
        self@ == other@
    }
}

impl From<Vec<usize>> for TreeIndex {
    fn from(index: Vec<usize>) -> (r: TreeIndex)
        ensures
            r.index@ == index@,
    {
        TreeIndex { index }
    }
}

impl vstd::std_specs::convert::FromSpecImpl<Vec<usize>> for TreeIndex {
    open spec fn obeys_from_spec() -> bool {
        true
    }

    open spec fn from_spec(index: Vec<usize>) -> TreeIndex {
        TreeIndex { index }
    }
}

impl TreeIndex {
    /// The index of the root.
    pub fn new() -> (r: Self)
        ensures
            r@ == Seq::<int>::empty(),
    {
        let r = TreeIndex { index: Vec::new() };
        assert(r@ =~= Seq::<int>::empty());
        r
    }

    /// The index of the parent; the root is its own parent.
    pub fn get_parent(&self) -> (r: Self)
        ensures
            self@.len() == 0 ==> r@ == self@,
            self@.len() > 0 ==> r@ == self@.drop_last(),
    {
        let mut index: Vec<usize> = Vec::new();
        let n = self.index.len();
        if n == 0 {
            assert(index@.map_values(|i: usize| i as int) =~= self@);
            return TreeIndex { index };
        }
        let mut i: usize = 0;
        while i + 1 < n
            invariant
                n == self.index.len(),
                n > 0,
                0 <= i < n,
                index@ == self.index@.subrange(0, i as int),
            decreases n - i,
        {
            index.push(self.index[i]);
            i += 1;
            assert(index@ =~= self.index@.subrange(0, i as int));
        }
        let r = TreeIndex { index };
        assert(r@ =~= self@.drop_last());
        r
    }

    /// The row that the index would have in a tree whose nodes all lie
    /// before it: the sum of the offsets, each counted one higher, less one.
    pub fn to_flat_index(&self) -> (r: usize)
        requires
            offset_sum(self@) <= usize::MAX,
        ensures
            self@.len() == 0 ==> r == 0,
            self@.len() > 0 ==> r == offset_sum(self@) - 1,
    {
        let n = self.index.len();
        if n == 0 {
            return 0;
        }
        let mut sum: usize = 0;
        let mut i: usize = 0;
        while i < n
            invariant
                n == self.index.len(),
                0 <= i <= n,
                sum == offset_sum(self@.subrange(0, i as int)),
                offset_sum(self@) <= usize::MAX,
            decreases n - i,
        {
            proof {
                lemma_offset_sum_prefix(self@, (i + 1) as int);
                assert(self@.subrange(0, i + 1 as int).drop_last() =~= self@.subrange(0, i as int));
            }
            sum = sum + self.index[i] + 1;
            i += 1;
        }
        assert(self@.subrange(0, n as int) =~= self@);
        proof {
            lemma_offset_sum_nonneg(self@.drop_last());
        }
        sum - 1
    }
}

proof fn lemma_offset_sum_nonneg(p: Seq<int>)
    requires
        forall|i: int| 0 <= i < p.len() ==> p[i] >= 0,
    ensures
        offset_sum(p) >= 0,
    decreases p.len(),
{
    if p.len() > 0 {
        lemma_offset_sum_nonneg(p.drop_last());
    }
}

proof fn lemma_offset_sum_prefix(p: Seq<int>, j: int)
    requires
        0 <= j <= p.len(),
        forall|i: int| 0 <= i < p.len() ==> p[i] >= 0,
    ensures
        offset_sum(p.subrange(0, j)) <= offset_sum(p),
    decreases p.len() - j,
{
    if j < p.len() {
        lemma_offset_sum_prefix(p, j + 1);
        assert(p.subrange(0, j + 1).drop_last() =~= p.subrange(0, j));
    } else {
        assert(p.subrange(0, j) =~= p);
    }
}


impl TreeIndex {
    /// A copy of this index.
    pub fn clone_index(&self) -> (r: TreeIndex)
        ensures
            r@ == self@,
    {
        let mut index: Vec<usize> = Vec::new();
        let mut i: usize = 0;
        while i < self.index.len()
            invariant
                0 <= i <= self.index@.len(),
                index@ == self.index@.subrange(0, i as int),
            decreases self.index@.len() - i,
        {
            index.push(self.index[i]);
            i += 1;
            assert(index@ =~= self.index@.subrange(0, i as int));
        }
        assert(self.index@.subrange(0, self.index@.len() as int) =~= self.index@);
        TreeIndex { index }
    }
}

} // verus!
