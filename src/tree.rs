use vstd::prelude::*;

verus! {

/// The position of a node in a `Tree`'s arena.
pub type NodeIndex = usize;

/// A node of an arena tree: its own position, its value, and the positions
/// of its parent and children.
#[derive(Debug)]
pub struct Node<T> {
    pub index: NodeIndex,
    pub value: T,
    pub parent: Option<NodeIndex>,
    pub children: Vec<NodeIndex>,
}

/// A tree whose nodes live in one vector and refer to each other by
/// position; node 0 is the root.
#[derive(Debug)]
pub struct Tree<T> {
    nodes: Vec<Node<T>>,
}

impl<T> Tree<T> {
    pub closed spec fn nodes(&self) -> Seq<Node<T>> {
        self.nodes@
    }

    /// Each node knows its own position, and every position it holds names
    /// a node.
    pub open spec fn wf(&self) -> bool {
        &&& self.nodes().len() >= 1
        &&& forall|i: int| 0 <= i < self.nodes().len() ==> (#[trigger] self.nodes()[i]).index == i
        &&& forall|i: int, j: int|
            0 <= i < self.nodes().len() && 0 <= j < self.nodes()[i].children@.len()
                ==> #[trigger] self.nodes()[i].children@[j] < self.nodes().len()
        &&& forall|i: int|
            0 <= i < self.nodes().len() && (#[trigger] self.nodes()[i]).parent is Some
                ==> self.nodes()[i].parent->0 < self.nodes().len()
    }

    /// A tree of the root alone.
    pub fn new(value: T) -> (r: Self)
        ensures
            r.wf(),
            r.nodes().len() == 1,
            r.nodes()[0].value == value,
            r.nodes()[0].parent is None,
            r.nodes()[0].children@.len() == 0,
    {
        let node = Node { index: 0, value, parent: None, children: Vec::new() };
        let mut nodes: Vec<Node<T>> = Vec::new();
        nodes.push(node);
        Tree { nodes }
    }

    /// Adds a node with no parent and no children; returns its position.
    pub fn add_node(&mut self, value: T) -> (r: NodeIndex)
        requires
            old(self).wf(),
            old(self).nodes().len() < usize::MAX,
        ensures
            final(self).wf(),
            r == old(self).nodes().len(),
            final(self).nodes().len() == old(self).nodes().len() + 1,
            final(self).nodes().subrange(0, r as int) == old(self).nodes(),
            final(self).nodes()[r as int].value == value,
            final(self).nodes()[r as int].parent is None,
            final(self).nodes()[r as int].children@.len() == 0,
    {
        let index = self.nodes.len();
        let node = Node { index, value, parent: None, children: Vec::new() };
        self.nodes.push(node);
        assert(self.nodes@.subrange(0, index as int) =~= old(self).nodes@);
        assert forall|i: int, j: int|
            0 <= i < self.nodes().len() && 0 <= j < self.nodes()[i].children@.len() implies #[trigger] self.nodes()[i].children@[j]
            < self.nodes().len() by {
            if i < index {
                assert(self.nodes()[i] == old(self).nodes()[i]);
            }
        }
        assert forall|i: int|
            0 <= i < self.nodes().len() && (#[trigger] self.nodes()[i]).parent is Some implies self.nodes()[i].parent->0
            < self.nodes().len() by {
            if i < index {
                assert(self.nodes()[i] == old(self).nodes()[i]);
            }
        }
        index
    }

    /// Makes `child` the last child of `parent`, and `parent` its parent.
    pub fn connect(&mut self, parent: NodeIndex, child: NodeIndex)
        requires
            old(self).wf(),
            parent < old(self).nodes().len(),
            child < old(self).nodes().len(),
        ensures
            final(self).wf(),
            final(self).nodes().len() == old(self).nodes().len(),
            final(self).nodes()[parent as int].children@ == old(self).nodes()[parent as int].children@.push(
                child,
            ),
            final(self).nodes()[child as int].parent == Some(parent),
            final(self).nodes()[child as int].value == old(self).nodes()[child as int].value,
            final(self).nodes()[parent as int].value == old(self).nodes()[parent as int].value,
            parent != child ==> final(self).nodes()[child as int].children == old(self).nodes()[child as int].children,
            parent != child ==> final(self).nodes()[parent as int].parent == old(self).nodes()[parent as int].parent,
            forall|i: int|
                0 <= i < old(self).nodes().len() && i != parent && i != child ==> final(self).nodes()[i]
                    == old(self).nodes()[i],
    {
        self.nodes[parent].children.push(child);
        self.nodes[child].parent = Some(parent);
        assert forall|i: int, j: int|
            0 <= i < self.nodes().len() && 0 <= j < self.nodes()[i].children@.len() implies #[trigger] self.nodes()[i].children@[j]
            < self.nodes().len() by {
            if i != parent {
                assert(self.nodes()[i].children == old(self).nodes()[i].children);
            } else if j < old(self).nodes()[i].children@.len() {
                assert(self.nodes()[i].children@[j] == old(self).nodes()[i].children@[j]);
            }
        }
        assert forall|i: int|
            0 <= i < self.nodes().len() && (#[trigger] self.nodes()[i]).parent is Some implies self.nodes()[i].parent->0
            < self.nodes().len() by {
            if i != child {
                assert(self.nodes()[i].parent == old(self).nodes()[i].parent);
            }
        }
    }

    /// The node at `index`.
    pub fn get_node(&self, index: NodeIndex) -> (r: &Node<T>)
        requires
            index < self.nodes().len(),
        ensures
            *r == self.nodes()[index as int],
    {
        &self.nodes[index]
    }

    /// Adds a node as the last child of `parent`; returns its position.
    pub fn add_child(&mut self, parent: NodeIndex, value: T) -> (r: NodeIndex)
        requires
            old(self).wf(),
            parent < old(self).nodes().len(),
            old(self).nodes().len() < usize::MAX,
        ensures
            final(self).wf(),
            r == old(self).nodes().len(),
            final(self).nodes().len() == old(self).nodes().len() + 1,
            final(self).nodes()[r as int].value == value,
            final(self).nodes()[r as int].parent == Some(parent),
            final(self).nodes()[r as int].children@.len() == 0,
            final(self).nodes()[parent as int].children@ == old(self).nodes()[parent as int].children@.push(
                r,
            ),
            forall|i: int|
                0 <= i < old(self).nodes().len() && i != parent ==> final(self).nodes()[i] == old(
                    self,
                ).nodes()[i],
    {
        let child = self.add_node(value);
        proof {
            assert(self.nodes()[parent as int] == old(self).nodes()[parent as int]);
        }
        self.connect(parent, child);
        child
    }
}

/// A depth-first walk of a tree from its root: each node is visited before
/// its children, and the children in reverse order of insertion.
pub struct DepthFirstIterator<'a, T> {
    pub tree: &'a Tree<T>,
    pub vertex_stack: Vec<NodeIndex>,
}

impl<'a, T> DepthFirstIterator<'a, T> {
    pub open spec fn wf(&self) -> bool {
        &&& self.tree.wf()
        &&& forall|i: int|
            0 <= i < self.vertex_stack@.len() ==> #[trigger] self.vertex_stack@[i]
                < self.tree.nodes().len()
    }

    /// A walk that starts at the root.
    pub fn new(tree: &'a Tree<T>) -> (r: Self)
        requires
            tree.wf(),
        ensures
            r.wf(),
            r.tree == tree,
            r.vertex_stack@.len() == 1,
            r.vertex_stack@[0] == 0,
    {
        let mut vertex_stack: Vec<NodeIndex> = Vec::new();
        vertex_stack.push(0);
        DepthFirstIterator { tree, vertex_stack }
    }

    /// The next node of the walk: the top of the stack, whose children are
    /// put on the stack in their order; `None` once the walk is done.
    pub fn next(&mut self) -> (r: Option<NodeIndex>)
        requires
            old(self).wf(),
        ensures
            final(self).wf(),
            final(self).tree == old(self).tree,
            old(self).vertex_stack@.len() == 0 ==> r is None && final(self).vertex_stack@.len() == 0,
            old(self).vertex_stack@.len() > 0 ==> {
                let v = old(self).vertex_stack@.last();
                let kids = old(self).tree.nodes()[v as int].children@;
                &&& r == Some(v)
                &&& final(self).vertex_stack@.len() == old(self).vertex_stack@.len() - 1 + kids.len()
                &&& forall|i: int|
                    0 <= i < old(self).vertex_stack@.len() - 1 ==> #[trigger] final(self).vertex_stack@[i]
                        == old(self).vertex_stack@[i]
                &&& forall|j: int|
                    0 <= j < kids.len() ==> #[trigger] final(self).vertex_stack@[old(
                        self,
                    ).vertex_stack@.len() - 1 + j] == kids[j]
            },
    {
        match self.vertex_stack.pop() {
            Some(vertex) => {
                let node = self.tree.get_node(vertex);
                let n = node.children.len();
                let base = self.vertex_stack.len();
                let mut k: usize = 0;
                while k < n
                    invariant
                        self.tree == old(self).tree,
                        self.tree.wf(),
                        *node == self.tree.nodes()[vertex as int],
                        vertex < self.tree.nodes().len(),
                        n == node.children@.len(),
                        base == old(self).vertex_stack@.len() - 1,
                        vertex == old(self).vertex_stack@.last(),
                        0 <= k <= n,
                        self.vertex_stack@.len() == base + k,
                        forall|i: int|
                            0 <= i < base ==> #[trigger] self.vertex_stack@[i]
                                == old(self).vertex_stack@[i],
                        forall|j: int|
                            0 <= j < k ==> #[trigger] self.vertex_stack@[base + j]
                                == node.children@[j],
                        forall|i: int|
                            0 <= i < self.vertex_stack@.len() ==> #[trigger] self.vertex_stack@[i]
                                < self.tree.nodes().len(),
                    decreases n - k,
                {
                    let child = node.children[k];
                    self.vertex_stack.push(child);
                    k += 1;
                }
                Some(vertex)
            },
            None => None,
        }
    }
}

} // verus!
