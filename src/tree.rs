use vstd::prelude::*;

verus! {

/// A tree node that owns its children, labelled with an `info` payload.
pub struct Node<N> {
    pub info: N,
    pub children: Vec<Box<Node<N>>>,
}

/// The mathematical value of a tree: its label and the values of its children.
pub ghost struct Tree<I> {
    pub info: I,
    pub children: Seq<Tree<I>>,
}

/// The value of a node, read recursively through its owned children.
pub open spec fn node_view<N>(n: Node<N>) -> Tree<N>
    decreases n,
{
    Tree {
        info: n.info,
        children: Seq::new(
            n.children@.len(),
            |i: int|
                if 0 <= i < n.children@.len() {
                    node_view(*n.children@[i])
                } else {
                    arbitrary()
                },
        ),
    }
}

/// The values of a sequence of child nodes.
pub open spec fn kids<N>(cs: Seq<Box<Node<N>>>) -> Seq<Tree<N>> {
    Seq::new(cs.len(), |i: int| node_view(*cs[i]))
}

/// A tree with the given label and no children.
pub open spec fn atom<I>(info: I) -> Tree<I> {
    Tree { info, children: Seq::empty() }
}

/// The number of nodes in a tree.
pub open spec fn size<I>(t: Tree<I>) -> nat
    decreases t,
{
    1 + sizes(t.children)
}

/// The number of nodes in a sequence of trees.
pub open spec fn sizes<I>(ts: Seq<Tree<I>>) -> nat
    decreases ts,
{
    if ts.len() == 0 {
        0
    } else {
        sizes(ts.drop_last()) + size(ts.last())
    }
}

pub proof fn lemma_node_view<N>(n: Node<N>)
    ensures
        node_view(n) == (Tree { info: n.info, children: kids(n.children@) }),
{
    assert(node_view(n).children =~= kids(n.children@));
}

/// Builds a node from its label and children.
pub fn make<N>(info: N, children: Vec<Box<Node<N>>>) -> (r: Box<Node<N>>)
    ensures
        node_view(*r) == (Tree { info, children: kids(children@) }),
{
    let n = Node { info, children };
    proof {
        lemma_node_view(n);
    }
    Box::new(n)
}

/// An empty list of children.
pub fn no_children<N>() -> (r: Vec<Box<Node<N>>>)
    ensures
        kids(r@) == Seq::<Tree<N>>::empty(),
{
    let r: Vec<Box<Node<N>>> = Vec::new();
    assert(kids(r@) =~= Seq::<Tree<N>>::empty());
    r
}

/// Appends a child.
pub fn push_child<N>(cs: &mut Vec<Box<Node<N>>>, c: Box<Node<N>>)
    ensures
        kids(final(cs)@) == kids(old(cs)@).push(node_view(*c)),
{
    let ghost c0 = *c;
    cs.push(c);
    assert(kids(cs@) =~= kids(old(cs)@).push(node_view(c0)));
}

} // verus!
