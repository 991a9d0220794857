//! The arena-owning context: owns every node ever constructed, issues stable
//! handles, and never frees or moves a node before its own teardown.

use vstd::prelude::*;

use crate::node::{node_bounded, Node, NodePtr};

verus! {

/// Every node's children lie strictly below the node's own slot: the shape an
/// append-only arena gets from bottom-up construction. It rules out cycles and
/// bounds every walk.
pub open spec fn arena_wf(nodes: Seq<Node>) -> bool {
    forall|i: int| 0 <= i < nodes.len() ==> node_bounded(#[trigger] nodes[i], i)
}

/// Owns storage for all nodes constructed during its lifetime. A handle is
/// meaningful only against the context that issued it; every dereference
/// demands, as a verified precondition, that the handle's slot lies inside
/// this context.
pub struct Context {
    nodes: Vec<Node>,
}

impl View for Context {
    type V = Seq<Node>;

    closed spec fn view(&self) -> Seq<Node> {
        self.nodes@
    }
}

impl Context {
    pub open spec fn wf(&self) -> bool {
        arena_wf(self@)
    }

    pub fn new() -> (r: Context)
        ensures
            r@ == Seq::<Node>::empty(),
            r.wf(),
    {
        Context { nodes: Vec::new() }
    }

    pub fn len(&self) -> (r: usize)
        ensures
            r == self@.len(),
    {
        self.nodes.len()
    }

    /// Whether the handle names a slot of this context. A handle another
    /// context issued for a slot this one has not reached is rejected here;
    /// dereferencing demands this as its precondition.
    pub fn contains(&self, p: NodePtr) -> (r: bool)
        ensures
            r == p.valid(*self),
    {
        p.index() < self.nodes.len()
    }

    /// Stores the value and returns a stable handle to it. The value's child
    /// handles must already have been issued by this context, which is what a
    /// bottom-up builder always hands in.
    pub fn allocate(&mut self, node: Node) -> (r: NodePtr)
        requires
            old(self).wf(),
            node_bounded(node, old(self)@.len() as int),
        ensures
            final(self)@ == old(self)@.push(node),
            final(self).wf(),
            r@ == old(self)@.len() as int,
    {
        let idx = self.nodes.len();
        self.nodes.push(node);
        proof {
            assert forall|i: int| 0 <= i < self@.len() implies node_bounded(
                #[trigger] self@[i],
                i,
            ) by {
                if i < old(self)@.len() {
                    assert(self@[i] == old(self)@[i]);
                }
            }
        }
        NodePtr::from_index(idx)
    }
}

impl NodePtr {
    pub open spec fn valid(self, ctx: Context) -> bool {
        0 <= self@ < ctx@.len()
    }

    /// Dereferences the handle against the context that issued it.
    pub fn get<'a>(&self, ctx: &'a Context) -> (r: &'a Node)
        requires
            self.valid(*ctx),
        ensures
            *r == ctx@[self@],
    {
        let i = self.index();
        &ctx.nodes_ref()[i]
    }
}

impl Context {
    fn nodes_ref(&self) -> (r: &Vec<Node>)
        ensures
            r@ == self@,
    {
        &self.nodes
    }
}

} // verus!
