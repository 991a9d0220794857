//! The uniform pre-order, depth-first traversal protocol: one callback per
//! node, children discovered through the schema's field enumeration, descent
//! under the caller's control.

use vstd::prelude::*;

use crate::ctx::Context;
use crate::node::{
    children_of, field_children, field_view, fields_children, fields_of, node_bounded, opt_ptr_view,
    ptrs_view,
    Field, FieldSpec, FieldVal, FieldValue, Node, NodePtr,
};

verus! {

/// The parent argument handed to a callback is honest: absent, or a node that
/// really references the visited node through one of its fields.
pub open spec fn parent_ok(nodes: Seq<Node>, node: NodePtr, parent: Option<NodePtr>) -> bool {
    match parent {
        None => true,
        Some(p) => 0 <= p@ < nodes.len() && children_of(nodes[p@]).contains(node@),
    }
}

/// A caller-supplied per-node callback. The traversal invokes it once per
/// visited node, parent before children; the callback decides whether to
/// descend by calling `visit_children` itself.
pub trait Visitor: Sized {
    /// What one invocation of the callback means for this visitor: how the
    /// state after the call relates to the state before it and to the visited
    /// slot and parent. An implementation overrides this with the relation
    /// its callback maintains; the traversal's contracts promise exactly this
    /// relation, once per visited node, whatever the implementation states.
    /// The traversal is verified against an arbitrary implementation, so it
    /// never leans on the trivial default: it must really make the calls.
    open spec fn visited(&self, pre: Self, nodes: Seq<Node>, node: int, parent: Option<int>) -> bool {
        true
    }

    fn call(&mut self, ctx: &Context, node: NodePtr, parent: Option<NodePtr>)
        requires
            ctx.wf(),
            node.valid(*ctx),
            parent_ok(ctx@, node, parent),
        ensures
            final(self).visited(*old(self), ctx@, node@, opt_ptr_view(parent)),
    ;
}

/// A run of visitor states, one callback step per listed child slot, in
/// order: consecutive states are linked by the implementation's `visited`
/// relation on that slot, with the given parent.
pub open spec fn visited_chain<V: Visitor>(
    states: Seq<V>,
    nodes: Seq<Node>,
    cs: Seq<int>,
    parent: int,
) -> bool {
    &&& states.len() == cs.len() + 1
    &&& forall|k: int|
        0 <= k < cs.len() ==> #[trigger] states[k + 1].visited(
            states[k],
            nodes,
            cs[k],
            Some(parent),
        )
}

proof fn lemma_visited_chain_push<V: Visitor>(
    states: Seq<V>,
    nodes: Seq<Node>,
    cs: Seq<int>,
    parent: int,
    v: V,
    c: int,
)
    requires
        visited_chain(states, nodes, cs, parent),
        v.visited(states[cs.len() as int], nodes, c, Some(parent)),
    ensures
        visited_chain(states.push(v), nodes, cs.push(c), parent),
{
    assert forall|k: int| 0 <= k < cs.push(c).len() implies #[trigger] states.push(v)[k
        + 1].visited(states.push(v)[k], nodes, cs.push(c)[k], Some(parent)) by {
        if k < cs.len() {
            assert(states.push(v)[k + 1] == states[k + 1]);
            assert(states.push(v)[k] == states[k]);
            assert(cs.push(c)[k] == cs[k]);
            assert(states[k + 1].visited(states[k], nodes, cs[k], Some(parent)));
        } else {
            assert(states.push(v)[k + 1] == v);
            assert(states.push(v)[k] == states[cs.len() as int]);
            assert(cs.push(c)[k] == c);
        }
    }
}

/// A child found in a field list is a child of the node.
pub proof fn lemma_fields_children_contains(fs: Seq<FieldSpec>, i: int, c: int)
    requires
        0 <= i < fs.len(),
        field_children(fs[i].value).contains(c),
    ensures
        fields_children(fs).contains(c),
    decreases fs.len(),
{
    if i == 0 {
        let inner = field_children(fs[0].value);
        let j = choose|j: int| 0 <= j < inner.len() && inner[j] == c;
        assert(fields_children(fs)[j] == c);
    } else {
        lemma_fields_children_contains(fs.drop_first(), i - 1, c);
        let rest = fields_children(fs.drop_first());
        let j = choose|j: int| 0 <= j < rest.len() && rest[j] == c;
        assert(fields_children(fs)[field_children(fs[0].value).len() + j] == c);
    }
}

/// A child of a bounded node lies strictly below the bound.
pub proof fn lemma_bounded_child(node: Node, bound: int, c: int)
    requires
        node_bounded(node, bound),
        children_of(node).contains(c),
    ensures
        0 <= c < bound,
{
    let j = choose|j: int|
        0 <= j < children_of(node).len() && children_of(node)[j] == c;
    assert(children_of(node)[j] == c);
}

/// The slots a full pre-order, depth-first walk from slot `idx` enumerates:
/// the node itself, then every child subtree, fields in declaration order,
/// list elements in sequence order.
pub open spec fn preorder_spec(nodes: Seq<Node>, idx: int) -> Seq<int>
    decreases idx, 1int, 0int,
{
    if 0 <= idx < nodes.len() {
        seq![idx] + preorder_list(nodes, children_of(nodes[idx]), idx)
    } else {
        Seq::empty()
    }
}

pub open spec fn preorder_list(nodes: Seq<Node>, cs: Seq<int>, bound: int) -> Seq<int>
    decreases bound, 0int, cs.len(),
{
    if cs.len() == 0 {
        Seq::empty()
    } else {
        (if 0 <= cs[0] < bound {
            preorder_spec(nodes, cs[0])
        } else {
            Seq::<int>::empty()
        }) + preorder_list(nodes, cs.drop_first(), bound)
    }
}

pub proof fn lemma_contains_concat(a: Seq<int>, b: Seq<int>, x: int)
    ensures
        (a + b).contains(x) <==> a.contains(x) || b.contains(x),
{
    if (a + b).contains(x) {
        let j = choose|j: int| 0 <= j < (a + b).len() && (a + b)[j] == x;
        if j < a.len() {
            assert(a[j] == x);
        } else {
            assert(b[j - a.len()] == x);
        }
    }
    if a.contains(x) {
        let j = choose|j: int| 0 <= j < a.len() && a[j] == x;
        assert((a + b)[j] == x);
    }
    if b.contains(x) {
        let j = choose|j: int| 0 <= j < b.len() && b[j] == x;
        assert((a + b)[a.len() + j] == x);
    }
}

pub proof fn lemma_preorder_list_concat(nodes: Seq<Node>, a: Seq<int>, b: Seq<int>, bound: int)
    ensures
        preorder_list(nodes, a + b, bound) == preorder_list(nodes, a, bound) + preorder_list(
            nodes,
            b,
            bound,
        ),
    decreases a.len(),
{
    if a.len() == 0 {
        assert(a + b =~= b);
        assert(preorder_list(nodes, a, bound) == Seq::<int>::empty());
        assert(preorder_list(nodes, a + b, bound) =~= preorder_list(nodes, a, bound)
            + preorder_list(nodes, b, bound));
    } else {
        assert((a + b)[0] == a[0]);
        assert((a + b).drop_first() =~= a.drop_first() + b);
        lemma_preorder_list_concat(nodes, a.drop_first(), b, bound);
        assert(preorder_list(nodes, a + b, bound) =~= preorder_list(nodes, a, bound)
            + preorder_list(nodes, b, bound));
    }
}

pub proof fn lemma_fields_children_push(fs: Seq<FieldSpec>, f: FieldSpec)
    ensures
        fields_children(fs.push(f)) == fields_children(fs) + field_children(f.value),
    decreases fs.len(),
{
    if fs.len() == 0 {
        assert(fs.push(f)[0] == f);
        assert(fs.push(f).drop_first() =~= Seq::<FieldSpec>::empty());
        assert(fields_children(Seq::<FieldSpec>::empty()) == Seq::<int>::empty());
        assert(fields_children(fs.push(f)) == field_children(f.value) + Seq::<int>::empty());
        assert(fields_children(fs.push(f)) =~= fields_children(fs) + field_children(f.value));
    } else {
        assert(fs.push(f)[0] == fs[0]);
        assert(fs.push(f).drop_first() =~= fs.drop_first().push(f));
        lemma_fields_children_push(fs.drop_first(), f);
        assert(fields_children(fs.push(f)) =~= fields_children(fs) + field_children(f.value));
    }
}

/// Reachability along child references.
pub open spec fn reachable(nodes: Seq<Node>, a: int, b: int) -> bool
    decreases a, 1int, 0int,
{
    if 0 <= a < nodes.len() {
        a == b || reachable_list(nodes, children_of(nodes[a]), a, b)
    } else {
        false
    }
}

pub open spec fn reachable_list(nodes: Seq<Node>, cs: Seq<int>, bound: int, b: int) -> bool
    decreases bound, 0int, cs.len(),
{
    if cs.len() == 0 {
        false
    } else {
        (0 <= cs[0] < bound && reachable(nodes, cs[0], b)) || reachable_list(
            nodes,
            cs.drop_first(),
            bound,
            b,
        )
    }
}

/// Law: a full pre-order walk enumerates exactly the reachable nodes, and the
/// walked node stands first, before every one of its descendants.
pub proof fn lemma_preorder_enumerates(nodes: Seq<Node>, a: int, b: int)
    ensures
        preorder_spec(nodes, a).contains(b) <==> reachable(nodes, a, b),
        0 <= a < nodes.len() ==> preorder_spec(nodes, a).len() >= 1 && preorder_spec(
            nodes,
            a,
        )[0] == a,
    decreases a, 1int, 0int,
{
    if 0 <= a < nodes.len() {
        let po = preorder_list(nodes, children_of(nodes[a]), a);
        lemma_contains_concat(seq![a], po, b);
        assert(seq![a].contains(b) <==> a == b) by {
            if a == b {
                assert(seq![a][0] == b);
            }
        }
        lemma_preorder_list_enumerates(nodes, children_of(nodes[a]), a, b);
        assert(preorder_spec(nodes, a)[0] == a);
    }
}

proof fn lemma_preorder_list_enumerates(nodes: Seq<Node>, cs: Seq<int>, bound: int, b: int)
    ensures
        preorder_list(nodes, cs, bound).contains(b) <==> reachable_list(nodes, cs, bound, b),
    decreases bound, 0int, cs.len(),
{
    if cs.len() != 0 {
        let entry: Seq<int> = if 0 <= cs[0] < bound {
            preorder_spec(nodes, cs[0])
        } else {
            Seq::<int>::empty()
        };
        lemma_contains_concat(entry, preorder_list(nodes, cs.drop_first(), bound), b);
        if 0 <= cs[0] < bound {
            lemma_preorder_enumerates(nodes, cs[0], b);
        }
        lemma_preorder_list_enumerates(nodes, cs.drop_first(), bound, b);
    }
}

/// No node is reachable both from `c` and from any slot in `rest`.
pub open spec fn disjoint_from_all(nodes: Seq<Node>, c: int, rest: Seq<int>, bound: int) -> bool {
    forall|x: int| !(#[trigger] reachable(nodes, c, x) && reachable_list(nodes, rest, bound, x))
}

/// The tree invariant a conforming builder guarantees: no sharing of subtrees
/// between two parent slots. Each child's subtree excludes the node itself,
/// the children's subtrees are pairwise disjoint, and each child is a tree.
pub open spec fn is_tree(nodes: Seq<Node>, idx: int) -> bool
    decreases idx, 1int, 0int,
{
    0 <= idx < nodes.len() ==> {
        &&& !reachable_list(nodes, children_of(nodes[idx]), idx, idx)
        &&& is_tree_list(nodes, children_of(nodes[idx]), idx)
    }
}

pub open spec fn is_tree_list(nodes: Seq<Node>, cs: Seq<int>, bound: int) -> bool
    decreases bound, 0int, cs.len(),
{
    if cs.len() == 0 {
        true
    } else {
        &&& (0 <= cs[0] < bound ==> is_tree(nodes, cs[0]))
        &&& disjoint_from_all(nodes, cs[0], cs.drop_first(), bound)
        &&& is_tree_list(nodes, cs.drop_first(), bound)
    }
}

proof fn lemma_nodup_concat(a: Seq<int>, b: Seq<int>)
    requires
        a.no_duplicates(),
        b.no_duplicates(),
        forall|x: int| !(#[trigger] a.contains(x) && b.contains(x)),
    ensures
        (a + b).no_duplicates(),
{
    assert forall|i: int, j: int|
        0 <= i < (a + b).len() && 0 <= j < (a + b).len() && i != j implies (a + b)[i] != (a
        + b)[j] by {
        if i < a.len() && j >= a.len() {
            assert(a.contains(a[i]));
            assert(b.contains(b[j - a.len()]));
        } else if i >= a.len() && j < a.len() {
            assert(a.contains(a[j]));
            assert(b.contains(b[i - a.len()]));
        }
    }
}

/// Law: under the tree invariant, a full pre-order enumeration holds every
/// node at most once — together with `lemma_preorder_enumerates`, exactly
/// once for each reachable node.
pub proof fn lemma_preorder_exactly_once(nodes: Seq<Node>, idx: int)
    requires
        is_tree(nodes, idx),
    ensures
        preorder_spec(nodes, idx).no_duplicates(),
    decreases idx, 1int, 0int,
{
    if 0 <= idx < nodes.len() {
        let cs = children_of(nodes[idx]);
        let pl = preorder_list(nodes, cs, idx);
        lemma_preorder_list_exactly_once(nodes, cs, idx);
        assert(seq![idx].no_duplicates());
        assert forall|x: int| !(#[trigger] seq![idx].contains(x) && pl.contains(x)) by {
            if seq![idx].contains(x) && pl.contains(x) {
                assert(x == idx);
                lemma_preorder_list_enumerates(nodes, cs, idx, x);
            }
        }
        lemma_nodup_concat(seq![idx], pl);
    }
}

proof fn lemma_preorder_list_exactly_once(nodes: Seq<Node>, cs: Seq<int>, bound: int)
    requires
        is_tree_list(nodes, cs, bound),
    ensures
        preorder_list(nodes, cs, bound).no_duplicates(),
    decreases bound, 0int, cs.len(),
{
    if cs.len() != 0 {
        let entry: Seq<int> = if 0 <= cs[0] < bound {
            preorder_spec(nodes, cs[0])
        } else {
            Seq::<int>::empty()
        };
        let rest = preorder_list(nodes, cs.drop_first(), bound);
        if 0 <= cs[0] < bound {
            lemma_preorder_exactly_once(nodes, cs[0]);
        }
        lemma_preorder_list_exactly_once(nodes, cs.drop_first(), bound);
        assert forall|x: int| !(#[trigger] entry.contains(x) && rest.contains(x)) by {
            if entry.contains(x) && rest.contains(x) {
                assert(0 <= cs[0] < bound);
                lemma_preorder_enumerates(nodes, cs[0], x);
                lemma_preorder_list_enumerates(nodes, cs.drop_first(), bound, x);
                assert(reachable(nodes, cs[0], x) && reachable_list(
                    nodes,
                    cs.drop_first(),
                    bound,
                    x,
                ));
            }
        }
        lemma_nodup_concat(entry, rest);
    }
}

/// Position `j` of the enumeration `po` is preceded by the position of a node
/// that references it through some field.
pub open spec fn precedes_as_parent(nodes: Seq<Node>, po: Seq<int>, j: int) -> bool {
    exists|i: int|
        0 <= i < j && 0 <= #[trigger] po[i] < nodes.len() && children_of(nodes[po[i]]).contains(
            po[j],
        )
}

/// Law: in a full pre-order enumeration, every entry but the first is
/// preceded by an entry of a node that references it — each parent comes
/// before all of its descendants.
pub proof fn lemma_preorder_parent_before(nodes: Seq<Node>, a: int)
    ensures
        forall|j: int|
            1 <= j < preorder_spec(nodes, a).len() ==> #[trigger] precedes_as_parent(
                nodes,
                preorder_spec(nodes, a),
                j,
            ),
    decreases a, 1int, 0int,
{
    if 0 <= a < nodes.len() {
        let po = preorder_spec(nodes, a);
        let pl = preorder_list(nodes, children_of(nodes[a]), a);
        lemma_preorder_list_parent_before(nodes, children_of(nodes[a]), a);
        assert forall|j: int| 1 <= j < po.len() implies #[trigger] precedes_as_parent(
            nodes,
            po,
            j,
        ) by {
            let jl = j - 1;
            assert(po[j] == pl[jl]);
            if children_of(nodes[a]).contains(pl[jl]) {
                assert(po[0] == a);
                assert(0 <= po[0] < nodes.len() && children_of(nodes[po[0]]).contains(po[j]));
            } else {
                assert(precedes_as_parent(nodes, pl, jl));
                let il = choose|il: int|
                    0 <= il < jl && 0 <= #[trigger] pl[il] < nodes.len() && children_of(
                        nodes[pl[il]],
                    ).contains(pl[jl]);
                assert(po[il + 1] == pl[il]);
                assert(0 <= po[il + 1] < nodes.len() && children_of(nodes[po[il + 1]]).contains(
                    po[j],
                ));
            }
        }
    }
}

proof fn lemma_preorder_list_parent_before(nodes: Seq<Node>, cs: Seq<int>, bound: int)
    ensures
        forall|j: int|
            0 <= j < preorder_list(nodes, cs, bound).len() ==> cs.contains(
                #[trigger] preorder_list(nodes, cs, bound)[j],
            ) || precedes_as_parent(nodes, preorder_list(nodes, cs, bound), j),
    decreases bound, 0int, cs.len(),
{
    if cs.len() != 0 {
        let pl = preorder_list(nodes, cs, bound);
        let entry: Seq<int> = if 0 <= cs[0] < bound {
            preorder_spec(nodes, cs[0])
        } else {
            Seq::<int>::empty()
        };
        let rest = preorder_list(nodes, cs.drop_first(), bound);
        if 0 <= cs[0] < bound {
            lemma_preorder_parent_before(nodes, cs[0]);
        }
        lemma_preorder_list_parent_before(nodes, cs.drop_first(), bound);
        assert forall|j: int| 0 <= j < pl.len() implies cs.contains(#[trigger] pl[j])
            || precedes_as_parent(nodes, pl, j) by {
            if j < entry.len() {
                assert(pl[j] == entry[j]);
                if j == 0 {
                    assert(entry[0] == cs[0]);
                    assert(cs.contains(pl[j]));
                } else {
                    assert(precedes_as_parent(nodes, entry, j));
                    let i = choose|i: int|
                        0 <= i < j && 0 <= #[trigger] entry[i] < nodes.len() && children_of(
                            nodes[entry[i]],
                        ).contains(entry[j]);
                    assert(pl[i] == entry[i]);
                    assert(0 <= pl[i] < nodes.len() && children_of(nodes[pl[i]]).contains(pl[j]));
                    assert(precedes_as_parent(nodes, pl, j));
                }
            } else {
                let jr = j - entry.len();
                assert(pl[j] == rest[jr]);
                if cs.drop_first().contains(rest[jr]) {
                    let k = choose|k: int|
                        0 <= k < cs.drop_first().len() && cs.drop_first()[k] == rest[jr];
                    assert(cs[k + 1] == rest[jr]);
                    assert(cs.contains(pl[j]));
                } else {
                    assert(precedes_as_parent(nodes, rest, jr));
                    let ir = choose|ir: int|
                        0 <= ir < jr && 0 <= #[trigger] rest[ir] < nodes.len() && children_of(
                            nodes[rest[ir]],
                        ).contains(rest[jr]);
                    assert(pl[entry.len() + ir] == rest[ir]);
                    assert(0 <= entry.len() + ir < j && 0 <= pl[entry.len() + ir] < nodes.len()
                        && children_of(nodes[pl[entry.len() + ir]]).contains(pl[j]));
                    assert(precedes_as_parent(nodes, pl, j));
                }
            }
        }
    }
}

proof fn lemma_preorder_singleton(nodes: Seq<Node>, x: int, bound: int)
    requires
        0 <= x < bound,
    ensures
        preorder_list(nodes, seq![x], bound) == preorder_spec(nodes, x),
{
    assert(seq![x][0] == x);
    assert(seq![x].drop_first() =~= Seq::<int>::empty());
    assert(preorder_list(nodes, Seq::<int>::empty(), bound) == Seq::<int>::empty());
    assert(preorder_list(nodes, seq![x], bound) =~= preorder_spec(nodes, x));
}

/// Collects the pre-order positions contributed by one field of the node in
/// `parent`'s slot.
#[verifier::rlimit(60)]
fn preorder_field<'a>(
    ctx: &Context,
    parent: NodePtr,
    f: &Field<'a>,
    Ghost(i): Ghost<int>,
    out: &mut Vec<NodePtr>,
)
    requires
        ctx.wf(),
        parent.valid(*ctx),
        0 <= i < fields_of(ctx@[parent@]).len(),
        field_view(*f) == fields_of(ctx@[parent@])[i],
    ensures
        ptrs_view(final(out)@) == ptrs_view(old(out)@) + preorder_list(
            ctx@,
            field_children(fields_of(ctx@[parent@])[i].value),
            parent@,
        ),
    decreases parent@, 0int,
{
    let ghost spec_fs = fields_of(ctx@[parent@]);
    let ghost base = ptrs_view(out@);
    match &f.value {
        FieldValue::Ptr(p) => {
            proof {
                assert(field_children(spec_fs[i].value).contains(p@)) by {
                    assert(field_children(spec_fs[i].value)[0] == p@);
                }
                lemma_fields_children_contains(spec_fs, i, p@);
                lemma_bounded_child(ctx@[parent@], parent@, p@);
            }
            preorder_into(ctx, *p, out);
            proof {
                assert(field_children(spec_fs[i].value) =~= seq![p@]);
                lemma_preorder_singleton(ctx@, p@, parent@);
                assert(ptrs_view(out@) =~= base + preorder_list(
                    ctx@,
                    field_children(spec_fs[i].value),
                    parent@,
                ));
            }
        },
        FieldValue::OptPtr(o) => {
            match o {
                None => {
                    proof {
                        assert(ptrs_view(out@) =~= base + preorder_list(
                            ctx@,
                            field_children(spec_fs[i].value),
                            parent@,
                        ));
                    }
                },
                Some(p) => {
                    proof {
                        assert(field_children(spec_fs[i].value).contains(p@)) by {
                            assert(field_children(spec_fs[i].value)[0] == p@);
                        }
                        lemma_fields_children_contains(spec_fs, i, p@);
                        lemma_bounded_child(ctx@[parent@], parent@, p@);
                    }
                    preorder_into(ctx, *p, out);
                    proof {
                        assert(field_children(spec_fs[i].value) =~= seq![p@]);
                        lemma_preorder_singleton(ctx@, p@, parent@);
                        assert(ptrs_view(out@) =~= base + preorder_list(
                            ctx@,
                            field_children(spec_fs[i].value),
                            parent@,
                        ));
                    }
                },
            }
        },
        FieldValue::List(l) => {
            let ghost lview = ptrs_view(l@);
            let k_max = l.len();
            let mut k: usize = 0;
            while k < k_max
                invariant
                    ctx.wf(),
                    parent.valid(*ctx),
                    k <= k_max,
                    k_max == l@.len(),
                    lview == ptrs_view(l@),
                    spec_fs == fields_of(ctx@[parent@]),
                    0 <= i < spec_fs.len(),
                    spec_fs[i].value == FieldVal::List(lview),
                    ptrs_view(out@) == base + preorder_list(ctx@, lview.take(k as int), parent@),
                decreases k_max - k,
            {
                let p = l[k];
                proof {
                    assert(field_children(spec_fs[i].value).contains(p@)) by {
                        assert(field_children(spec_fs[i].value)[k as int] == p@);
                    }
                    lemma_fields_children_contains(spec_fs, i, p@);
                    lemma_bounded_child(ctx@[parent@], parent@, p@);
                }
                preorder_into(ctx, p, out);
                proof {
                    lemma_preorder_list_concat(ctx@, lview.take(k as int), seq![p@], parent@);
                    lemma_preorder_singleton(ctx@, p@, parent@);
                    assert(lview.take(k as int + 1) =~= lview.take(k as int) + seq![p@]);
                }
                k = k + 1;
            }
            proof {
                assert(lview.take(k_max as int) =~= lview);
            }
        },
        _ => {
            proof {
                assert(field_children(spec_fs[i].value) =~= Seq::<int>::empty());
                assert(ptrs_view(out@) =~= base + preorder_list(
                    ctx@,
                    field_children(spec_fs[i].value),
                    parent@,
                ));
            }
        },
    }
}

fn preorder_into(ctx: &Context, node: NodePtr, out: &mut Vec<NodePtr>)
    requires
        ctx.wf(),
        node.valid(*ctx),
    ensures
        ptrs_view(final(out)@) == ptrs_view(old(out)@) + preorder_spec(ctx@, node@),
    decreases node@, 1int,
{
    let ghost base = ptrs_view(out@);
    out.push(node);
    proof {
        assert(ptrs_view(out@) =~= base + seq![node@]);
    }
    let n = node.get(ctx);
    let fs = n.fields();
    let ghost spec_fs = fields_of(ctx@[node@]);
    let m = fs.len();
    let mut i: usize = 0;
    while i < m
        invariant
            ctx.wf(),
            node.valid(*ctx),
            m == fs@.len(),
            fs@.len() == spec_fs.len(),
            spec_fs == fields_of(ctx@[node@]),
            forall|k: int| 0 <= k < fs@.len() ==> field_view(#[trigger] fs@[k]) == spec_fs[k],
            i <= m,
            ptrs_view(out@) == base + seq![node@] + preorder_list(
                ctx@,
                fields_children(spec_fs.take(i as int)),
                node@,
            ),
        decreases m - i,
    {
        preorder_field(ctx, node, &fs[i], Ghost(i as int), out);
        proof {
            lemma_fields_children_push(spec_fs.take(i as int), spec_fs[i as int]);
            assert(spec_fs.take(i as int + 1) =~= spec_fs.take(i as int).push(spec_fs[i as int]));
            lemma_preorder_list_concat(
                ctx@,
                fields_children(spec_fs.take(i as int)),
                field_children(spec_fs[i as int].value),
                node@,
            );
            assert(ptrs_view(out@) =~= base + seq![node@] + preorder_list(
                ctx@,
                fields_children(spec_fs.take(i as int + 1)),
                node@,
            ));
        }
        i = i + 1;
    }
    proof {
        assert(spec_fs.take(m as int) =~= spec_fs);
        assert(ptrs_view(out@) =~= base + preorder_spec(ctx@, node@));
    }
}

/// Full pre-order, depth-first traversal from `root`: the returned handles
/// follow `preorder_spec` exactly — each node before its children, fields in
/// schema declaration order, list elements in sequence order.
pub fn preorder(ctx: &Context, root: NodePtr) -> (r: Vec<NodePtr>)
    requires
        ctx.wf(),
        root.valid(*ctx),
    ensures
        ptrs_view(r@) == preorder_spec(ctx@, root@),
{
    let mut out: Vec<NodePtr> = Vec::new();
    preorder_into(ctx, root, &mut out);
    proof {
        assert(ptrs_view(out@) =~= Seq::<int>::empty() + preorder_spec(ctx@, root@));
        assert(ptrs_view(out@) =~= preorder_spec(ctx@, root@));
    }
    out
}

impl NodePtr {
    /// One traversal step: invokes the callback on this node, exactly once,
    /// with the given parent.
    pub fn visit<V: Visitor>(&self, ctx: &Context, visitor: &mut V, parent: Option<NodePtr>)
        requires
            ctx.wf(),
            self.valid(*ctx),
            parent_ok(ctx@, *self, parent),
        ensures
            final(visitor).visited(*old(visitor), ctx@, self@, opt_ptr_view(parent)),
    {
        visitor.call(ctx, *self, parent);
    }

    /// Default child traversal: iterates the node's fields in schema order
    /// and invokes the callback once on every referenced node, list elements
    /// in sequence order, with this node as the parent; scalar fields are not
    /// traversed. The visitor runs through a chain of states, one `visited`
    /// step per child slot of this node, in that order.
    pub fn visit_children<V: Visitor>(&self, ctx: &Context, visitor: &mut V)
        requires
            ctx.wf(),
            self.valid(*ctx),
        ensures
            exists|states: Seq<V>|
                #[trigger] visited_chain(states, ctx@, children_of(ctx@[self@]), self@)
                    && states[0] == *old(visitor) && states[children_of(
                    ctx@[self@],
                ).len() as int] == *final(visitor),
    {
        let node = self.get(ctx);
        let fs = node.fields();
        let ghost spec_fs = fields_of(ctx@[self@]);
        let ghost v0 = *visitor;
        let ghost mut vstates: Seq<V> = seq![v0];
        let n = fs.len();
        let mut i: usize = 0;
        while i < n
            invariant
                ctx.wf(),
                self.valid(*ctx),
                n == fs@.len(),
                fs@.len() == spec_fs.len(),
                spec_fs == fields_of(ctx@[self@]),
                forall|k: int| 0 <= k < fs@.len() ==> field_view(#[trigger] fs@[k]) == spec_fs[k],
                i <= n,
                visited_chain(vstates, ctx@, fields_children(spec_fs.take(i as int)), self@),
                vstates[0] == v0,
                vstates[fields_children(spec_fs.take(i as int)).len() as int] == *visitor,
            decreases n - i,
        {
            let ghost done = fields_children(spec_fs.take(i as int));
            match &fs[i].value {
                FieldValue::Ptr(p) => {
                    proof {
                        assert(spec_fs[i as int].value == FieldVal::Ptr(p@));
                        assert(field_children(spec_fs[i as int].value).contains(p@)) by {
                            assert(field_children(spec_fs[i as int].value)[0] == p@);
                        }
                        lemma_fields_children_contains(spec_fs, i as int, p@);
                        lemma_bounded_child(ctx@[self@], self@, p@);
                    }
                    p.visit(ctx, visitor, Some(*self));
                    proof {
                        lemma_visited_chain_push(vstates, ctx@, done, self@, *visitor, p@);
                        vstates = vstates.push(*visitor);
                        lemma_fields_children_push(spec_fs.take(i as int), spec_fs[i as int]);
                        assert(spec_fs.take(i as int + 1) =~= spec_fs.take(i as int).push(
                            spec_fs[i as int],
                        ));
                        assert(fields_children(spec_fs.take(i as int + 1)) =~= done.push(p@));
                    }
                },
                FieldValue::OptPtr(o) => {
                    match o {
                        Some(p) => {
                            proof {
                                assert(spec_fs[i as int].value == FieldVal::OptPtr(Some(p@)));
                                assert(field_children(spec_fs[i as int].value).contains(p@)) by {
                                    assert(field_children(spec_fs[i as int].value)[0] == p@);
                                }
                                lemma_fields_children_contains(spec_fs, i as int, p@);
                                lemma_bounded_child(ctx@[self@], self@, p@);
                            }
                            p.visit(ctx, visitor, Some(*self));
                            proof {
                                lemma_visited_chain_push(vstates, ctx@, done, self@, *visitor, p@);
                                vstates = vstates.push(*visitor);
                                lemma_fields_children_push(
                                    spec_fs.take(i as int),
                                    spec_fs[i as int],
                                );
                                assert(spec_fs.take(i as int + 1) =~= spec_fs.take(i as int).push(
                                    spec_fs[i as int],
                                ));
                                assert(fields_children(spec_fs.take(i as int + 1)) =~= done.push(
                                    p@,
                                ));
                            }
                        },
                        None => {
                            proof {
                                lemma_fields_children_push(
                                    spec_fs.take(i as int),
                                    spec_fs[i as int],
                                );
                                assert(spec_fs.take(i as int + 1) =~= spec_fs.take(i as int).push(
                                    spec_fs[i as int],
                                ));
                                assert(fields_children(spec_fs.take(i as int + 1)) =~= done);
                            }
                        },
                    }
                },
                FieldValue::List(l) => {
                    let ghost lview = ptrs_view(l@);
                    let m = l.len();
                    let mut j: usize = 0;
                    while j < m
                        invariant
                            ctx.wf(),
                            self.valid(*ctx),
                            i < fs@.len(),
                            fs@.len() == spec_fs.len(),
                            spec_fs == fields_of(ctx@[self@]),
                            field_view(fs@[i as int]) == spec_fs[i as int],
                            spec_fs[i as int].value == FieldVal::List(lview),
                            lview == ptrs_view(l@),
                            done == fields_children(spec_fs.take(i as int)),
                            m == l@.len(),
                            j <= m,
                            visited_chain(vstates, ctx@, done + lview.take(j as int), self@),
                            vstates[0] == v0,
                            vstates[(done + lview.take(j as int)).len() as int] == *visitor,
                        decreases m - j,
                    {
                        let p = l[j];
                        proof {
                            assert(field_children(spec_fs[i as int].value).contains(p@)) by {
                                assert(field_children(spec_fs[i as int].value)[j as int] == p@);
                            }
                            lemma_fields_children_contains(spec_fs, i as int, p@);
                            lemma_bounded_child(ctx@[self@], self@, p@);
                        }
                        p.visit(ctx, visitor, Some(*self));
                        proof {
                            lemma_visited_chain_push(
                                vstates,
                                ctx@,
                                done + lview.take(j as int),
                                self@,
                                *visitor,
                                p@,
                            );
                            vstates = vstates.push(*visitor);
                            assert(lview.take(j as int + 1) =~= lview.take(j as int).push(p@));
                            assert(done + lview.take(j as int + 1) =~= (done + lview.take(
                                j as int,
                            )).push(p@));
                        }
                        j = j + 1;
                    }
                    proof {
                        assert(lview.take(m as int) =~= lview);
                        lemma_fields_children_push(spec_fs.take(i as int), spec_fs[i as int]);
                        assert(spec_fs.take(i as int + 1) =~= spec_fs.take(i as int).push(
                            spec_fs[i as int],
                        ));
                        assert(fields_children(spec_fs.take(i as int + 1)) =~= done + lview);
                    }
                },
                other => {
                    proof {
                        assert(field_children(field_view(fs@[i as int]).value)
                            =~= Seq::<int>::empty());
                        lemma_fields_children_push(spec_fs.take(i as int), spec_fs[i as int]);
                        assert(spec_fs.take(i as int + 1) =~= spec_fs.take(i as int).push(
                            spec_fs[i as int],
                        ));
                        assert(fields_children(spec_fs.take(i as int + 1)) =~= done);
                    }
                },
            }
            i = i + 1;
        }
        proof {
            assert(spec_fs.take(n as int) =~= spec_fs);
            assert(visited_chain(vstates, ctx@, children_of(ctx@[self@]), self@) && vstates[0]
                == v0 && vstates[children_of(ctx@[self@]).len() as int] == *visitor);
        }
    }
}

} // verus!
