//! The schema-consuming validation pass: walks the tree and checks that every
//! constrained field references nodes of the declared category, collecting a
//! diagnostic per offending reference. Advisory only: dump and traversal do
//! not depend on it.

use vstd::prelude::*;

use crate::ctx::Context;
use crate::node::{
    field_children, field_view, fields_of, is_a_kind, kind_of, ptrs_view, Field, FieldSpec,
    FieldVal, FieldValue, Node, NodeKind, NodePtr,
};
use crate::visit::{lemma_bounded_child, lemma_fields_children_contains};

verus! {

/// One reported structural-constraint violation: the referencing node's slot,
/// the field, the category the schema demands, and the kind actually found.
pub ghost struct ViolationSpec {
    pub node: int,
    pub field: Seq<char>,
    pub expected: NodeKind,
    pub actual: NodeKind,
}

#[derive(Clone, Copy, Debug)]
pub struct Violation {
    pub node: NodePtr,
    pub field: &'static str,
    pub expected: NodeKind,
    pub actual: NodeKind,
}

pub open spec fn viol_view(v: Violation) -> ViolationSpec {
    ViolationSpec { node: v.node@, field: v.field@, expected: v.expected, actual: v.actual }
}

pub open spec fn viols_view(l: Seq<Violation>) -> Seq<ViolationSpec> {
    l.map_values(|v: Violation| viol_view(v))
}

/// All violations found under the node in slot `idx`, depth first, fields in
/// declaration order, list elements in sequence order.
pub open spec fn validate_spec(nodes: Seq<Node>, idx: int) -> Seq<ViolationSpec>
    decreases idx, 3int, 0int, 0int,
{
    if 0 <= idx < nodes.len() {
        vfields(nodes, fields_of(nodes[idx]), idx)
    } else {
        Seq::empty()
    }
}

pub open spec fn vfields(nodes: Seq<Node>, fs: Seq<FieldSpec>, bound: int) -> Seq<ViolationSpec>
    decreases bound, 2int, fs.len(), 0int,
{
    if fs.len() == 0 {
        Seq::empty()
    } else {
        ventry(nodes, fs[0], bound) + vfields(nodes, fs.drop_first(), bound)
    }
}

pub open spec fn ventry(nodes: Seq<Node>, f: FieldSpec, bound: int) -> Seq<ViolationSpec>
    decreases bound, 1int, 0int, 0int,
{
    vchildren(nodes, field_children(f.value), f.name, f.constraint, bound)
}

pub open spec fn vchildren(
    nodes: Seq<Node>,
    cs: Seq<int>,
    field: Seq<char>,
    cons: Option<NodeKind>,
    bound: int,
) -> Seq<ViolationSpec>
    decreases bound, 0int, cs.len(), 1int,
{
    if cs.len() == 0 {
        Seq::empty()
    } else {
        vone(nodes, cs[0], field, cons, bound) + vchildren(
            nodes,
            cs.drop_first(),
            field,
            cons,
            bound,
        )
    }
}

/// The diagnostics of one referenced node: its own constraint check followed
/// by everything found beneath it.
pub open spec fn vone(
    nodes: Seq<Node>,
    c: int,
    field: Seq<char>,
    cons: Option<NodeKind>,
    bound: int,
) -> Seq<ViolationSpec>
    decreases bound, 0int, 0int, 0int,
{
    if 0 <= c < bound && c < nodes.len() {
        (match cons {
            Some(cat) => if !is_a_kind(kind_of(nodes[c]), cat) {
                seq![
                    ViolationSpec {
                        node: c,
                        field: field,
                        expected: cat,
                        actual: kind_of(nodes[c]),
                    },
                ]
            } else {
                Seq::empty()
            },
            None => Seq::empty(),
        }) + validate_spec(nodes, c)
    } else {
        Seq::empty()
    }
}

/// The well-formedness the validator decides: every constrained reference
/// under the node satisfies its declared category.
pub open spec fn conforms(nodes: Seq<Node>, idx: int) -> bool
    decreases idx, 3int, 0int, 0int,
{
    if 0 <= idx < nodes.len() {
        cfields(nodes, fields_of(nodes[idx]), idx)
    } else {
        true
    }
}

pub open spec fn cfields(nodes: Seq<Node>, fs: Seq<FieldSpec>, bound: int) -> bool
    decreases bound, 2int, fs.len(), 0int,
{
    if fs.len() == 0 {
        true
    } else {
        centry(nodes, fs[0], bound) && cfields(nodes, fs.drop_first(), bound)
    }
}

pub open spec fn centry(nodes: Seq<Node>, f: FieldSpec, bound: int) -> bool
    decreases bound, 1int, 0int, 0int,
{
    cchildren(nodes, field_children(f.value), f.constraint, bound)
}

pub open spec fn cchildren(
    nodes: Seq<Node>,
    cs: Seq<int>,
    cons: Option<NodeKind>,
    bound: int,
) -> bool
    decreases bound, 0int, cs.len(), 1int,
{
    if cs.len() == 0 {
        true
    } else {
        cone(nodes, cs[0], cons, bound) && cchildren(nodes, cs.drop_first(), cons, bound)
    }
}

pub open spec fn cone(nodes: Seq<Node>, c: int, cons: Option<NodeKind>, bound: int) -> bool
    decreases bound, 0int, 0int, 0int,
{
    if 0 <= c < bound && c < nodes.len() {
        (match cons {
            Some(cat) => is_a_kind(kind_of(nodes[c]), cat),
            None => true,
        }) && conforms(nodes, c)
    } else {
        true
    }
}

/// Law: validation reports no violation exactly on the trees whose every
/// constrained reference satisfies its declared category.
pub proof fn lemma_validate_sound(nodes: Seq<Node>, idx: int)
    ensures
        validate_spec(nodes, idx) == Seq::<ViolationSpec>::empty() <==> conforms(nodes, idx),
    decreases idx, 3int, 0int, 0int,
{
    if 0 <= idx < nodes.len() {
        lemma_vfields_sound(nodes, fields_of(nodes[idx]), idx);
    }
}

proof fn lemma_empty_concat(a: Seq<ViolationSpec>, b: Seq<ViolationSpec>)
    ensures
        (a + b == Seq::<ViolationSpec>::empty()) <==> (a == Seq::<ViolationSpec>::empty() && b
            == Seq::<ViolationSpec>::empty()),
{
    if a.len() == 0 && b.len() == 0 {
        assert(a + b =~= Seq::<ViolationSpec>::empty());
    }
    if (a + b).len() == 0 {
        assert(a =~= Seq::<ViolationSpec>::empty());
        assert(b =~= Seq::<ViolationSpec>::empty());
    }
}

proof fn lemma_vfields_sound(nodes: Seq<Node>, fs: Seq<FieldSpec>, bound: int)
    ensures
        vfields(nodes, fs, bound) == Seq::<ViolationSpec>::empty() <==> cfields(nodes, fs, bound),
    decreases bound, 2int, fs.len(), 0int,
{
    if fs.len() != 0 {
        lemma_ventry_sound(nodes, fs[0], bound);
        lemma_vfields_sound(nodes, fs.drop_first(), bound);
        lemma_empty_concat(ventry(nodes, fs[0], bound), vfields(nodes, fs.drop_first(), bound));
    }
}

proof fn lemma_ventry_sound(nodes: Seq<Node>, f: FieldSpec, bound: int)
    ensures
        ventry(nodes, f, bound) == Seq::<ViolationSpec>::empty() <==> centry(nodes, f, bound),
    decreases bound, 1int, 0int, 0int,
{
    lemma_vchildren_sound(nodes, field_children(f.value), f.name, f.constraint, bound);
}

proof fn lemma_vchildren_sound(
    nodes: Seq<Node>,
    cs: Seq<int>,
    field: Seq<char>,
    cons: Option<NodeKind>,
    bound: int,
)
    ensures
        vchildren(nodes, cs, field, cons, bound) == Seq::<ViolationSpec>::empty() <==> cchildren(
            nodes,
            cs,
            cons,
            bound,
        ),
    decreases bound, 0int, cs.len(), 1int,
{
    if cs.len() != 0 {
        lemma_vone_sound(nodes, cs[0], field, cons, bound);
        lemma_vchildren_sound(nodes, cs.drop_first(), field, cons, bound);
        lemma_empty_concat(
            vone(nodes, cs[0], field, cons, bound),
            vchildren(nodes, cs.drop_first(), field, cons, bound),
        );
    }
}

proof fn lemma_vone_sound(
    nodes: Seq<Node>,
    c: int,
    field: Seq<char>,
    cons: Option<NodeKind>,
    bound: int,
)
    ensures
        vone(nodes, c, field, cons, bound) == Seq::<ViolationSpec>::empty() <==> cone(
            nodes,
            c,
            cons,
            bound,
        ),
    decreases bound, 0int, 0int, 1int,
{
    if 0 <= c < bound && c < nodes.len() {
        lemma_validate_sound(nodes, c);
        let own = match cons {
            Some(cat) => if !is_a_kind(kind_of(nodes[c]), cat) {
                seq![
                    ViolationSpec {
                        node: c,
                        field: field,
                        expected: cat,
                        actual: kind_of(nodes[c]),
                    },
                ]
            } else {
                Seq::<ViolationSpec>::empty()
            },
            None => Seq::<ViolationSpec>::empty(),
        };
        lemma_empty_concat(own, validate_spec(nodes, c));
    }
}

pub proof fn lemma_vfields_push(nodes: Seq<Node>, fs: Seq<FieldSpec>, f: FieldSpec, bound: int)
    ensures
        vfields(nodes, fs.push(f), bound) == vfields(nodes, fs, bound) + ventry(nodes, f, bound),
    decreases fs.len(),
{
    if fs.len() == 0 {
        assert(fs.push(f)[0] == f);
        assert(fs.push(f).drop_first() =~= Seq::<FieldSpec>::empty());
        assert(vfields(nodes, Seq::<FieldSpec>::empty(), bound) == Seq::<ViolationSpec>::empty());
        assert(vfields(nodes, fs.push(f), bound) == ventry(nodes, f, bound)
            + Seq::<ViolationSpec>::empty());
        assert(vfields(nodes, fs.push(f), bound) =~= vfields(nodes, fs, bound) + ventry(
            nodes,
            f,
            bound,
        ));
    } else {
        assert(fs.push(f)[0] == fs[0]);
        assert(fs.push(f).drop_first() =~= fs.drop_first().push(f));
        lemma_vfields_push(nodes, fs.drop_first(), f, bound);
        assert(vfields(nodes, fs.push(f), bound) =~= vfields(nodes, fs, bound) + ventry(
            nodes,
            f,
            bound,
        ));
    }
}

pub proof fn lemma_vchildren_push(
    nodes: Seq<Node>,
    cs: Seq<int>,
    x: int,
    field: Seq<char>,
    cons: Option<NodeKind>,
    bound: int,
)
    ensures
        vchildren(nodes, cs.push(x), field, cons, bound) == vchildren(nodes, cs, field, cons, bound)
            + vone(nodes, x, field, cons, bound),
    decreases cs.len(),
{
    if cs.len() == 0 {
        assert(cs.push(x)[0] == x);
        assert(cs.push(x).drop_first() =~= Seq::<int>::empty());
        assert(vchildren(nodes, Seq::<int>::empty(), field, cons, bound)
            == Seq::<ViolationSpec>::empty());
        assert(vchildren(nodes, cs.push(x), field, cons, bound) == vone(
            nodes,
            x,
            field,
            cons,
            bound,
        ) + Seq::<ViolationSpec>::empty());
        assert(vchildren(nodes, cs.push(x), field, cons, bound) =~= vchildren(
            nodes,
            cs,
            field,
            cons,
            bound,
        ) + vone(nodes, x, field, cons, bound));
    } else {
        assert(cs.push(x)[0] == cs[0]);
        assert(cs.push(x).drop_first() =~= cs.drop_first().push(x));
        lemma_vchildren_push(nodes, cs.drop_first(), x, field, cons, bound);
        assert(vchildren(nodes, cs.push(x), field, cons, bound) =~= vchildren(
            nodes,
            cs,
            field,
            cons,
            bound,
        ) + vone(nodes, x, field, cons, bound));
    }
}

/// Checks one referenced node against a field's constraint, then descends.
fn validate_one(
    ctx: &Context,
    parent: NodePtr,
    child: NodePtr,
    field: &'static str,
    cons: Option<NodeKind>,
    out: &mut Vec<Violation>,
)
    requires
        ctx.wf(),
        parent.valid(*ctx),
        0 <= child@ < parent@,
    ensures
        viols_view(final(out)@) == viols_view(old(out)@) + vone(
            ctx@,
            child@,
            field@,
            cons,
            parent@,
        ),
    decreases parent@, 0int,
{
    let ghost base = viols_view(out@);
    match cons {
        Some(cat) => {
            let k = child.get(ctx).kind();
            if !k.is_a(cat) {
                let v = Violation { node: child, field, expected: cat, actual: k };
                out.push(v);
                proof {
                    assert(viols_view(out@) =~= base + seq![viol_view(v)]);
                }
            }
        },
        None => {},
    }
    let ghost mid = viols_view(out@);
    validate_node(ctx, child, out);
    proof {
        assert(viols_view(out@) =~= base + vone(ctx@, child@, field@, cons, parent@));
    }
}

/// Checks one field of the node in `parent`'s slot: every referenced node
/// against the field's constraint, recursively.
fn validate_field<'a>(
    ctx: &Context,
    parent: NodePtr,
    f: &Field<'a>,
    Ghost(i): Ghost<int>,
    out: &mut Vec<Violation>,
)
    requires
        ctx.wf(),
        parent.valid(*ctx),
        0 <= i < fields_of(ctx@[parent@]).len(),
        field_view(*f) == fields_of(ctx@[parent@])[i],
    ensures
        viols_view(final(out)@) == viols_view(old(out)@) + ventry(
            ctx@,
            fields_of(ctx@[parent@])[i],
            parent@,
        ),
    decreases parent@, 1int,
{
    let ghost spec_fs = fields_of(ctx@[parent@]);
    let ghost base = viols_view(out@);
    match &f.value {
        FieldValue::Ptr(p) => {
            proof {
                assert(field_children(spec_fs[i].value).contains(p@)) by {
                    assert(field_children(spec_fs[i].value)[0] == p@);
                }
                lemma_fields_children_contains(spec_fs, i, p@);
                lemma_bounded_child(ctx@[parent@], parent@, p@);
            }
            validate_one(ctx, parent, *p, f.name, f.constraint, out);
            proof {
                assert(field_children(spec_fs[i].value).drop_first() =~= Seq::<int>::empty());
                assert(viols_view(out@) =~= base + ventry(ctx@, spec_fs[i], parent@));
            }
        },
        FieldValue::OptPtr(o) => {
            match o {
                None => {
                    proof {
                        assert(viols_view(out@) =~= base + ventry(ctx@, spec_fs[i], parent@));
                    }
                },
                Some(p) => {
                    proof {
                        assert(field_children(spec_fs[i].value).contains(p@)) by {
                            assert(field_children(spec_fs[i].value)[0] == p@);
                        }
                        lemma_fields_children_contains(spec_fs, i, p@);
                        lemma_bounded_child(ctx@[parent@], parent@, p@);
                    }
                    validate_one(ctx, parent, *p, f.name, f.constraint, out);
                    proof {
                        assert(field_children(spec_fs[i].value).drop_first()
                            =~= Seq::<int>::empty());
                        assert(viols_view(out@) =~= base + ventry(ctx@, spec_fs[i], parent@));
                    }
                },
            }
        },
        FieldValue::List(l) => {
            let ghost lview = ptrs_view(l@);
            let k_max = l.len();
            let mut k: usize = 0;
            while k < k_max
                invariant
                    ctx.wf(),
                    parent.valid(*ctx),
                    k <= k_max,
                    k_max == l@.len(),
                    lview == ptrs_view(l@),
                    spec_fs == fields_of(ctx@[parent@]),
                    0 <= i < spec_fs.len(),
                    spec_fs[i].value == FieldVal::List(lview),
                    field_view(*f) == spec_fs[i],
                    viols_view(out@) == base + vchildren(
                        ctx@,
                        lview.take(k as int),
                        spec_fs[i].name,
                        spec_fs[i].constraint,
                        parent@,
                    ),
                decreases k_max - k,
            {
                let p = l[k];
                proof {
                    assert(field_children(spec_fs[i].value).contains(p@)) by {
                        assert(field_children(spec_fs[i].value)[k as int] == p@);
                    }
                    lemma_fields_children_contains(spec_fs, i, p@);
                    lemma_bounded_child(ctx@[parent@], parent@, p@);
                }
                validate_one(ctx, parent, p, f.name, f.constraint, out);
                proof {
                    lemma_vchildren_push(
                        ctx@,
                        lview.take(k as int),
                        p@,
                        spec_fs[i].name,
                        spec_fs[i].constraint,
                        parent@,
                    );
                    assert(lview.take(k as int + 1) =~= lview.take(k as int).push(p@));
                }
                k = k + 1;
            }
            proof {
                assert(lview.take(k_max as int) =~= lview);
                assert(viols_view(out@) =~= base + ventry(ctx@, spec_fs[i], parent@));
            }
        },
        _ => {
            proof {
                assert(field_children(spec_fs[i].value) =~= Seq::<int>::empty());
                assert(viols_view(out@) =~= base + ventry(ctx@, spec_fs[i], parent@));
            }
        },
    }
}

/// Collects every violation under the node in `node`'s slot, depth first.
fn validate_node(ctx: &Context, node: NodePtr, out: &mut Vec<Violation>)
    requires
        ctx.wf(),
        node.valid(*ctx),
    ensures
        viols_view(final(out)@) == viols_view(old(out)@) + validate_spec(ctx@, node@),
    decreases node@, 2int,
{
    let ghost base = viols_view(out@);
    let n = node.get(ctx);
    let fs = n.fields();
    let ghost spec_fs = fields_of(ctx@[node@]);
    let m = fs.len();
    let mut i: usize = 0;
    while i < m
        invariant
            ctx.wf(),
            node.valid(*ctx),
            m == fs@.len(),
            fs@.len() == spec_fs.len(),
            spec_fs == fields_of(ctx@[node@]),
            forall|k: int| 0 <= k < fs@.len() ==> field_view(#[trigger] fs@[k]) == spec_fs[k],
            i <= m,
            viols_view(out@) == base + vfields(ctx@, spec_fs.take(i as int), node@),
        decreases m - i,
    {
        validate_field(ctx, node, &fs[i], Ghost(i as int), out);
        proof {
            lemma_vfields_push(ctx@, spec_fs.take(i as int), spec_fs[i as int], node@);
            assert(spec_fs.take(i as int + 1) =~= spec_fs.take(i as int).push(spec_fs[i as int]));
        }
        i = i + 1;
    }
    proof {
        assert(spec_fs.take(m as int) =~= spec_fs);
        assert(viols_view(out@) =~= base + validate_spec(ctx@, node@));
    }
}

/// Walks the tree under `root` and reports every structural-constraint
/// violation: the referencing slot, the field, the category the schema
/// demands, and the kind found. The report is empty exactly when the tree
/// conforms.
pub fn validate(ctx: &Context, root: NodePtr) -> (r: Vec<Violation>)
    requires
        ctx.wf(),
        root.valid(*ctx),
    ensures
        viols_view(r@) == validate_spec(ctx@, root@),
        r@.len() == 0 <==> conforms(ctx@, root@),
{
    let mut out: Vec<Violation> = Vec::new();
    validate_node(ctx, root, &mut out);
    proof {
        lemma_validate_sound(ctx@, root@);
        assert(viols_view(out@) =~= Seq::<ViolationSpec>::empty() + validate_spec(ctx@, root@));
        if out@.len() == 0 {
            assert(viols_view(out@) =~= Seq::<ViolationSpec>::empty());
        }
    }
    out
}

} // verus!
