//! Schema-driven external serialization: every node becomes an ordered-key
//! container with a `"type"` entry and one entry per schema field, handles
//! dumped recursively, lists as ordered arrays. The whole output is pinned,
//! character for character, by `dump_spec`.

use vstd::prelude::*;
use vstd::string::StringExecFns;

use crate::ctx::Context;
use crate::node::{
    children_of,
    field_children, field_view, fields_children, fields_of, kind_of, name_text, Field, FieldSpec, FieldVal,
    FieldValue, Node, NodePtr,
};
use crate::visit::{lemma_bounded_child, lemma_fields_children_contains};

verus! {

/// Output mode: indented or compact. Orthogonal to field content.
#[derive(Clone, Copy, PartialEq, Eq, Structural, Debug)]
pub enum Pretty {
    Yes,
    No,
}

pub open spec fn pretty_on(p: Pretty) -> bool {
    p is Yes
}

pub open spec fn spaces(n: nat) -> Seq<char>
    decreases n,
{
    if n == 0 {
        Seq::empty()
    } else {
        spaces((n - 1) as nat).push(' ')
    }
}

/// Line break plus indentation in pretty mode; nothing in compact mode.
pub open spec fn nl_indent(pretty: bool, ind: nat) -> Seq<char> {
    if pretty {
        seq!['\n'] + spaces(ind)
    } else {
        Seq::empty()
    }
}

pub open spec fn quoted(s: Seq<char>) -> Seq<char> {
    seq!['"'] + s + seq!['"']
}

/// A quoted key followed by the colon, with a space after it in pretty mode.
pub open spec fn key_text(name: Seq<char>, pretty: bool) -> Seq<char> {
    quoted(name) + seq![':'] + if pretty {
        seq![' ']
    } else {
        Seq::<char>::empty()
    }
}

pub open spec fn hex_digit(n: int) -> char {
    if n == 0 {
        '0'
    } else if n == 1 {
        '1'
    } else if n == 2 {
        '2'
    } else if n == 3 {
        '3'
    } else if n == 4 {
        '4'
    } else if n == 5 {
        '5'
    } else if n == 6 {
        '6'
    } else if n == 7 {
        '7'
    } else if n == 8 {
        '8'
    } else if n == 9 {
        '9'
    } else if n == 10 {
        'a'
    } else if n == 11 {
        'b'
    } else if n == 12 {
        'c'
    } else if n == 13 {
        'd'
    } else if n == 14 {
        'e'
    } else {
        'f'
    }
}

/// String-literal escaping: quotes and backslashes are escaped, common
/// controls get their short escapes, other controls a `\u00..` form; every
/// other character passes through unchanged.
pub open spec fn esc_char(c: char) -> Seq<char> {
    if c == '"' {
        seq!['\\', '"']
    } else if c == '\\' {
        seq!['\\', '\\']
    } else if c == '\n' {
        seq!['\\', 'n']
    } else if c == '\r' {
        seq!['\\', 'r']
    } else if c == '\t' {
        seq!['\\', 't']
    } else if (c as u32) < 32 {
        seq!['\\', 'u', '0', '0', hex_digit((c as u32) as int / 16), hex_digit(
            (c as u32) as int % 16,
        )]
    } else {
        seq![c]
    }
}

pub open spec fn escape_text(s: Seq<char>) -> Seq<char>
    decreases s.len(),
{
    if s.len() == 0 {
        Seq::empty()
    } else {
        esc_char(s[0]) + escape_text(s.drop_first())
    }
}

pub proof fn lemma_escape_push(s: Seq<char>, c: char)
    ensures
        escape_text(s.push(c)) == escape_text(s) + esc_char(c),
    decreases s.len(),
{
    if s.len() == 0 {
        assert(s.push(c)[0] == c);
        assert(s.push(c).drop_first() =~= Seq::<char>::empty());
        assert(escape_text(Seq::<char>::empty()) == Seq::<char>::empty());
        assert(escape_text(s.push(c)) == esc_char(c) + Seq::<char>::empty());
        assert(escape_text(s.push(c)) =~= escape_text(s) + esc_char(c));
    } else {
        assert(s.push(c)[0] == s[0]);
        assert(s.push(c).drop_first() =~= s.drop_first().push(c));
        lemma_escape_push(s.drop_first(), c);
        assert(escape_text(s.push(c)) == esc_char(s[0]) + (escape_text(s.drop_first()) + esc_char(
            c,
        )));
        assert(escape_text(s.push(c)) =~= escape_text(s) + esc_char(c));
    }
}

/// The text of one scalar field value; handle-valued fields contribute
/// nothing here and are dumped recursively instead.
pub open spec fn scalar_text(v: FieldVal) -> Seq<char> {
    match v {
        FieldVal::Num(t) => t,
        FieldVal::Bool(b) => if b {
            "true"@
        } else {
            "false"@
        },
        FieldVal::Label(s) => quoted(s),
        FieldVal::Str(s) => quoted(escape_text(s)),
        FieldVal::OptStr(o) => match o {
            None => "null"@,
            Some(s) => quoted(escape_text(s)),
        },
        FieldVal::UnaryOp(o) => quoted(o.text()),
        FieldVal::BinaryOp(o) => quoted(o.text()),
        FieldVal::LogicalOp(o) => quoted(o.text()),
        FieldVal::UpdateOp(o) => quoted(o.text()),
        FieldVal::AssignOp(o) => quoted(o.text()),
        FieldVal::VarKind(k) => quoted(k.text()),
        FieldVal::PropKind(k) => quoted(k.text()),
        FieldVal::MethodKind(k) => quoted(k.text()),
        FieldVal::ImpKind(k) => quoted(k.text()),
        FieldVal::ExpKind(k) => quoted(k.text()),
        FieldVal::Ptr(_) => Seq::empty(),
        FieldVal::OptPtr(_) => Seq::empty(),
        FieldVal::List(_) => Seq::empty(),
    }
}

/// The whole dump of the node in slot `idx`: the container opener, the
/// `"type"` entry, one entry per schema field in declaration order, and the
/// closer. `bound`-guarded recursion mirrors the arena's bottom-up shape.
pub open spec fn dump_spec(nodes: Seq<Node>, idx: int, pretty: bool, ind: nat) -> Seq<char>
    decreases idx, 3int, 0int, 0int,
{
    if 0 <= idx < nodes.len() {
        let node = nodes[idx];
        seq!['{'] + nl_indent(pretty, ind + 2) + key_text("type"@, pretty) + quoted(
            name_text(kind_of(node)),
        ) + dump_fields_spec(nodes, fields_of(node), idx, pretty, ind + 2) + nl_indent(pretty, ind)
            + seq!['}']
    } else {
        Seq::empty()
    }
}

pub open spec fn dump_fields_spec(
    nodes: Seq<Node>,
    fs: Seq<FieldSpec>,
    bound: int,
    pretty: bool,
    ind: nat,
) -> Seq<char>
    decreases bound, 2int, fs.len(), 0int,
{
    if fs.len() == 0 {
        Seq::empty()
    } else {
        field_entry(nodes, fs[0], bound, pretty, ind) + dump_fields_spec(
            nodes,
            fs.drop_first(),
            bound,
            pretty,
            ind,
        )
    }
}

/// One field entry: separator, indentation, key, value.
pub open spec fn field_entry(
    nodes: Seq<Node>,
    f: FieldSpec,
    bound: int,
    pretty: bool,
    ind: nat,
) -> Seq<char>
    decreases bound, 1int, 0int, 1int,
{
    seq![','] + nl_indent(pretty, ind) + key_text(f.name, pretty) + dump_field_spec(
        nodes,
        f.value,
        bound,
        pretty,
        ind,
    )
}

pub open spec fn dump_field_spec(
    nodes: Seq<Node>,
    v: FieldVal,
    bound: int,
    pretty: bool,
    ind: nat,
) -> Seq<char>
    decreases bound, 1int, 0int, 0int,
{
    match v {
        FieldVal::Ptr(i) => if 0 <= i < bound {
            dump_spec(nodes, i, pretty, ind)
        } else {
            Seq::empty()
        },
        FieldVal::OptPtr(o) => match o {
            None => "null"@,
            Some(i) => if 0 <= i < bound {
                dump_spec(nodes, i, pretty, ind)
            } else {
                Seq::empty()
            },
        },
        FieldVal::List(l) => seq!['['] + dump_list_spec(nodes, l, bound, pretty, ind + 2, true)
            + nl_indent(pretty, ind) + seq![']'],
        _ => scalar_text(v),
    }
}

/// One array element: separator (except before the first), indentation, the
/// element's dump.
pub open spec fn list_entry(
    nodes: Seq<Node>,
    i: int,
    bound: int,
    pretty: bool,
    ind: nat,
    first: bool,
) -> Seq<char>
    decreases bound, 0int, 0int, 1int,
{
    (if first {
        Seq::<char>::empty()
    } else {
        seq![',']
    }) + nl_indent(pretty, ind) + (if 0 <= i < bound {
        dump_spec(nodes, i, pretty, ind)
    } else {
        Seq::<char>::empty()
    })
}

pub open spec fn dump_list_spec(
    nodes: Seq<Node>,
    l: Seq<int>,
    bound: int,
    pretty: bool,
    ind: nat,
    first: bool,
) -> Seq<char>
    decreases bound, 0int, l.len(), 0int,
{
    if l.len() == 0 {
        Seq::empty()
    } else {
        list_entry(nodes, l[0], bound, pretty, ind, first) + dump_list_spec(
            nodes,
            l.drop_first(),
            bound,
            pretty,
            ind,
            false,
        )
    }
}

pub proof fn lemma_fields_spec_push(
    nodes: Seq<Node>,
    fs: Seq<FieldSpec>,
    f: FieldSpec,
    bound: int,
    pretty: bool,
    ind: nat,
)
    ensures
        dump_fields_spec(nodes, fs.push(f), bound, pretty, ind) == dump_fields_spec(
            nodes,
            fs,
            bound,
            pretty,
            ind,
        ) + field_entry(nodes, f, bound, pretty, ind),
    decreases fs.len(),
{
    if fs.len() == 0 {
        assert(fs.push(f)[0] == f);
        assert(fs.push(f).drop_first() =~= Seq::<FieldSpec>::empty());
        assert(dump_fields_spec(nodes, Seq::<FieldSpec>::empty(), bound, pretty, ind)
            == Seq::<char>::empty());
        assert(dump_fields_spec(nodes, fs.push(f), bound, pretty, ind) == field_entry(
            nodes,
            f,
            bound,
            pretty,
            ind,
        ) + Seq::<char>::empty());
        assert(dump_fields_spec(nodes, fs.push(f), bound, pretty, ind) =~= dump_fields_spec(
            nodes,
            fs,
            bound,
            pretty,
            ind,
        ) + field_entry(nodes, f, bound, pretty, ind));
    } else {
        assert(fs.push(f)[0] == fs[0]);
        assert(fs.push(f).drop_first() =~= fs.drop_first().push(f));
        lemma_fields_spec_push(nodes, fs.drop_first(), f, bound, pretty, ind);
        assert(dump_fields_spec(nodes, fs.push(f), bound, pretty, ind) =~= dump_fields_spec(
            nodes,
            fs,
            bound,
            pretty,
            ind,
        ) + field_entry(nodes, f, bound, pretty, ind));
    }
}

pub proof fn lemma_list_spec_push(
    nodes: Seq<Node>,
    l: Seq<int>,
    x: int,
    bound: int,
    pretty: bool,
    ind: nat,
    first: bool,
)
    ensures
        dump_list_spec(nodes, l.push(x), bound, pretty, ind, first) == dump_list_spec(
            nodes,
            l,
            bound,
            pretty,
            ind,
            first,
        ) + list_entry(nodes, x, bound, pretty, ind, first && l.len() == 0),
    decreases l.len(),
{
    if l.len() == 0 {
        assert(l.push(x)[0] == x);
        assert(l.push(x).drop_first() =~= Seq::<int>::empty());
        assert(dump_list_spec(nodes, Seq::<int>::empty(), bound, pretty, ind, false)
            == Seq::<char>::empty());
        assert(dump_list_spec(nodes, l.push(x), bound, pretty, ind, first) == list_entry(
            nodes,
            x,
            bound,
            pretty,
            ind,
            first,
        ) + Seq::<char>::empty());
        assert(dump_list_spec(nodes, l.push(x), bound, pretty, ind, first) =~= dump_list_spec(
            nodes,
            l,
            bound,
            pretty,
            ind,
            first,
        ) + list_entry(nodes, x, bound, pretty, ind, first));
    } else {
        assert(l.push(x)[0] == l[0]);
        assert(l.push(x).drop_first() =~= l.drop_first().push(x));
        lemma_list_spec_push(nodes, l.drop_first(), x, bound, pretty, ind, false);
        assert(dump_list_spec(nodes, l.push(x), bound, pretty, ind, first) =~= dump_list_spec(
            nodes,
            l,
            bound,
            pretty,
            ind,
            first,
        ) + list_entry(nodes, x, bound, pretty, ind, false));
    }
}

/// Relies on String::push from std: appends exactly the one character.
#[verifier::external_body]
fn push_char(out: &mut String, c: char)
    ensures
        final(out)@ == old(out)@ + seq![c],
{
    out.push(c);
}

fn emit_nl_indent(out: &mut String, pretty: bool, ind: usize)
    ensures
        final(out)@ == old(out)@ + nl_indent(pretty, ind as nat),
{
    if pretty {
        push_char(out, '\n');
        let ghost base = out@;
        let mut j: usize = 0;
        while j < ind
            invariant
                j <= ind,
                out@ == base + spaces(j as nat),
            decreases ind - j,
        {
            push_char(out, ' ');
            proof {
                assert(spaces((j + 1) as nat) == spaces(j as nat).push(' '));
                assert(out@ =~= base + spaces((j + 1) as nat));
            }
            j = j + 1;
        }
        proof {
            assert(out@ =~= old(out)@ + nl_indent(pretty, ind as nat));
        }
    } else {
        proof {
            assert(out@ =~= old(out)@ + nl_indent(pretty, ind as nat));
        }
    }
}

fn emit_key(out: &mut String, name: &str, pretty: bool)
    ensures
        final(out)@ == old(out)@ + key_text(name@, pretty),
{
    push_char(out, '"');
    out.append(name);
    push_char(out, '"');
    push_char(out, ':');
    if pretty {
        push_char(out, ' ');
    }
    proof {
        assert(out@ =~= old(out)@ + key_text(name@, pretty));
    }
}

fn hex_digit_char(n: u32) -> (c: char)
    requires
        n < 16,
    ensures
        c == hex_digit(n as int),
{
    if n == 0 {
        '0'
    } else if n == 1 {
        '1'
    } else if n == 2 {
        '2'
    } else if n == 3 {
        '3'
    } else if n == 4 {
        '4'
    } else if n == 5 {
        '5'
    } else if n == 6 {
        '6'
    } else if n == 7 {
        '7'
    } else if n == 8 {
        '8'
    } else if n == 9 {
        '9'
    } else if n == 10 {
        'a'
    } else if n == 11 {
        'b'
    } else if n == 12 {
        'c'
    } else if n == 13 {
        'd'
    } else if n == 14 {
        'e'
    } else {
        'f'
    }
}

fn emit_esc_char(out: &mut String, c: char)
    ensures
        final(out)@ == old(out)@ + esc_char(c),
{
    if c == '"' {
        push_char(out, '\\');
        push_char(out, '"');
        proof {
            assert(out@ =~= old(out)@ + esc_char(c));
        }
    } else if c == '\\' {
        push_char(out, '\\');
        push_char(out, '\\');
        proof {
            assert(out@ =~= old(out)@ + esc_char(c));
        }
    } else if c == '\n' {
        push_char(out, '\\');
        push_char(out, 'n');
        proof {
            assert(out@ =~= old(out)@ + esc_char(c));
        }
    } else if c == '\r' {
        push_char(out, '\\');
        push_char(out, 'r');
        proof {
            assert(out@ =~= old(out)@ + esc_char(c));
        }
    } else if c == '\t' {
        push_char(out, '\\');
        push_char(out, 't');
        proof {
            assert(out@ =~= old(out)@ + esc_char(c));
        }
    } else {
        let u = c as u32;
        if u < 32 {
            push_char(out, '\\');
            push_char(out, 'u');
            push_char(out, '0');
            push_char(out, '0');
            push_char(out, hex_digit_char(u / 16));
            push_char(out, hex_digit_char(u % 16));
            proof {
                assert(out@ =~= old(out)@ + esc_char(c));
            }
        } else {
            push_char(out, c);
            proof {
                assert(out@ =~= old(out)@ + esc_char(c));
            }
        }
    }
}

fn emit_escaped(out: &mut String, s: &str)
    ensures
        final(out)@ == old(out)@ + escape_text(s@),
{
    let ghost base = out@;
    let n = s.unicode_len();
    let mut i: usize = 0;
    while i < n
        invariant
            i <= n,
            n == s@.len(),
            out@ == base + escape_text(s@.take(i as int)),
        decreases n - i,
    {
        let c = s.get_char(i);
        emit_esc_char(out, c);
        proof {
            lemma_escape_push(s@.take(i as int), c);
            assert(s@.take(i + 1 as int) =~= s@.take(i as int).push(c));
            assert(out@ =~= base + escape_text(s@.take(i + 1 as int)));
        }
        i = i + 1;
    }
    proof {
        assert(s@.take(n as int) =~= s@);
    }
}

/// Emits one scalar field value; handle-valued fields contribute nothing.
fn emit_scalar(out: &mut String, v: &FieldValue)
    ensures
        final(out)@ == old(out)@ + scalar_text(crate::node::fv_view(*v)),
{
    match v {
        FieldValue::Num(n) => {
            out.append(n.as_str());
        },
        FieldValue::Bool(b) => {
            if *b {
                out.append("true");
            } else {
                out.append("false");
            }
        },
        FieldValue::Label(l) => {
            push_char(out, '"');
            out.append(l.as_str());
            push_char(out, '"');
        },
        FieldValue::Str(s) => {
            push_char(out, '"');
            emit_escaped(out, s.as_str());
            push_char(out, '"');
        },
        FieldValue::OptStr(o) => {
            match o {
                None => {
                    out.append("null");
                },
                Some(s) => {
                    push_char(out, '"');
                    emit_escaped(out, s.as_str());
                    push_char(out, '"');
                },
            }
        },
        FieldValue::UnaryOp(o) => {
            push_char(out, '"');
            out.append(o.as_str());
            push_char(out, '"');
        },
        FieldValue::BinaryOp(o) => {
            push_char(out, '"');
            out.append(o.as_str());
            push_char(out, '"');
        },
        FieldValue::LogicalOp(o) => {
            push_char(out, '"');
            out.append(o.as_str());
            push_char(out, '"');
        },
        FieldValue::UpdateOp(o) => {
            push_char(out, '"');
            out.append(o.as_str());
            push_char(out, '"');
        },
        FieldValue::AssignOp(o) => {
            push_char(out, '"');
            out.append(o.as_str());
            push_char(out, '"');
        },
        FieldValue::VarKind(k) => {
            push_char(out, '"');
            out.append(k.as_str());
            push_char(out, '"');
        },
        FieldValue::PropKind(k) => {
            push_char(out, '"');
            out.append(k.as_str());
            push_char(out, '"');
        },
        FieldValue::MethodKind(k) => {
            push_char(out, '"');
            out.append(k.as_str());
            push_char(out, '"');
        },
        FieldValue::ImpKind(k) => {
            push_char(out, '"');
            out.append(k.as_str());
            push_char(out, '"');
        },
        FieldValue::ExpKind(k) => {
            push_char(out, '"');
            out.append(k.as_str());
            push_char(out, '"');
        },
        FieldValue::Ptr(_) => {},
        FieldValue::OptPtr(_) => {},
        FieldValue::List(_) => {},
    }
    proof {
        assert(out@ =~= old(out)@ + scalar_text(crate::node::fv_view(*v)));
    }
}

/// Emits one field entry (separator, key, value) of the node in `parent`'s
/// slot; a handle-valued field recurses into the referenced node's dump.
fn emit_field<'a>(
    ctx: &Context,
    parent: NodePtr,
    f: &Field<'a>,
    Ghost(i): Ghost<int>,
    pretty: bool,
    ind: usize,
    out: &mut String,
)
    requires
        ctx.wf(),
        parent.valid(*ctx),
        ind + 4 * parent@ + 2 <= usize::MAX,
        0 <= i < fields_of(ctx@[parent@]).len(),
        field_view(*f) == fields_of(ctx@[parent@])[i],
    ensures
        final(out)@ == old(out)@ + field_entry(
            ctx@,
            fields_of(ctx@[parent@])[i],
            parent@,
            pretty,
            ind as nat,
        ),
    decreases parent@, 0int,
{
    let ghost spec_fs = fields_of(ctx@[parent@]);
    let ghost before = out@;
    push_char(out, ',');
    emit_nl_indent(out, pretty, ind);
    emit_key(out, f.name, pretty);
    let ghost key_part = seq![','] + nl_indent(pretty, ind as nat) + key_text(
        spec_fs[i].name,
        pretty,
    );
    proof {
        assert(out@ =~= before + key_part);
    }
    match &f.value {
        FieldValue::Ptr(p) => {
            proof {
                assert(spec_fs[i].value == FieldVal::Ptr(p@));
                assert(field_children(spec_fs[i].value).contains(p@)) by {
                    assert(field_children(spec_fs[i].value)[0] == p@);
                }
                lemma_fields_children_contains(spec_fs, i, p@);
                lemma_bounded_child(ctx@[parent@], parent@, p@);
            }
            dump_node(ctx, *p, pretty, ind, out);
        },
        FieldValue::OptPtr(o) => {
            match o {
                None => {
                    out.append("null");
                },
                Some(p) => {
                    proof {
                        assert(spec_fs[i].value == FieldVal::OptPtr(Some(p@)));
                        assert(field_children(spec_fs[i].value).contains(p@)) by {
                            assert(field_children(spec_fs[i].value)[0] == p@);
                        }
                        lemma_fields_children_contains(spec_fs, i, p@);
                        lemma_bounded_child(ctx@[parent@], parent@, p@);
                    }
                    dump_node(ctx, *p, pretty, ind, out);
                },
            }
        },
        FieldValue::List(l) => {
            let ghost lbase = out@;
            push_char(out, '[');
            let ghost lview = crate::node::ptrs_view(l@);
            let k_max = l.len();
            let mut k: usize = 0;
            while k < k_max
                invariant
                    ctx.wf(),
                    parent.valid(*ctx),
                    ind + 4 * parent@ + 2 <= usize::MAX,
                    k <= k_max,
                    k_max == l@.len(),
                    lview == crate::node::ptrs_view(l@),
                    spec_fs == fields_of(ctx@[parent@]),
                    0 <= i < spec_fs.len(),
                    spec_fs[i].value == FieldVal::List(lview),
                    out@ == lbase + seq!['['] + dump_list_spec(
                        ctx@,
                        lview.take(k as int),
                        parent@,
                        pretty,
                        (ind + 2) as nat,
                        true,
                    ),
                decreases k_max - k,
            {
                let ghost lbefore = out@;
                if k > 0 {
                    push_char(out, ',');
                }
                emit_nl_indent(out, pretty, ind + 2);
                let p = l[k];
                proof {
                    assert(field_children(spec_fs[i].value).contains(p@)) by {
                        assert(field_children(spec_fs[i].value)[k as int] == p@);
                    }
                    lemma_fields_children_contains(spec_fs, i, p@);
                    lemma_bounded_child(ctx@[parent@], parent@, p@);
                }
                dump_node(ctx, p, pretty, ind + 2, out);
                proof {
                    assert(out@ =~= lbefore + list_entry(
                        ctx@,
                        p@,
                        parent@,
                        pretty,
                        (ind + 2) as nat,
                        k == 0,
                    ));
                    lemma_list_spec_push(
                        ctx@,
                        lview.take(k as int),
                        p@,
                        parent@,
                        pretty,
                        (ind + 2) as nat,
                        true,
                    );
                    assert(lview.take(k as int + 1) =~= lview.take(k as int).push(p@));
                    assert(out@ =~= lbase + seq!['['] + dump_list_spec(
                        ctx@,
                        lview.take(k as int + 1),
                        parent@,
                        pretty,
                        (ind + 2) as nat,
                        true,
                    ));
                }
                k = k + 1;
            }
            emit_nl_indent(out, pretty, ind);
            push_char(out, ']');
            proof {
                assert(lview.take(k_max as int) =~= lview);
                assert(out@ =~= before + key_part + dump_field_spec(
                    ctx@,
                    spec_fs[i].value,
                    parent@,
                    pretty,
                    ind as nat,
                ));
            }
        },
        other => {
            emit_scalar(out, other);
        },
    }
    proof {
        assert(out@ =~= before + field_entry(ctx@, spec_fs[i], parent@, pretty, ind as nat));
    }
}

/// Serializes the node in `node`'s slot onto `out`, exactly as `dump_spec`
/// says. The indentation budget keeps nested indents within machine range.
fn dump_node(ctx: &Context, node: NodePtr, pretty: bool, ind: usize, out: &mut String)
    requires
        ctx.wf(),
        node.valid(*ctx),
        ind + 4 * node@ + 4 <= usize::MAX,
    ensures
        final(out)@ == old(out)@ + dump_spec(ctx@, node@, pretty, ind as nat),
    decreases node@, 1int,
{
    let ghost base = out@;
    let n = node.get(ctx);
    push_char(out, '{');
    emit_nl_indent(out, pretty, ind + 2);
    emit_key(out, "type", pretty);
    push_char(out, '"');
    out.append(n.name());
    push_char(out, '"');
    let ghost header = seq!['{'] + nl_indent(pretty, (ind + 2) as nat) + key_text("type"@, pretty)
        + quoted(name_text(kind_of(ctx@[node@])));
    proof {
        assert(out@ =~= base + header);
    }
    let fs = n.fields();
    let ghost spec_fs = fields_of(ctx@[node@]);
    let m = fs.len();
    let mut i: usize = 0;
    while i < m
        invariant
            ctx.wf(),
            node.valid(*ctx),
            ind + 4 * node@ + 4 <= usize::MAX,
            m == fs@.len(),
            fs@.len() == spec_fs.len(),
            spec_fs == fields_of(ctx@[node@]),
            forall|k: int| 0 <= k < fs@.len() ==> field_view(#[trigger] fs@[k]) == spec_fs[k],
            i <= m,
            out@ == base + header + dump_fields_spec(
                ctx@,
                spec_fs.take(i as int),
                node@,
                pretty,
                (ind + 2) as nat,
            ),
        decreases m - i,
    {
        let ghost before = out@;
        emit_field(ctx, node, &fs[i], Ghost(i as int), pretty, ind + 2, out);
        proof {
            lemma_fields_spec_push(
                ctx@,
                spec_fs.take(i as int),
                spec_fs[i as int],
                node@,
                pretty,
                (ind + 2) as nat,
            );
            assert(spec_fs.take(i as int + 1) =~= spec_fs.take(i as int).push(spec_fs[i as int]));
            assert(out@ =~= base + header + dump_fields_spec(
                ctx@,
                spec_fs.take(i as int + 1),
                node@,
                pretty,
                (ind + 2) as nat,
            ));
        }
        i = i + 1;
    }
    emit_nl_indent(out, pretty, ind);
    push_char(out, '}');
    proof {
        assert(spec_fs.take(m as int) =~= spec_fs);
        assert(out@ =~= base + dump_spec(ctx@, node@, pretty, ind as nat));
    }
}

/// Externalizes the tree under `root` as one structured document: an object
/// per node with its `"type"` tag and one entry per schema field, no field
/// omitted or reordered. The result is exactly `dump_spec` on the context's
/// contents, so equal trees give byte-identical documents.
pub fn dump_json(ctx: &Context, root: NodePtr, pretty: Pretty) -> (r: String)
    requires
        ctx.wf(),
        root.valid(*ctx),
        4 * root@ + 4 <= usize::MAX,
    ensures
        r@ == dump_spec(ctx@, root@, pretty_on(pretty), 0),
{
    let mut out = String::new();
    let p = match pretty {
        Pretty::Yes => true,
        Pretty::No => false,
    };
    dump_node(ctx, root, p, 0, &mut out);
    out
}

/// `sub` stands somewhere in `s` as one contiguous segment.
pub open spec fn appears_in(sub: Seq<char>, s: Seq<char>) -> bool {
    exists|a: int| 0 <= a && a + sub.len() <= s.len() && #[trigger] s.subrange(a, a + sub.len())
        == sub
}

proof fn lemma_appears_here(pre: Seq<char>, x: Seq<char>, post: Seq<char>)
    ensures
        appears_in(x, pre + x + post),
{
    let s = pre + x + post;
    assert(s.subrange(pre.len() as int, pre.len() as int + x.len() as int) =~= x);
}

proof fn lemma_appears_extend(x: Seq<char>, s: Seq<char>, pre: Seq<char>, post: Seq<char>)
    requires
        appears_in(x, s),
    ensures
        appears_in(x, pre + s + post),
{
    let a = choose|a: int|
        0 <= a && a + x.len() <= s.len() && #[trigger] s.subrange(a, a + x.len()) == x;
    let t = pre + s + post;
    assert(t.subrange(pre.len() as int + a, pre.len() as int + a + x.len() as int) =~= x) by {
        assert forall|i: int| 0 <= i < x.len() implies t[pre.len() + a + i] == x[i] by {
            assert(x[i] == s.subrange(a, a + x.len())[i]);
            assert(s.subrange(a, a + x.len())[i] == s[a + i]);
            assert(t[pre.len() + a + i] == s[a + i]);
        }
    }
}

proof fn lemma_list_child_appears(
    nodes: Seq<Node>,
    l: Seq<int>,
    bound: int,
    pretty: bool,
    ind: nat,
    k: int,
    first: bool,
)
    requires
        0 <= k < l.len(),
        0 <= l[k] < bound,
    ensures
        appears_in(
            dump_spec(nodes, l[k], pretty, ind),
            dump_list_spec(nodes, l, bound, pretty, ind, first),
        ),
    decreases l.len(),
{
    let rest = dump_list_spec(nodes, l.drop_first(), bound, pretty, ind, false);
    if k == 0 {
        let sep: Seq<char> = if first {
            Seq::<char>::empty()
        } else {
            seq![',']
        };
        assert(list_entry(nodes, l[0], bound, pretty, ind, first) == sep + nl_indent(pretty, ind)
            + dump_spec(nodes, l[0], pretty, ind));
        lemma_appears_here(sep + nl_indent(pretty, ind), dump_spec(nodes, l[0], pretty, ind), rest);
        assert(sep + nl_indent(pretty, ind) + dump_spec(nodes, l[0], pretty, ind) + rest
            =~= dump_list_spec(nodes, l, bound, pretty, ind, first));
    } else {
        lemma_list_child_appears(nodes, l.drop_first(), bound, pretty, ind, k - 1, false);
        assert(l.drop_first()[k - 1] == l[k]);
        lemma_appears_extend(
            dump_spec(nodes, l[k], pretty, ind),
            rest,
            list_entry(nodes, l[0], bound, pretty, ind, first),
            Seq::<char>::empty(),
        );
        assert(list_entry(nodes, l[0], bound, pretty, ind, first) + rest + Seq::<char>::empty()
            =~= dump_list_spec(nodes, l, bound, pretty, ind, first));
    }
}

proof fn lemma_entry_child_appears(
    nodes: Seq<Node>,
    f: FieldSpec,
    bound: int,
    pretty: bool,
    ind: nat,
    k: int,
)
    requires
        0 <= k < field_children(f.value).len(),
        0 <= field_children(f.value)[k] < bound,
    ensures
        exists|j: nat|
            #[trigger] appears_in(
                dump_spec(nodes, field_children(f.value)[k], pretty, j),
                field_entry(nodes, f, bound, pretty, ind),
            ),
{
    let c = field_children(f.value)[k];
    let pre = seq![','] + nl_indent(pretty, ind) + key_text(f.name, pretty);
    match f.value {
        FieldVal::Ptr(i) => {
            assert(c == i);
            lemma_appears_here(pre, dump_spec(nodes, c, pretty, ind), Seq::<char>::empty());
            assert(pre + dump_spec(nodes, c, pretty, ind) + Seq::<char>::empty() =~= field_entry(
                nodes,
                f,
                bound,
                pretty,
                ind,
            ));
            assert(appears_in(
                dump_spec(nodes, c, pretty, ind),
                field_entry(nodes, f, bound, pretty, ind),
            ));
        },
        FieldVal::OptPtr(o) => {
            assert(c == o->0);
            lemma_appears_here(pre, dump_spec(nodes, c, pretty, ind), Seq::<char>::empty());
            assert(pre + dump_spec(nodes, c, pretty, ind) + Seq::<char>::empty() =~= field_entry(
                nodes,
                f,
                bound,
                pretty,
                ind,
            ));
            assert(appears_in(
                dump_spec(nodes, c, pretty, ind),
                field_entry(nodes, f, bound, pretty, ind),
            ));
        },
        FieldVal::List(l) => {
            lemma_list_child_appears(nodes, l, bound, pretty, ind + 2, k, true);
            lemma_appears_extend(
                dump_spec(nodes, c, pretty, ind + 2),
                dump_list_spec(nodes, l, bound, pretty, ind + 2, true),
                pre + seq!['['],
                nl_indent(pretty, ind) + seq![']'],
            );
            assert(pre + seq!['['] + dump_list_spec(nodes, l, bound, pretty, ind + 2, true) + (
            nl_indent(pretty, ind) + seq![']']) =~= field_entry(nodes, f, bound, pretty, ind));
            assert(appears_in(
                dump_spec(nodes, c, pretty, ind + 2),
                field_entry(nodes, f, bound, pretty, ind),
            ));
        },
        _ => {
            assert(false);
        },
    }
}

proof fn lemma_fields_child_appears(
    nodes: Seq<Node>,
    fs: Seq<FieldSpec>,
    bound: int,
    pretty: bool,
    ind: nat,
    k: int,
)
    requires
        0 <= k < fields_children(fs).len(),
        0 <= fields_children(fs)[k] < bound,
    ensures
        exists|j: nat|
            #[trigger] appears_in(
                dump_spec(nodes, fields_children(fs)[k], pretty, j),
                dump_fields_spec(nodes, fs, bound, pretty, ind),
            ),
    decreases fs.len(),
{
    let c = fields_children(fs)[k];
    let head = field_entry(nodes, fs[0], bound, pretty, ind);
    let rest = dump_fields_spec(nodes, fs.drop_first(), bound, pretty, ind);
    if k < field_children(fs[0].value).len() {
        assert(c == field_children(fs[0].value)[k]);
        lemma_entry_child_appears(nodes, fs[0], bound, pretty, ind, k);
        let j = choose|j: nat|
            #[trigger] appears_in(dump_spec(nodes, c, pretty, j), head);
        lemma_appears_extend(
            dump_spec(nodes, c, pretty, j),
            head,
            Seq::<char>::empty(),
            rest,
        );
        assert(Seq::<char>::empty() + head + rest =~= dump_fields_spec(
            nodes,
            fs,
            bound,
            pretty,
            ind,
        ));
        assert(appears_in(
            dump_spec(nodes, c, pretty, j),
            dump_fields_spec(nodes, fs, bound, pretty, ind),
        ));
    } else {
        let kr = k - field_children(fs[0].value).len();
        assert(c == fields_children(fs.drop_first())[kr]);
        lemma_fields_child_appears(nodes, fs.drop_first(), bound, pretty, ind, kr);
        let j = choose|j: nat|
            #[trigger] appears_in(dump_spec(nodes, c, pretty, j), rest);
        lemma_appears_extend(dump_spec(nodes, c, pretty, j), rest, head, Seq::<char>::empty());
        assert(head + rest + Seq::<char>::empty() =~= dump_fields_spec(
            nodes,
            fs,
            bound,
            pretty,
            ind,
        ));
        assert(appears_in(
            dump_spec(nodes, c, pretty, j),
            dump_fields_spec(nodes, fs, bound, pretty, ind),
        ));
    }
}

/// Law: the document nests along the parent relation — the document of every
/// node a node references through some field stands, at its nesting depth, as
/// one contiguous segment of the referencing node's own document.
pub proof fn lemma_child_document_nested(
    nodes: Seq<Node>,
    idx: int,
    pretty: bool,
    ind: nat,
    k: int,
)
    requires
        crate::ctx::arena_wf(nodes),
        0 <= idx < nodes.len(),
        0 <= k < children_of(nodes[idx]).len(),
    ensures
        exists|j: nat|
            #[trigger] appears_in(
                dump_spec(nodes, children_of(nodes[idx])[k], pretty, j),
                dump_spec(nodes, idx, pretty, ind),
            ),
{
    let c = children_of(nodes[idx])[k];
    assert(0 <= c < idx);
    lemma_fields_child_appears(nodes, fields_of(nodes[idx]), idx, pretty, ind + 2, k);
    let j = choose|j: nat|
        #[trigger] appears_in(
            dump_spec(nodes, c, pretty, j),
            dump_fields_spec(nodes, fields_of(nodes[idx]), idx, pretty, ind + 2),
        );
    lemma_appears_extend(
        dump_spec(nodes, c, pretty, j),
        dump_fields_spec(nodes, fields_of(nodes[idx]), idx, pretty, ind + 2),
        seq!['{'] + nl_indent(pretty, ind + 2) + key_text("type"@, pretty) + quoted(
            name_text(kind_of(nodes[idx])),
        ),
        nl_indent(pretty, ind) + seq!['}'],
    );
    assert(seq!['{'] + nl_indent(pretty, ind + 2) + key_text("type"@, pretty) + quoted(
        name_text(kind_of(nodes[idx])),
    ) + dump_fields_spec(nodes, fields_of(nodes[idx]), idx, pretty, ind + 2) + (nl_indent(
        pretty,
        ind,
    ) + seq!['}']) =~= dump_spec(nodes, idx, pretty, ind));
    assert(appears_in(dump_spec(nodes, c, pretty, j), dump_spec(nodes, idx, pretty, ind)));
}

/// Law: dumping the same unmodified tree twice gives byte-identical output —
/// the document is one mathematical value of the context and root alone.
pub proof fn lemma_dump_deterministic(
    r1: Seq<char>,
    r2: Seq<char>,
    nodes: Seq<Node>,
    root: int,
    pretty: bool,
)
    requires
        r1 == dump_spec(nodes, root, pretty, 0),
        r2 == dump_spec(nodes, root, pretty, 0),
    ensures
        r1 == r2,
{
}

} // verus!
