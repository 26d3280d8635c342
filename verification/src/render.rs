//! The serializer: renders a finished model into the fixed textual grammar,
//! one line per node, byte for byte as external consumers expect it.

use vstd::prelude::*;
use vstd::string::StringSliceAdditionalSpecFns;
use crate::graph::{Model, Node, NodeRef, NodeType, Nid, nid_of, sort_code, lines_wf, refs_ok, node_ok, valid_op, get_nid, get_sort};
use crate::fmt::{dec_bytes, push_dec, push_str_bytes};

verus! {

/// The identifier rendered for an operand: that of the node it points at.
pub open spec fn op_nid(lines: Seq<Node>, r: NodeRef) -> Nid {
    nid_of(lines[r as int])
}

/// A node name, or a question mark where none was given.
pub open spec fn render_name(name: Option<Vec<u8>>) -> Seq<u8> {
    match name {
        Some(v) => v@,
        None => "?".spec_bytes(),
    }
}

/// The line (or lines) one node renders to.
pub open spec fn render_node(lines: Seq<Node>, n: Node) -> Seq<u8> {
    match n {
        Node::Const { nid, sort, imm } => dec_bytes(nid as nat) + " constd ".spec_bytes()
            + dec_bytes(sort_code(sort) as nat) + " ".spec_bytes() + dec_bytes(imm as nat)
            + "\n".spec_bytes(),
        Node::Read { nid, memory, address } => dec_bytes(nid as nat) + " read 2 ".spec_bytes()
            + dec_bytes(op_nid(lines, memory) as nat) + " ".spec_bytes() + dec_bytes(
            op_nid(lines, address) as nat,
        ) + "\n".spec_bytes(),
        Node::Write { nid, memory, address, value } => dec_bytes(nid as nat)
            + " write 3 ".spec_bytes() + dec_bytes(op_nid(lines, memory) as nat)
            + " ".spec_bytes() + dec_bytes(op_nid(lines, address) as nat) + " ".spec_bytes()
            + dec_bytes(op_nid(lines, value) as nat) + "\n".spec_bytes(),
        Node::Add { nid, left, right } => dec_bytes(nid as nat) + " add 2 ".spec_bytes()
            + dec_bytes(op_nid(lines, left) as nat) + " ".spec_bytes() + dec_bytes(
            op_nid(lines, right) as nat,
        ) + "\n".spec_bytes(),
        Node::Sub { nid, left, right } => dec_bytes(nid as nat) + " sub 2 ".spec_bytes()
            + dec_bytes(op_nid(lines, left) as nat) + " ".spec_bytes() + dec_bytes(
            op_nid(lines, right) as nat,
        ) + "\n".spec_bytes(),
        Node::Rem { nid, left, right } => dec_bytes(nid as nat) + " urem 2 ".spec_bytes()
            + dec_bytes(op_nid(lines, left) as nat) + " ".spec_bytes() + dec_bytes(
            op_nid(lines, right) as nat,
        ) + "\n".spec_bytes(),
        Node::Ite { nid, sort, cond, left, right } => dec_bytes(nid as nat) + " ite ".spec_bytes()
            + dec_bytes(sort_code(sort) as nat) + " ".spec_bytes() + dec_bytes(
            op_nid(lines, cond) as nat,
        ) + " ".spec_bytes() + dec_bytes(op_nid(lines, left) as nat) + " ".spec_bytes()
            + dec_bytes(op_nid(lines, right) as nat) + "\n".spec_bytes(),
        Node::Eq { nid, left, right } => dec_bytes(nid as nat) + " eq 1 ".spec_bytes() + dec_bytes(
            op_nid(lines, left) as nat,
        ) + " ".spec_bytes() + dec_bytes(op_nid(lines, right) as nat) + "\n".spec_bytes(),
        Node::And { nid, left, right } => dec_bytes(nid as nat) + " and 1 ".spec_bytes()
            + dec_bytes(op_nid(lines, left) as nat) + " ".spec_bytes() + dec_bytes(
            op_nid(lines, right) as nat,
        ) + "\n".spec_bytes(),
        Node::Not { nid, value } => dec_bytes(nid as nat) + " not 1 ".spec_bytes() + dec_bytes(
            op_nid(lines, value) as nat,
        ) + "\n".spec_bytes(),
        Node::State { nid, sort, init, name } => dec_bytes(nid as nat) + " state ".spec_bytes()
            + dec_bytes(sort_code(sort) as nat) + " ".spec_bytes() + render_name(name)
            + "\n".spec_bytes() + (match init {
            Some(v) => dec_bytes(nid.wrapping_add(1) as nat) + " init ".spec_bytes() + dec_bytes(
                sort_code(sort) as nat,
            ) + " ".spec_bytes() + dec_bytes(nid as nat) + " ".spec_bytes() + dec_bytes(
                op_nid(lines, v) as nat,
            ) + "\n".spec_bytes(),
            None => Seq::<u8>::empty(),
        }),
        Node::Next { nid, sort, state, next, name } => dec_bytes(nid as nat)
            + " next ".spec_bytes() + dec_bytes(sort_code(sort) as nat) + " ".spec_bytes()
            + dec_bytes(op_nid(lines, state) as nat) + " ".spec_bytes() + dec_bytes(
            op_nid(lines, next) as nat,
        ) + " ".spec_bytes() + render_name(name) + "\n".spec_bytes(),
        Node::Bad { nid, cond, name } => dec_bytes(nid as nat) + " bad ".spec_bytes() + dec_bytes(
            op_nid(lines, cond) as nat,
        ) + " ".spec_bytes() + render_name(name) + "\n".spec_bytes(),
        Node::Comment(text) => "\n; ".spec_bytes() + text@ + "\n\n".spec_bytes(),
    }
}

/// The rendering of the first `i` nodes, in insertion order.
pub open spec fn render_upto(lines: Seq<Node>, i: int) -> Seq<u8>
    decreases i,
{
    if i <= 0 {
        Seq::<u8>::empty()
    } else {
        render_upto(lines, i - 1) + render_node(lines, lines[i - 1])
    }
}

/// The fixed preamble: the header comment and the three sort declarations.
pub open spec fn preamble() -> Seq<u8> {
    "; cksystemsgroup.github.io/monster\n\n".spec_bytes()
        + "1 sort bitvec 1 ; Boolean\n".spec_bytes()
        + "2 sort bitvec 64 ; 64-bit machine word\n".spec_bytes()
        + "3 sort array 2 2 ; 64-bit physical memory\n".spec_bytes()
}

/// The fixed closing line.
pub open spec fn footer() -> Seq<u8> {
    "\n; end of BTOR2 file\n".spec_bytes()
}

/// The full serialized form of a model.
pub open spec fn render_model(m: Model) -> Seq<u8> {
    preamble() + render_upto(m.lines@, m.lines@.len() as int) + footer()
}

/// Appends the bytes of a node name, or a question mark where none was given.
fn push_name(out: &mut Vec<u8>, name: &Option<Vec<u8>>)
    ensures
        final(out)@ == old(out)@ + render_name(*name),
{
    match name {
        Some(v) => {
            let mut j: usize = 0;
            let len = v.len();
            while j < len
                invariant
                    j <= len,
                    len == v@.len(),
                    out@ == old(out)@ + v@.subrange(0, j as int),
                decreases len - j,
            {
                out.push(v[j]);
                proof {
                    assert(out@ =~= old(out)@ + v@.subrange(0, j + 1));
                }
                j = j + 1;
            }
            proof {
                assert(v@.subrange(0, v@.len() as int) =~= v@);
            }
        },
        None => {
            push_str_bytes(out, "?");
        },
    }
}

/// Appends the identifier of the node an operand points at.
fn push_op(out: &mut Vec<u8>, lines: &Vec<Node>, r: NodeRef)
    requires
        r < lines@.len(),
        !(lines@[r as int] is Comment),
    ensures
        final(out)@ == old(out)@ + dec_bytes(op_nid(lines@, r) as nat),
{
    let nid = get_nid(&lines[r]);
    push_dec(out, nid);
}

/// Appends `nid`, a fixed middle, and two operand identifiers.
fn render_two(out: &mut Vec<u8>, lines: &Vec<Node>, nid: Nid, mid: &str, a: NodeRef, b: NodeRef)
    requires
        a < lines@.len(),
        !(lines@[a as int] is Comment),
        b < lines@.len(),
        !(lines@[b as int] is Comment),
    ensures
        final(out)@ == old(out)@ + dec_bytes(nid as nat) + mid.spec_bytes() + dec_bytes(
            op_nid(lines@, a) as nat,
        ) + " ".spec_bytes() + dec_bytes(op_nid(lines@, b) as nat) + "\n".spec_bytes(),
{
    push_dec(out, nid);
    push_str_bytes(out, mid);
    push_op(out, lines, a);
    push_str_bytes(out, " ");
    push_op(out, lines, b);
    push_str_bytes(out, "\n");
    assert(out@ =~= old(out)@ + dec_bytes(nid as nat) + mid.spec_bytes() + dec_bytes(
        op_nid(lines@, a) as nat,
    ) + " ".spec_bytes() + dec_bytes(op_nid(lines@, b) as nat) + "\n".spec_bytes());
}

/// Appends `nid`, a fixed middle, and three operand identifiers.
fn render_three(
    out: &mut Vec<u8>,
    lines: &Vec<Node>,
    nid: Nid,
    mid: &str,
    a: NodeRef,
    b: NodeRef,
    c: NodeRef,
)
    requires
        a < lines@.len(),
        !(lines@[a as int] is Comment),
        b < lines@.len(),
        !(lines@[b as int] is Comment),
        c < lines@.len(),
        !(lines@[c as int] is Comment),
    ensures
        final(out)@ == old(out)@ + dec_bytes(nid as nat) + mid.spec_bytes() + dec_bytes(
            op_nid(lines@, a) as nat,
        ) + " ".spec_bytes() + dec_bytes(op_nid(lines@, b) as nat) + " ".spec_bytes() + dec_bytes(
            op_nid(lines@, c) as nat,
        ) + "\n".spec_bytes(),
{
    push_dec(out, nid);
    push_str_bytes(out, mid);
    push_op(out, lines, a);
    push_str_bytes(out, " ");
    push_op(out, lines, b);
    push_str_bytes(out, " ");
    push_op(out, lines, c);
    push_str_bytes(out, "\n");
    assert(out@ =~= old(out)@ + dec_bytes(nid as nat) + mid.spec_bytes() + dec_bytes(
        op_nid(lines@, a) as nat,
    ) + " ".spec_bytes() + dec_bytes(op_nid(lines@, b) as nat) + " ".spec_bytes() + dec_bytes(
        op_nid(lines@, c) as nat,
    ) + "\n".spec_bytes());
}

/// Appends a state line and, where the state carries an initial value, its
/// paired init line.
fn render_state(
    out: &mut Vec<u8>,
    lines: &Vec<Node>,
    nid: Nid,
    sort: &NodeType,
    init: &Option<NodeRef>,
    name: &Option<Vec<u8>>,
)
    requires
        (*init matches Some(v) ==> v < lines@.len() && !(lines@[v as int] is Comment)),
    ensures
        final(out)@ == old(out)@ + dec_bytes(nid as nat) + " state ".spec_bytes() + dec_bytes(
            sort_code(*sort) as nat,
        ) + " ".spec_bytes() + render_name(*name) + "\n".spec_bytes() + (match *init {
            Some(v) => dec_bytes(nid.wrapping_add(1) as nat) + " init ".spec_bytes() + dec_bytes(
                sort_code(*sort) as nat,
            ) + " ".spec_bytes() + dec_bytes(nid as nat) + " ".spec_bytes() + dec_bytes(
                op_nid(lines@, v) as nat,
            ) + "\n".spec_bytes(),
            None => Seq::<u8>::empty(),
        }),
{
    push_dec(out, nid);
    push_str_bytes(out, " state ");
    push_dec(out, get_sort(sort));
    push_str_bytes(out, " ");
    push_name(out, name);
    push_str_bytes(out, "\n");
    match init {
        Some(v) => {
            push_dec(out, nid.wrapping_add(1));
            push_str_bytes(out, " init ");
            push_dec(out, get_sort(sort));
            push_str_bytes(out, " ");
            push_dec(out, nid);
            push_str_bytes(out, " ");
            push_op(out, lines, *v);
            push_str_bytes(out, "\n");
        },
        None => {},
    }
    assert(out@ =~= old(out)@ + dec_bytes(nid as nat) + " state ".spec_bytes() + dec_bytes(
        sort_code(*sort) as nat,
    ) + " ".spec_bytes() + render_name(*name) + "\n".spec_bytes() + (match *init {
        Some(v) => dec_bytes(nid.wrapping_add(1) as nat) + " init ".spec_bytes() + dec_bytes(
            sort_code(*sort) as nat,
        ) + " ".spec_bytes() + dec_bytes(nid as nat) + " ".spec_bytes() + dec_bytes(
            op_nid(lines@, v) as nat,
        ) + "\n".spec_bytes(),
        None => Seq::<u8>::empty(),
    }));
}

/// Renders a constant, read, write, add or sub node; reports whether the node
/// was one of those.
fn render_group_a(out: &mut Vec<u8>, lines: &Vec<Node>, i: usize) -> (handled: bool)
    requires
        i < lines@.len(),
        refs_ok(lines@, i as int),
    ensures
        handled ==> final(out)@ == old(out)@ + render_node(lines@, lines@[i as int]),
        !handled ==> final(out)@ == old(out)@ && !(lines@[i as int] is Const) && !(lines@[i
            as int] is Read) && !(lines@[i as int] is Write) && !(lines@[i as int] is Add) && !(
        lines@[i as int] is Sub),
{
    proof {
        assert(node_ok(lines@.subrange(0, i as int), lines@[i as int]));
    }
    match &lines[i] {
        Node::Const { nid, sort, imm } => {
            push_dec(out, *nid);
            push_str_bytes(out, " constd ");
            push_dec(out, get_sort(sort));
            push_str_bytes(out, " ");
            push_dec(out, *imm);
            push_str_bytes(out, "\n");
            assert(out@ =~= old(out)@ + render_node(lines@, lines@[i as int]));
            true
        },
        Node::Read { nid, memory, address } => {
            render_two(out, lines, *nid, " read 2 ", *memory, *address);
            assert(out@ =~= old(out)@ + render_node(lines@, lines@[i as int]));
            true
        },
        Node::Write { nid, memory, address, value } => {
            render_three(out, lines, *nid, " write 3 ", *memory, *address, *value);
            assert(out@ =~= old(out)@ + render_node(lines@, lines@[i as int]));
            true
        },
        Node::Add { nid, left, right } => {
            render_two(out, lines, *nid, " add 2 ", *left, *right);
            assert(out@ =~= old(out)@ + render_node(lines@, lines@[i as int]));
            true
        },
        Node::Sub { nid, left, right } => {
            render_two(out, lines, *nid, " sub 2 ", *left, *right);
            assert(out@ =~= old(out)@ + render_node(lines@, lines@[i as int]));
            true
        },
        _ => false,
    }
}

/// Renders a remainder, select, equality, conjunction or negation node;
/// reports whether the node was one of those.
#[verifier::rlimit(100)]
#[verifier::spinoff_prover]
fn render_group_b(out: &mut Vec<u8>, lines: &Vec<Node>, i: usize) -> (handled: bool)
    requires
        i < lines@.len(),
        refs_ok(lines@, i as int),
    ensures
        handled ==> final(out)@ == old(out)@ + render_node(lines@, lines@[i as int]),
        !handled ==> final(out)@ == old(out)@ && !(lines@[i as int] is Rem) && !(lines@[i
            as int] is Ite) && !(lines@[i as int] is Eq) && !(lines@[i as int] is And) && !(
        lines@[i as int] is Not),
{
    proof {
        assert(node_ok(lines@.subrange(0, i as int), lines@[i as int]));
    }
    match &lines[i] {
        Node::Rem { nid, left, right } => {
            render_two(out, lines, *nid, " urem 2 ", *left, *right);
            assert(out@ =~= old(out)@ + render_node(lines@, lines@[i as int]));
            true
        },
        Node::Ite { nid, sort, cond, left, right } => {
            push_dec(out, *nid);
            push_str_bytes(out, " ite ");
            push_dec(out, get_sort(sort));
            push_str_bytes(out, " ");
            push_op(out, lines, *cond);
            push_str_bytes(out, " ");
            push_op(out, lines, *left);
            push_str_bytes(out, " ");
            push_op(out, lines, *right);
            push_str_bytes(out, "\n");
            assert(out@ =~= old(out)@ + render_node(lines@, lines@[i as int]));
            true
        },
        Node::Eq { nid, left, right } => {
            render_two(out, lines, *nid, " eq 1 ", *left, *right);
            assert(out@ =~= old(out)@ + render_node(lines@, lines@[i as int]));
            true
        },
        Node::And { nid, left, right } => {
            render_two(out, lines, *nid, " and 1 ", *left, *right);
            assert(out@ =~= old(out)@ + render_node(lines@, lines@[i as int]));
            true
        },
        Node::Not { nid, value } => {
            push_dec(out, *nid);
            push_str_bytes(out, " not 1 ");
            push_op(out, lines, *value);
            push_str_bytes(out, "\n");
            assert(out@ =~= old(out)@ + render_node(lines@, lines@[i as int]));
            true
        },
        _ => false,
    }
}

/// Renders a state, next, bad or comment node; reports whether the node was
/// one of those.
#[verifier::rlimit(100)]
#[verifier::spinoff_prover]
fn render_group_c(out: &mut Vec<u8>, lines: &Vec<Node>, i: usize) -> (handled: bool)
    requires
        i < lines@.len(),
        refs_ok(lines@, i as int),
    ensures
        handled ==> final(out)@ == old(out)@ + render_node(lines@, lines@[i as int]),
        !handled ==> final(out)@ == old(out)@ && !(lines@[i as int] is State) && !(lines@[i
            as int] is Next) && !(lines@[i as int] is Bad) && !(lines@[i as int] is Comment),
{
    proof {
        assert(node_ok(lines@.subrange(0, i as int), lines@[i as int]));
    }
    match &lines[i] {
        Node::State { nid, sort, init, name } => {
            render_state(out, lines, *nid, sort, init, name);
            assert(out@ =~= old(out)@ + render_node(lines@, lines@[i as int]));
            true
        },
        Node::Next { nid, sort, state, next, name } => {
            push_dec(out, *nid);
            push_str_bytes(out, " next ");
            push_dec(out, get_sort(sort));
            push_str_bytes(out, " ");
            push_op(out, lines, *state);
            push_str_bytes(out, " ");
            push_op(out, lines, *next);
            push_str_bytes(out, " ");
            push_name(out, name);
            push_str_bytes(out, "\n");
            assert(out@ =~= old(out)@ + render_node(lines@, lines@[i as int]));
            true
        },
        Node::Bad { nid, cond, name } => {
            push_dec(out, *nid);
            push_str_bytes(out, " bad ");
            push_op(out, lines, *cond);
            push_str_bytes(out, " ");
            push_name(out, name);
            push_str_bytes(out, "\n");
            assert(out@ =~= old(out)@ + render_node(lines@, lines@[i as int]));
            true
        },
        Node::Comment(text) => {
            push_str_bytes(out, "\n; ");
            let mut j: usize = 0;
            let len = text.len();
            while j < len
                invariant
                    j <= len,
                    len == text@.len(),
                    out@ == old(out)@ + "\n; ".spec_bytes() + text@.subrange(0, j as int),
                decreases len - j,
            {
                out.push(text[j]);
                proof {
                    assert(out@ =~= old(out)@ + "\n; ".spec_bytes() + text@.subrange(0, j + 1));
                }
                j = j + 1;
            }
            push_str_bytes(out, "\n\n");
            proof {
                assert(text@.subrange(0, text@.len() as int) =~= text@);
                assert(out@ =~= old(out)@ + render_node(lines@, lines@[i as int]));
            }
            true
        },
        _ => false,
    }
}

/// Appends the rendering of node `i`.
fn render_one(out: &mut Vec<u8>, lines: &Vec<Node>, i: usize)
    requires
        i < lines@.len(),
        refs_ok(lines@, i as int),
    ensures
        final(out)@ == old(out)@ + render_node(lines@, lines@[i as int]),
{
    if render_group_a(out, lines, i) {
        return ;
    }
    if render_group_b(out, lines, i) {
        return ;
    }
    if render_group_c(out, lines, i) {
        return ;
    }
    proof {
        assert(false);
    }
}

/// Checks that every operand reference of every node points strictly backwards
/// at a non-comment node.
pub fn check_model(m: &Model) -> (r: bool)
    ensures
        r == lines_wf(m.lines@),
{
    let len = m.lines.len();
    let mut i: usize = 0;
    while i < len
        invariant
            i <= len,
            len == m.lines@.len(),
            forall|j: int| 0 <= j < i as int ==> #[trigger] refs_ok(m.lines@, j),
        decreases len - i,
    {
        let ok = match &m.lines[i] {
            Node::Const { .. } => true,
            Node::Read { memory, address, .. } => op_check(m, i, *memory) && op_check(
                m,
                i,
                *address,
            ),
            Node::Write { memory, address, value, .. } => op_check(m, i, *memory) && op_check(
                m,
                i,
                *address,
            ) && op_check(m, i, *value),
            Node::Add { left, right, .. } => op_check(m, i, *left) && op_check(m, i, *right),
            Node::Sub { left, right, .. } => op_check(m, i, *left) && op_check(m, i, *right),
            Node::Rem { left, right, .. } => op_check(m, i, *left) && op_check(m, i, *right),
            Node::Ite { cond, left, right, .. } => op_check(m, i, *cond) && op_check(m, i, *left)
                && op_check(m, i, *right),
            Node::Eq { left, right, .. } => op_check(m, i, *left) && op_check(m, i, *right),
            Node::And { left, right, .. } => op_check(m, i, *left) && op_check(m, i, *right),
            Node::Not { value, .. } => op_check(m, i, *value),
            Node::State { init, .. } => match init {
                Some(v) => op_check(m, i, *v),
                None => true,
            },
            Node::Next { state, next, .. } => op_check(m, i, *state) && op_check(m, i, *next),
            Node::Bad { cond, .. } => op_check(m, i, *cond),
            Node::Comment(_) => true,
        };
        proof {
            assert(ok == node_ok(m.lines@.subrange(0, i as int), m.lines@[i as int]));
        }
        if !ok {
            proof {
                assert(!refs_ok(m.lines@, i as int));
            }
            return false;
        }
        i = i + 1;
    }
    true
}

/// One operand reference points strictly backwards at a non-comment node.
fn op_check(m: &Model, i: usize, r: NodeRef) -> (ok: bool)
    requires
        i < m.lines@.len(),
    ensures
        ok == valid_op(m.lines@.subrange(0, i as int), r),
{
    r < i && !matches!(&m.lines[r], Node::Comment(_))
}

/// Serializes a model into the fixed textual grammar, or reports failure where
/// a node's operand points forwards, out of range, or at a comment, which has
/// no identifier to render.
pub fn print_model(m: &Model) -> (r: Option<Vec<u8>>)
    ensures
        (r is Some) == lines_wf(m.lines@),
        (r matches Some(out) ==> out@ == render_model(*m)),
{
    if !check_model(m) {
        return None;
    }
    let mut out: Vec<u8> = Vec::new();
    push_str_bytes(&mut out, "; cksystemsgroup.github.io/monster\n\n");
    push_str_bytes(&mut out, "1 sort bitvec 1 ; Boolean\n");
    push_str_bytes(&mut out, "2 sort bitvec 64 ; 64-bit machine word\n");
    push_str_bytes(&mut out, "3 sort array 2 2 ; 64-bit physical memory\n");
    proof {
        assert(out@ =~= preamble());
    }
    let len = m.lines.len();
    let mut i: usize = 0;
    while i < len
        invariant
            i <= len,
            len == m.lines@.len(),
            lines_wf(m.lines@),
            out@ == preamble() + render_upto(m.lines@, i as int),
        decreases len - i,
    {
        proof {
            assert(refs_ok(m.lines@, i as int));
        }
        render_one(&mut out, &m.lines, i);
        proof {
            assert(out@ =~= preamble() + render_upto(m.lines@, i as int + 1));
        }
        i = i + 1;
    }
    push_str_bytes(&mut out, "\n; end of BTOR2 file\n");
    proof {
        assert(out@ =~= render_model(*m));
    }
    Some(out)
}

} // verus!
