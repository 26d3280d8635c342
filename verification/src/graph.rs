//! The node graph: a typed DAG of operator, state and assertion nodes held in
//! an arena. Nodes refer to their operands by arena index, so node identity is
//! index identity, never structural equality; a node appended once is never
//! mutated or removed, and every operand index points strictly backwards.

use vstd::prelude::*;

verus! {

/// Numeric identifier a node carries into the serialized output.
pub type Nid = u64;

/// Handle of a node: its index in the model's arena of lines.
pub type NodeRef = usize;

/// The value sort a node produces.
#[derive(Clone, Copy, Debug)]
pub enum NodeType {
    /// A boolean.
    Bit,
    /// A 64-bit machine word.
    Word,
    /// A 64-bit-word-indexed array of 64-bit words.
    Memory,
}

/// One node of the graph. Every variant except `Comment` carries the numeric
/// identifier used in the serialized output; operand fields are arena indices.
#[derive(Debug)]
pub enum Node {
    Const { nid: Nid, sort: NodeType, imm: u64 },
    Read { nid: Nid, memory: NodeRef, address: NodeRef },
    Write { nid: Nid, memory: NodeRef, address: NodeRef, value: NodeRef },
    Add { nid: Nid, left: NodeRef, right: NodeRef },
    Sub { nid: Nid, left: NodeRef, right: NodeRef },
    Rem { nid: Nid, left: NodeRef, right: NodeRef },
    Ite { nid: Nid, sort: NodeType, cond: NodeRef, left: NodeRef, right: NodeRef },
    Eq { nid: Nid, left: NodeRef, right: NodeRef },
    And { nid: Nid, left: NodeRef, right: NodeRef },
    Not { nid: Nid, value: NodeRef },
    State { nid: Nid, sort: NodeType, init: Option<NodeRef>, name: Option<Vec<u8>> },
    Next { nid: Nid, sort: NodeType, state: NodeRef, next: NodeRef, name: Option<Vec<u8>> },
    Bad { nid: Nid, cond: NodeRef, name: Option<Vec<u8>> },
    Comment(Vec<u8>),
}

/// The finished artifact: the insertion-ordered node arena, the indices of the
/// `Next` nodes (state-update relations) and of the `Bad` nodes (verification
/// obligations), each in insertion order.
#[derive(Debug)]
pub struct Model {
    pub lines: Vec<Node>,
    pub sequentials: Vec<NodeRef>,
    pub bad_states: Vec<NodeRef>,
}

/// A node handle usable as a lookup key: two handles are the same key exactly
/// when they denote the same node of the arena.
#[derive(Debug, PartialEq, Eq, Hash, Structural, Clone, Copy)]
pub struct HashableNodeRef {
    pub value: NodeRef,
}

impl From<NodeRef> for HashableNodeRef {
    fn from(node: NodeRef) -> (r: Self) {
        HashableNodeRef { value: node }
    }
}

impl vstd::std_specs::convert::FromSpecImpl<NodeRef> for HashableNodeRef {
    open spec fn obeys_from_spec() -> bool {
        true
    }

    open spec fn from_spec(node: NodeRef) -> Self {
        HashableNodeRef { value: node }
    }
}

/// A valid operand position: `r` points strictly before `i` and never at a
/// comment (comments carry no identifier, so nothing may reference them).
pub open spec fn valid_op(lines: Seq<Node>, r: NodeRef) -> bool {
    r < lines.len() && !(lines[r as int] is Comment)
}

/// All operand references a node would carry are valid against `lines`,
/// i.e. the node may be appended at index `lines.len()`.
pub open spec fn node_ok(lines: Seq<Node>, n: Node) -> bool {
    match n {
        Node::Const { .. } => true,
        Node::Read { memory, address, .. } => valid_op(lines, memory) && valid_op(lines, address),
        Node::Write { memory, address, value, .. } => valid_op(lines, memory) && valid_op(
            lines,
            address,
        ) && valid_op(lines, value),
        Node::Add { left, right, .. } => valid_op(lines, left) && valid_op(lines, right),
        Node::Sub { left, right, .. } => valid_op(lines, left) && valid_op(lines, right),
        Node::Rem { left, right, .. } => valid_op(lines, left) && valid_op(lines, right),
        Node::Ite { cond, left, right, .. } => valid_op(lines, cond) && valid_op(lines, left)
            && valid_op(lines, right),
        Node::Eq { left, right, .. } => valid_op(lines, left) && valid_op(lines, right),
        Node::And { left, right, .. } => valid_op(lines, left) && valid_op(lines, right),
        Node::Not { value, .. } => valid_op(lines, value),
        Node::State { init, .. } => (init matches Some(r) ==> valid_op(lines, r)),
        Node::Next { state, next, .. } => valid_op(lines, state) && valid_op(lines, next),
        Node::Bad { cond, .. } => valid_op(lines, cond),
        Node::Comment(_) => true,
    }
}

/// The node at index `i` only references earlier, non-comment nodes.
pub open spec fn refs_ok(lines: Seq<Node>, i: int) -> bool {
    node_ok(lines.subrange(0, i), lines[i])
}

/// Every node of the arena only references earlier, non-comment nodes:
/// the arena is a DAG in insertion order.
pub open spec fn lines_wf(lines: Seq<Node>) -> bool {
    forall|i: int| 0 <= i < lines.len() ==> #[trigger] refs_ok(lines, i)
}

/// The identifier a non-comment node carries.
pub open spec fn nid_of(n: Node) -> Nid {
    match n {
        Node::Const { nid, .. } => nid,
        Node::Read { nid, .. } => nid,
        Node::Write { nid, .. } => nid,
        Node::Add { nid, .. } => nid,
        Node::Sub { nid, .. } => nid,
        Node::Rem { nid, .. } => nid,
        Node::Ite { nid, .. } => nid,
        Node::Eq { nid, .. } => nid,
        Node::And { nid, .. } => nid,
        Node::Not { nid, .. } => nid,
        Node::State { nid, .. } => nid,
        Node::Next { nid, .. } => nid,
        Node::Bad { nid, .. } => nid,
        Node::Comment(_) => 0,
    }
}

/// Reads the identifier of a node; comments have none.
pub fn get_nid(node: &Node) -> (r: Nid)
    requires
        !(*node is Comment),
    ensures
        r == nid_of(*node),
{
    match node {
        Node::Const { nid, .. } => *nid,
        Node::Read { nid, .. } => *nid,
        Node::Write { nid, .. } => *nid,
        Node::Add { nid, .. } => *nid,
        Node::Sub { nid, .. } => *nid,
        Node::Rem { nid, .. } => *nid,
        Node::Ite { nid, .. } => *nid,
        Node::Eq { nid, .. } => *nid,
        Node::And { nid, .. } => *nid,
        Node::Not { nid, .. } => *nid,
        Node::State { nid, .. } => *nid,
        Node::Next { nid, .. } => *nid,
        Node::Bad { nid, .. } => *nid,
        Node::Comment(_) => 0,
    }
}

/// The numeric code of a sort in the serialized output.
pub open spec fn sort_code(sort: NodeType) -> Nid {
    match sort {
        NodeType::Bit => 1,
        NodeType::Word => 2,
        NodeType::Memory => 3,
    }
}

/// Reads the numeric code of a sort.
pub fn get_sort(sort: &NodeType) -> (r: Nid)
    ensures
        r == sort_code(*sort),
{
    match sort {
        NodeType::Bit => 1,
        NodeType::Word => 2,
        NodeType::Memory => 3,
    }
}

/// The indices in `refs` all point at nodes of `lines` of the given shape.
pub open spec fn all_point_at_next(lines: Seq<Node>, refs: Seq<NodeRef>) -> bool {
    forall|i: int|
        0 <= i < refs.len() ==> refs[i] < lines.len() && #[trigger] lines[refs[i] as int] is Next
}

/// The indices in `refs` all point at `Bad` nodes of `lines`.
pub open spec fn all_point_at_bad(lines: Seq<Node>, refs: Seq<NodeRef>) -> bool {
    forall|i: int|
        0 <= i < refs.len() ==> refs[i] < lines.len() && #[trigger] lines[refs[i] as int] is Bad
}

/// A well-formed model: the arena is a DAG in insertion order, `sequentials`
/// lists `Next` nodes and `bad_states` lists `Bad` nodes.
pub open spec fn model_wf(m: Model) -> bool {
    &&& lines_wf(m.lines@)
    &&& all_point_at_next(m.lines@, m.sequentials@)
    &&& all_point_at_bad(m.lines@, m.bad_states@)
}

/// Appending a node whose operands are valid keeps the whole arena well-formed.
pub proof fn lemma_lines_wf_push(lines: Seq<Node>, n: Node)
    requires
        lines_wf(lines),
        node_ok(lines, n),
    ensures
        lines_wf(lines.push(n)),
{
    let lines2 = lines.push(n);
    assert forall|i: int| 0 <= i < lines2.len() implies #[trigger] refs_ok(lines2, i) by {
        if i < lines.len() {
            assert(refs_ok(lines, i));
            assert(lines2.subrange(0, i) =~= lines.subrange(0, i));
        } else {
            assert(lines2.subrange(0, i) =~= lines);
        }
    }
}

} // verus!
