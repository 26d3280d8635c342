//! The model builder: walks a program's instructions in address order and
//! incrementally constructs the graph, encoding control flow as a one-hot set
//! of boolean program-counter flags and each register's or memory's next value
//! as a chain of conditional selects gated by those flags.

use vstd::prelude::*;
use vstd::string::StringSliceAdditionalSpecFns;
use crate::graph::{
    Model,
    Node,
    NodeRef,
    NodeType,
    Nid,
    lines_wf,
    valid_op,
    node_ok,
    lemma_lines_wf_push,
    all_point_at_next,
    all_point_at_bad,
    model_wf,
};
use crate::decode::Instr;

verus! {

/// Size of one encoded instruction in bytes.
pub const INSTRUCTION_SIZE: u64 = 4;

/// Exclusive upper bound on instruction addresses: keeps every address-derived
/// identifier block inside its phase's disjoint range.
pub const MAX_CODE_ADDRESS: u64 = 100_000;

/// One recorded control edge: which instruction produced it, from which
/// address, and the optional boolean guard on the transfer.
#[derive(Clone, Copy)]
pub struct InEdge {
    pub from_instruction: Instr,
    pub from_address: u64,
    pub condition: Option<NodeRef>,
}

/// The instruction index of address `a` in a code segment of `n` instructions
/// starting at `base`, if `a` falls on one.
pub open spec fn addr_index(base: u64, n: int, a: u64) -> Option<int> {
    if a >= base && (a - base) % 4 == 0 && (a - base) / 4 < n {
        Some((a - base) / 4)
    } else {
        None
    }
}

/// The edge lists after recording one control edge from `from` to `to`: the
/// target's list gains the edge, or nothing changes when `to` falls on no
/// instruction.
pub open spec fn edges_after(
    pre: Seq<Seq<InEdge>>,
    base: u64,
    n: int,
    inst: Instr,
    from: u64,
    to: u64,
    cond: Option<NodeRef>,
) -> Seq<Seq<InEdge>> {
    match addr_index(base, n, to) {
        Some(t) => pre.update(
            t,
            pre[t].push(InEdge { from_instruction: inst, from_address: from, condition: cond }),
        ),
        None => pre,
    }
}

/// The second arena extends the first: nothing already appended ever moves
/// or changes.
pub open spec fn lines_extend(l1: Seq<Node>, l2: Seq<Node>) -> bool {
    l1.len() <= l2.len() && (forall|j: int| 0 <= j < l1.len() ==> l2[j] == #[trigger] l1[j])
}

/// Extension of the arena is transitive.
pub proof fn lemma_lines_extend_trans(a: Seq<Node>, b: Seq<Node>, c: Seq<Node>)
    requires
        lines_extend(a, b),
        lines_extend(b, c),
    ensures
        lines_extend(a, c),
{
    assert forall|j: int| 0 <= j < a.len() implies c[j] == #[trigger] a[j] by {
        assert(b[j] == a[j]);
        assert(c[j] == b[j]);
    }
}

/// A recorded edge is usable by the control-flow fold: its guard, if any, is a
/// valid operand, its origin address falls on an instruction, and an edge from
/// a branch always carries a guard.
pub open spec fn edge_ok(lines: Seq<Node>, base: u64, n: int, e: InEdge) -> bool {
    &&& (e.condition matches Some(c) ==> valid_op(lines, c))
    &&& addr_index(base, n, e.from_address) is Some
    &&& (e.from_instruction matches Instr::Beq { .. } ==> e.condition is Some)
}

/// Transient state of a translation in progress, consumed into a `Model`.
pub struct ModelBuilder {
    pub lines: Vec<Node>,
    pub sequentials: Vec<NodeRef>,
    pub bad_states: Vec<NodeRef>,
    pub base_address: u64,
    pub n_instructions: usize,
    pub pc_flags: Vec<NodeRef>,
    pub control_in: Vec<Vec<InEdge>>,
    pub zero_bit: NodeRef,
    pub one_bit: NodeRef,
    pub zero_word: NodeRef,
    pub kernel_mode: NodeRef,
    pub kernel_not: NodeRef,
    pub register_nodes: Vec<NodeRef>,
    pub register_flow: Vec<NodeRef>,
    pub memory_node: NodeRef,
    pub memory_flow: NodeRef,
    pub division_flow: NodeRef,
    pub remainder_flow: NodeRef,
    pub ecall_flow: NodeRef,
    pub current_nid: Nid,
    pub pc: u64,
    pub pc_idx: usize,
}

impl ModelBuilder {
    /// The recorded control edges, one sequence per instruction index.
    pub open spec fn edges_view(self) -> Seq<Seq<InEdge>> {
        Seq::new(self.control_in@.len(), |i: int| self.control_in@[i]@)
    }

    /// The control flag gating the instruction currently being translated.
    pub open spec fn spec_pc_flag(self) -> NodeRef {
        self.pc_flags@[self.pc_idx as int]
    }

    /// The node currently standing for register `r`.
    pub open spec fn spec_reg_node(self, r: int) -> NodeRef {
        self.register_nodes@[r]
    }

    /// The flow accumulator of register `r` (`r` is never the zero register).
    pub open spec fn spec_reg_flow(self, r: int) -> NodeRef {
        self.register_flow@[r - 1]
    }

    /// The graph so far is a DAG in insertion order, and the output index
    /// lists point at nodes of the right shape.
    pub open spec fn graph_wf(self) -> bool {
        &&& lines_wf(self.lines@)
        &&& all_point_at_next(self.lines@, self.sequentials@)
        &&& all_point_at_bad(self.lines@, self.bad_states@)
    }

    /// The common constants, the kernel-mode flags, the memory nodes and all
    /// register nodes and accumulators are valid operands.
    pub open spec fn refs_wf(self) -> bool {
        &&& valid_op(self.lines@, self.zero_bit)
        &&& valid_op(self.lines@, self.one_bit)
        &&& valid_op(self.lines@, self.zero_word)
        &&& valid_op(self.lines@, self.kernel_mode)
        &&& valid_op(self.lines@, self.kernel_not)
        &&& valid_op(self.lines@, self.memory_node)
        &&& valid_op(self.lines@, self.memory_flow)
        &&& valid_op(self.lines@, self.division_flow)
        &&& valid_op(self.lines@, self.remainder_flow)
        &&& valid_op(self.lines@, self.ecall_flow)
        &&& self.register_nodes@.len() == 32
        &&& self.register_flow@.len() == 31
        &&& (forall|i: int|
            0 <= i < 32 ==> valid_op(self.lines@, #[trigger] self.register_nodes@[i]))
        &&& (forall|i: int|
            0 <= i < 31 ==> valid_op(self.lines@, #[trigger] self.register_flow@[i]))
    }

    /// One control flag per instruction, one edge list per instruction, and
    /// every flag and every edge guard a valid operand.
    pub open spec fn flags_wf(self) -> bool {
        &&& self.pc_flags@.len() == self.n_instructions
        &&& self.control_in@.len() == self.n_instructions
        &&& (forall|i: int|
            0 <= i < self.pc_flags@.len() ==> valid_op(self.lines@, #[trigger] self.pc_flags@[i]))
        &&& (forall|i: int, j: int|
            0 <= i < self.control_in@.len() && 0 <= j < self.control_in@[i]@.len() ==> edge_ok(
                self.lines@,
                self.base_address,
                self.n_instructions as int,
                #[trigger] self.control_in@[i]@[j],
            ))
    }

    /// Full well-formedness, once the fixed preamble of the graph stands.
    pub open spec fn wf(self) -> bool {
        &&& self.graph_wf()
        &&& self.refs_wf()
        &&& self.flags_wf()
    }

    /// The control-flow bookkeeping is unchanged.
    pub open spec fn same_ctrl(pre: Self, post: Self) -> bool {
        &&& post.pc_flags@ == pre.pc_flags@
        &&& post.control_in@.len() == pre.control_in@.len()
        &&& post.edges_view() == pre.edges_view()
        &&& post.n_instructions == pre.n_instructions
        &&& post.base_address == pre.base_address
        &&& post.pc == pre.pc
        &&& post.pc_idx == pre.pc_idx
    }

    /// The fixed reference nodes and the register nodes are unchanged.
    pub open spec fn same_consts(pre: Self, post: Self) -> bool {
        &&& post.zero_bit == pre.zero_bit
        &&& post.one_bit == pre.one_bit
        &&& post.zero_word == pre.zero_word
        &&& post.kernel_mode == pre.kernel_mode
        &&& post.kernel_not == pre.kernel_not
        &&& post.memory_node == pre.memory_node
        &&& post.register_nodes@ == pre.register_nodes@
    }

    /// All flow accumulators are unchanged.
    pub open spec fn same_flows(pre: Self, post: Self) -> bool {
        &&& post.register_flow@ == pre.register_flow@
        &&& post.memory_flow == pre.memory_flow
        &&& post.division_flow == pre.division_flow
        &&& post.remainder_flow == pre.remainder_flow
        &&& post.ecall_flow == pre.ecall_flow
    }

    /// The output index lists are unchanged.
    pub open spec fn same_outputs(pre: Self, post: Self) -> bool {
        &&& post.sequentials@ == pre.sequentials@
        &&& post.bad_states@ == pre.bad_states@
    }

    /// Everything except the node arena and the identifier counter is
    /// unchanged.
    pub open spec fn same_but_graph(pre: Self, post: Self) -> bool {
        &&& Self::same_ctrl(pre, post)
        &&& Self::same_consts(pre, post)
        &&& Self::same_flows(pre, post)
        &&& Self::same_outputs(pre, post)
    }

    /// Appending a node with valid operands preserves well-formedness: every
    /// existing handle keeps denoting the node it denoted before.
    pub proof fn lemma_wf_push(pre: Self, post: Self, n: Node)
        requires
            pre.graph_wf(),
            node_ok(pre.lines@, n),
            post.lines@ == pre.lines@.push(n),
            Self::same_but_graph(pre, post),
        ensures
            post.graph_wf(),
            pre.refs_wf() ==> post.refs_wf(),
            pre.flags_wf() ==> post.flags_wf(),
    {
        lemma_lines_wf_push(pre.lines@, n);
        assert forall|r: NodeRef| valid_op(pre.lines@, r) implies valid_op(post.lines@, r) by {
            assert(post.lines@[r as int] == pre.lines@[r as int]);
        }
        assert forall|i: int|
            0 <= i < post.sequentials@.len() implies post.sequentials@[i] < post.lines@.len()
            && #[trigger] post.lines@[post.sequentials@[i] as int] is Next by {
            assert(pre.lines@[pre.sequentials@[i] as int] is Next);
        }
        assert forall|i: int|
            0 <= i < post.bad_states@.len() implies post.bad_states@[i] < post.lines@.len()
            && #[trigger] post.lines@[post.bad_states@[i] as int] is Bad by {
            assert(pre.lines@[pre.bad_states@[i] as int] is Bad);
        }
        if pre.flags_wf() {
            assert forall|i: int, j: int|
                0 <= i < post.control_in@.len() && 0 <= j < post.control_in@[i]@.len()
                implies edge_ok(
                post.lines@,
                post.base_address,
                post.n_instructions as int,
                #[trigger] post.control_in@[i]@[j],
            ) by {
                assert(post.edges_view()[i] == pre.edges_view()[i]);
                let e = pre.control_in@[i]@[j];
                assert(post.control_in@[i]@[j] == e);
                assert(edge_ok(pre.lines@, pre.base_address, pre.n_instructions as int, e));
                if e.condition is Some {
                    assert(valid_op(post.lines@, e.condition->0));
                }
            }
        }
        assert(post.graph_wf());
        if pre.refs_wf() {
            assert forall|i: int|
                0 <= i < 32 implies valid_op(post.lines@, #[trigger] post.register_nodes@[i]) by {
                assert(valid_op(pre.lines@, pre.register_nodes@[i]));
            }
            assert forall|i: int|
                0 <= i < 31 implies valid_op(post.lines@, #[trigger] post.register_flow@[i]) by {
                assert(valid_op(pre.lines@, pre.register_flow@[i]));
            }
            assert(post.refs_wf());
        }
        if pre.flags_wf() {
            assert forall|i: int|
                0 <= i < post.pc_flags@.len() implies valid_op(
                post.lines@,
                #[trigger] post.pc_flags@[i],
            ) by {
                assert(valid_op(pre.lines@, pre.pc_flags@[i]));
            }
            assert(post.flags_wf());
        }
    }

    /// Starts a translation with an empty graph; every node handle is a
    /// placeholder until the setup phase has appended the nodes it stands for.
    pub fn new() -> (r: Self)
        ensures
            r.lines@ == Seq::<Node>::empty(),
            r.sequentials@ == Seq::<NodeRef>::empty(),
            r.bad_states@ == Seq::<NodeRef>::empty(),
            r.pc_flags@ == Seq::<NodeRef>::empty(),
            r.control_in@ == Seq::<Vec<InEdge>>::empty(),
            r.register_nodes@ == Seq::<NodeRef>::empty(),
            r.register_flow@ == Seq::<NodeRef>::empty(),
            r.current_nid == 0,
            r.base_address == 0,
            r.n_instructions == 0,
            r.pc == 0,
            r.pc_idx == 0,
    {
        ModelBuilder {
            lines: Vec::new(),
            sequentials: Vec::new(),
            bad_states: Vec::new(),
            base_address: 0,
            n_instructions: 0,
            pc_flags: Vec::new(),
            control_in: Vec::new(),
            zero_bit: 0,
            one_bit: 0,
            zero_word: 0,
            kernel_mode: 0,
            kernel_not: 0,
            register_nodes: Vec::new(),
            register_flow: Vec::new(),
            memory_node: 0,
            memory_flow: 0,
            division_flow: 0,
            remainder_flow: 0,
            ecall_flow: 0,
            current_nid: 0,
            pc: 0,
            pc_idx: 0,
        }
    }

    /// Consumes the builder into the finished model.
    pub fn finalize(self) -> (r: Model)
        requires
            self.graph_wf(),
        ensures
            model_wf(r),
            r.lines@ == self.lines@,
            r.sequentials@ == self.sequentials@,
            r.bad_states@ == self.bad_states@,
    {
        Model { lines: self.lines, sequentials: self.sequentials, bad_states: self.bad_states }
    }

    /// Appends one node to the graph and consumes one identifier.
    pub fn add_node(&mut self, node_data: Node) -> (r: NodeRef)
        requires
            old(self).graph_wf(),
            node_ok(old(self).lines@, node_data),
            old(self).current_nid < u64::MAX,
        ensures
            final(self).graph_wf(),
            old(self).refs_wf() ==> final(self).refs_wf(),
            old(self).flags_wf() ==> final(self).flags_wf(),
            Self::same_but_graph(*old(self), *final(self)),
            final(self).lines@ == old(self).lines@.push(node_data),
            final(self).current_nid == old(self).current_nid + 1,
            r == old(self).lines@.len(),
            !(node_data is Comment) ==> valid_op(final(self).lines@, r),
    {
        let ghost pre = *self;
        let ghost gn = node_data;
        let node_ref = self.lines.len();
        self.lines.push(node_data);
        self.current_nid = self.current_nid + 1;
        proof {
            Self::lemma_wf_push(pre, *self, gn);
        }
        node_ref
    }

    /// Appends a word constant carrying the current identifier.
    pub fn new_const(&mut self, imm: u64) -> (r: NodeRef)
        requires
            old(self).graph_wf(),
            old(self).current_nid < u64::MAX,
        ensures
            final(self).graph_wf(),
            old(self).refs_wf() ==> final(self).refs_wf(),
            old(self).flags_wf() ==> final(self).flags_wf(),
            Self::same_but_graph(*old(self), *final(self)),
            final(self).lines@ == old(self).lines@.push(
                (Node::Const { nid: old(self).current_nid, sort: NodeType::Word, imm }),
            ),
            final(self).current_nid == old(self).current_nid + 1,
            r == old(self).lines@.len(),
            valid_op(final(self).lines@, r),
    {
        let node = Node::Const { nid: self.current_nid, sort: NodeType::Word, imm };
        self.add_node(node)
    }

    /// Appends a read of the current memory node at the given address node.
    pub fn new_read(&mut self, address: NodeRef) -> (r: NodeRef)
        requires
            old(self).graph_wf(),
            old(self).current_nid < u64::MAX,
            valid_op(old(self).lines@, old(self).memory_node),
            valid_op(old(self).lines@, address),
        ensures
            final(self).graph_wf(),
            old(self).refs_wf() ==> final(self).refs_wf(),
            old(self).flags_wf() ==> final(self).flags_wf(),
            Self::same_but_graph(*old(self), *final(self)),
            final(self).lines@ == old(self).lines@.push(
                (Node::Read {
                    nid: old(self).current_nid,
                    memory: old(self).memory_node,
                    address,
                }),
            ),
            final(self).current_nid == old(self).current_nid + 1,
            r == old(self).lines@.len(),
            valid_op(final(self).lines@, r),
    {
        let node = Node::Read { nid: self.current_nid, memory: self.memory_node, address };
        self.add_node(node)
    }

    /// Appends a write of the given value to the current memory node.
    pub fn new_write(&mut self, address: NodeRef, value: NodeRef) -> (r: NodeRef)
        requires
            old(self).graph_wf(),
            old(self).current_nid < u64::MAX,
            valid_op(old(self).lines@, old(self).memory_node),
            valid_op(old(self).lines@, address),
            valid_op(old(self).lines@, value),
        ensures
            final(self).graph_wf(),
            old(self).refs_wf() ==> final(self).refs_wf(),
            old(self).flags_wf() ==> final(self).flags_wf(),
            Self::same_but_graph(*old(self), *final(self)),
            final(self).lines@ == old(self).lines@.push(
                (Node::Write {
                    nid: old(self).current_nid,
                    memory: old(self).memory_node,
                    address,
                    value,
                }),
            ),
            final(self).current_nid == old(self).current_nid + 1,
            r == old(self).lines@.len(),
            valid_op(final(self).lines@, r),
    {
        let node = Node::Write { nid: self.current_nid, memory: self.memory_node, address, value };
        self.add_node(node)
    }

    /// Appends an addition node.
    pub fn new_add(&mut self, left: NodeRef, right: NodeRef) -> (r: NodeRef)
        requires
            old(self).graph_wf(),
            old(self).current_nid < u64::MAX,
            valid_op(old(self).lines@, left),
            valid_op(old(self).lines@, right),
        ensures
            final(self).graph_wf(),
            old(self).refs_wf() ==> final(self).refs_wf(),
            old(self).flags_wf() ==> final(self).flags_wf(),
            Self::same_but_graph(*old(self), *final(self)),
            final(self).lines@ == old(self).lines@.push(
                (Node::Add { nid: old(self).current_nid, left, right }),
            ),
            final(self).current_nid == old(self).current_nid + 1,
            r == old(self).lines@.len(),
            valid_op(final(self).lines@, r),
    {
        let node = Node::Add { nid: self.current_nid, left, right };
        self.add_node(node)
    }

    /// Appends a subtraction node.
    pub fn new_sub(&mut self, left: NodeRef, right: NodeRef) -> (r: NodeRef)
        requires
            old(self).graph_wf(),
            old(self).current_nid < u64::MAX,
            valid_op(old(self).lines@, left),
            valid_op(old(self).lines@, right),
        ensures
            final(self).graph_wf(),
            old(self).refs_wf() ==> final(self).refs_wf(),
            old(self).flags_wf() ==> final(self).flags_wf(),
            Self::same_but_graph(*old(self), *final(self)),
            final(self).lines@ == old(self).lines@.push(
                (Node::Sub { nid: old(self).current_nid, left, right }),
            ),
            final(self).current_nid == old(self).current_nid + 1,
            r == old(self).lines@.len(),
            valid_op(final(self).lines@, r),
    {
        let node = Node::Sub { nid: self.current_nid, left, right };
        self.add_node(node)
    }

    /// Appends an unsigned-remainder node.
    pub fn new_rem(&mut self, left: NodeRef, right: NodeRef) -> (r: NodeRef)
        requires
            old(self).graph_wf(),
            old(self).current_nid < u64::MAX,
            valid_op(old(self).lines@, left),
            valid_op(old(self).lines@, right),
        ensures
            final(self).graph_wf(),
            old(self).refs_wf() ==> final(self).refs_wf(),
            old(self).flags_wf() ==> final(self).flags_wf(),
            Self::same_but_graph(*old(self), *final(self)),
            final(self).lines@ == old(self).lines@.push(
                (Node::Rem { nid: old(self).current_nid, left, right }),
            ),
            final(self).current_nid == old(self).current_nid + 1,
            r == old(self).lines@.len(),
            valid_op(final(self).lines@, r),
    {
        let node = Node::Rem { nid: self.current_nid, left, right };
        self.add_node(node)
    }

    /// Appends a conditional select node of the given sort.
    pub fn new_ite(&mut self, cond: NodeRef, left: NodeRef, right: NodeRef, sort: NodeType) -> (r:
        NodeRef)
        requires
            old(self).graph_wf(),
            old(self).current_nid < u64::MAX,
            valid_op(old(self).lines@, cond),
            valid_op(old(self).lines@, left),
            valid_op(old(self).lines@, right),
        ensures
            final(self).graph_wf(),
            old(self).refs_wf() ==> final(self).refs_wf(),
            old(self).flags_wf() ==> final(self).flags_wf(),
            Self::same_but_graph(*old(self), *final(self)),
            final(self).lines@ == old(self).lines@.push(
                (Node::Ite { nid: old(self).current_nid, sort, cond, left, right }),
            ),
            final(self).current_nid == old(self).current_nid + 1,
            r == old(self).lines@.len(),
            valid_op(final(self).lines@, r),
    {
        let node = Node::Ite { nid: self.current_nid, sort, cond, left, right };
        self.add_node(node)
    }

    /// Appends an equality node.
    pub fn new_eq(&mut self, left: NodeRef, right: NodeRef) -> (r: NodeRef)
        requires
            old(self).graph_wf(),
            old(self).current_nid < u64::MAX,
            valid_op(old(self).lines@, left),
            valid_op(old(self).lines@, right),
        ensures
            final(self).graph_wf(),
            old(self).refs_wf() ==> final(self).refs_wf(),
            old(self).flags_wf() ==> final(self).flags_wf(),
            Self::same_but_graph(*old(self), *final(self)),
            final(self).lines@ == old(self).lines@.push(
                (Node::Eq { nid: old(self).current_nid, left, right }),
            ),
            final(self).current_nid == old(self).current_nid + 1,
            r == old(self).lines@.len(),
            valid_op(final(self).lines@, r),
    {
        let node = Node::Eq { nid: self.current_nid, left, right };
        self.add_node(node)
    }

    /// Appends an equality node followed by its negation, as one disequality.
    pub fn new_neq(&mut self, left: NodeRef, right: NodeRef) -> (r: NodeRef)
        requires
            old(self).graph_wf(),
            old(self).current_nid + 2 <= u64::MAX,
            valid_op(old(self).lines@, left),
            valid_op(old(self).lines@, right),
        ensures
            final(self).graph_wf(),
            old(self).refs_wf() ==> final(self).refs_wf(),
            old(self).flags_wf() ==> final(self).flags_wf(),
            Self::same_but_graph(*old(self), *final(self)),
            final(self).lines@ == old(self).lines@.push(
                (Node::Eq { nid: old(self).current_nid, left, right }),
            ).push(
                (Node::Not {
                    nid: (old(self).current_nid + 1) as Nid,
                    value: old(self).lines@.len() as NodeRef,
                }),
            ),
            final(self).current_nid == old(self).current_nid + 2,
            r == old(self).lines@.len() + 1,
            valid_op(final(self).lines@, r),
    {
        let eq_node = self.new_eq(left, right);
        self.new_not(eq_node)
    }

    /// Appends a conjunction node.
    pub fn new_and(&mut self, left: NodeRef, right: NodeRef) -> (r: NodeRef)
        requires
            old(self).graph_wf(),
            old(self).current_nid < u64::MAX,
            valid_op(old(self).lines@, left),
            valid_op(old(self).lines@, right),
        ensures
            final(self).graph_wf(),
            old(self).refs_wf() ==> final(self).refs_wf(),
            old(self).flags_wf() ==> final(self).flags_wf(),
            Self::same_but_graph(*old(self), *final(self)),
            final(self).lines@ == old(self).lines@.push(
                (Node::And { nid: old(self).current_nid, left, right }),
            ),
            final(self).current_nid == old(self).current_nid + 1,
            r == old(self).lines@.len(),
            valid_op(final(self).lines@, r),
    {
        let node = Node::And { nid: self.current_nid, left, right };
        self.add_node(node)
    }

    /// Appends a negation node.
    pub fn new_not(&mut self, value: NodeRef) -> (r: NodeRef)
        requires
            old(self).graph_wf(),
            old(self).current_nid < u64::MAX,
            valid_op(old(self).lines@, value),
        ensures
            final(self).graph_wf(),
            old(self).refs_wf() ==> final(self).refs_wf(),
            old(self).flags_wf() ==> final(self).flags_wf(),
            Self::same_but_graph(*old(self), *final(self)),
            final(self).lines@ == old(self).lines@.push(
                (Node::Not { nid: old(self).current_nid, value }),
            ),
            final(self).current_nid == old(self).current_nid + 1,
            r == old(self).lines@.len(),
            valid_op(final(self).lines@, r),
    {
        let node = Node::Not { nid: self.current_nid, value };
        self.add_node(node)
    }

    /// Appends a state node; a state that carries an initial value consumes a
    /// second identifier for its paired `init` line.
    pub fn new_state(&mut self, init: Option<NodeRef>, name: Option<Vec<u8>>, sort: NodeType) -> (r:
        NodeRef)
        requires
            old(self).graph_wf(),
            old(self).current_nid + 2 <= u64::MAX,
            (init matches Some(v) ==> valid_op(old(self).lines@, v)),
        ensures
            final(self).graph_wf(),
            old(self).refs_wf() ==> final(self).refs_wf(),
            old(self).flags_wf() ==> final(self).flags_wf(),
            Self::same_but_graph(*old(self), *final(self)),
            final(self).lines@ == old(self).lines@.push(
                (Node::State { nid: old(self).current_nid, sort, init, name: name }),
            ),
            final(self).current_nid == old(self).current_nid + (if init is Some {
                2int
            } else {
                1int
            }),
            r == old(self).lines@.len(),
            valid_op(final(self).lines@, r),
    {
        let has_init = init.is_some();
        let node = Node::State { nid: self.current_nid, sort, init, name };
        let state_node = self.add_node(node);
        if has_init {
            self.current_nid = self.current_nid + 1;
        }
        state_node
    }

    /// Appends a next-state relation and records it among the sequentials.
    pub fn new_next(&mut self, state: NodeRef, next: NodeRef, name: Option<Vec<u8>>, sort: NodeType)
        -> (r: NodeRef)
        requires
            old(self).graph_wf(),
            old(self).current_nid < u64::MAX,
            valid_op(old(self).lines@, state),
            valid_op(old(self).lines@, next),
        ensures
            final(self).graph_wf(),
            old(self).refs_wf() ==> final(self).refs_wf(),
            old(self).flags_wf() ==> final(self).flags_wf(),
            Self::same_ctrl(*old(self), *final(self)),
            Self::same_consts(*old(self), *final(self)),
            Self::same_flows(*old(self), *final(self)),
            final(self).bad_states@ == old(self).bad_states@,
            final(self).sequentials@ == old(self).sequentials@.push(
                old(self).lines@.len() as NodeRef,
            ),
            final(self).lines@ == old(self).lines@.push(
                (Node::Next { nid: old(self).current_nid, sort, state, next, name: name }),
            ),
            final(self).current_nid == old(self).current_nid + 1,
            r == old(self).lines@.len(),
            valid_op(final(self).lines@, r),
    {
        let node = Node::Next { nid: self.current_nid, sort, state, next, name };
        let next_node = self.add_node(node);
        self.sequentials.push(next_node);
        next_node
    }

    /// Appends a named verification obligation and records it among the bad
    /// states.
    pub fn new_bad(&mut self, cond: NodeRef, name: Option<Vec<u8>>) -> (r: NodeRef)
        requires
            old(self).graph_wf(),
            old(self).current_nid < u64::MAX,
            valid_op(old(self).lines@, cond),
        ensures
            final(self).graph_wf(),
            old(self).refs_wf() ==> final(self).refs_wf(),
            old(self).flags_wf() ==> final(self).flags_wf(),
            Self::same_ctrl(*old(self), *final(self)),
            Self::same_consts(*old(self), *final(self)),
            Self::same_flows(*old(self), *final(self)),
            final(self).sequentials@ == old(self).sequentials@,
            final(self).bad_states@ == old(self).bad_states@.push(old(self).lines@.len() as NodeRef),
            final(self).lines@ == old(self).lines@.push(
                (Node::Bad { nid: old(self).current_nid, cond, name: name }),
            ),
            final(self).current_nid == old(self).current_nid + 1,
            r == old(self).lines@.len(),
            valid_op(final(self).lines@, r),
    {
        let node = Node::Bad { nid: self.current_nid, cond, name };
        let bad_node = self.add_node(node);
        self.bad_states.push(bad_node);
        bad_node
    }

    /// Appends a comment line; comments carry no identifier.
    pub fn new_comment(&mut self, text: Vec<u8>) -> (r: NodeRef)
        requires
            old(self).graph_wf(),
        ensures
            final(self).graph_wf(),
            old(self).refs_wf() ==> final(self).refs_wf(),
            old(self).flags_wf() ==> final(self).flags_wf(),
            Self::same_but_graph(*old(self), *final(self)),
            final(self).lines@ == old(self).lines@.push((Node::Comment(text))),
            final(self).current_nid == old(self).current_nid,
            r == old(self).lines@.len(),
    {
        let ghost pre = *self;
        let node_ref = self.lines.len();
        let node = Node::Comment(text);
        let ghost gn = node;
        self.lines.push(node);
        proof {
            Self::lemma_wf_push(pre, *self, gn);
        }
        node_ref
    }

    /// Reads the control flag of the instruction currently being translated.
    pub fn pc_flag(&self) -> (r: NodeRef)
        requires
            self.flags_wf(),
            self.pc_idx < self.n_instructions,
        ensures
            r == self.spec_pc_flag(),
            valid_op(self.lines@, r),
    {
        self.pc_flags[self.pc_idx]
    }

    /// Reads the node currently standing for a register.
    pub fn reg_node(&self, reg: u8) -> (r: NodeRef)
        requires
            self.refs_wf(),
            reg < 32,
        ensures
            r == self.spec_reg_node(reg as int),
            valid_op(self.lines@, r),
    {
        self.register_nodes[reg as usize]
    }

    /// Reads the flow accumulator of a register other than the zero register.
    pub fn reg_flow(&self, reg: u8) -> (r: NodeRef)
        requires
            self.refs_wf(),
            1 <= reg < 32,
        ensures
            r == self.spec_reg_flow(reg as int),
            valid_op(self.lines@, r),
    {
        self.register_flow[reg as usize - 1]
    }

    /// Replaces the flow accumulator of a register other than the zero
    /// register.
    pub fn reg_flow_update(&mut self, reg: u8, node: NodeRef)
        requires
            old(self).wf(),
            1 <= reg < 32,
            valid_op(old(self).lines@, node),
        ensures
            final(self).wf(),
            Self::same_ctrl(*old(self), *final(self)),
            Self::same_consts(*old(self), *final(self)),
            Self::same_outputs(*old(self), *final(self)),
            final(self).lines@ == old(self).lines@,
            final(self).current_nid == old(self).current_nid,
            final(self).register_flow@ == old(self).register_flow@.update(reg - 1, node),
            final(self).memory_flow == old(self).memory_flow,
            final(self).division_flow == old(self).division_flow,
            final(self).remainder_flow == old(self).remainder_flow,
            final(self).ecall_flow == old(self).ecall_flow,
    {
        self.register_flow.set(reg as usize - 1, node);
        proof {
            assert forall|i: int|
                0 <= i < 31 implies valid_op(self.lines@, #[trigger] self.register_flow@[i]) by {
                if i != reg - 1 {
                    assert(self.register_flow@[i] == old(self).register_flow@[i]);
                    assert(valid_op(old(self).lines@, old(self).register_flow@[i]));
                }
            }
            assert forall|i: int|
                0 <= i < 32 implies valid_op(self.lines@, #[trigger] self.register_nodes@[i]) by {
                assert(valid_op(old(self).lines@, old(self).register_nodes@[i]));
            }
            assert forall|i: int|
                0 <= i < self.pc_flags@.len() implies valid_op(
                self.lines@,
                #[trigger] self.pc_flags@[i],
            ) by {
                assert(valid_op(old(self).lines@, old(self).pc_flags@[i]));
            }
            assert forall|i: int, j: int|
                0 <= i < self.control_in@.len() && 0 <= j < self.control_in@[i]@.len()
                implies edge_ok(
                self.lines@,
                self.base_address,
                self.n_instructions as int,
                #[trigger] self.control_in@[i]@[j],
            ) by {
                assert(edge_ok(
                    old(self).lines@,
                    old(self).base_address,
                    old(self).n_instructions as int,
                    old(self).control_in@[i]@[j],
                ));
            }
        }
    }
}

/// Why a translation was abandoned; no partial model is ever produced.
#[derive(Clone, Copy, Debug, PartialEq, Eq, Structural)]
pub enum ModelError {
    /// The code segment does not fit the address-derived identifier namespace.
    AddressSpace,
    /// A word of the code segment is not a valid instruction encoding.
    InvalidWord { address: u64 },
    /// A word decodes to an instruction the translator does not implement.
    UnsupportedInstruction { address: u64 },
    /// An indirect jump outside the single supported return pattern.
    UnsupportedJalr { address: u64 },
    /// Folding the control edges of this address would overrun the hundred
    /// identifiers its block reserves.
    ControlBudget { address: u64 },
}

/// An instruction on which translation must be abandoned: an unimplemented
/// opcode, or an indirect jump that is not a plain return via the link
/// register with a zero immediate.
pub open spec fn instr_fault(i: Instr) -> bool {
    match i {
        Instr::Mul { .. } => true,
        Instr::Divu { .. } => true,
        Instr::Sltu { .. } => true,
        Instr::Jalr { rd, rs1, imm } => !(rd == 0 && rs1 == 1 && imm == 0),
        _ => false,
    }
}

/// The error reported for a faulting instruction at the given address.
pub open spec fn fault_error(i: Instr, addr: u64) -> ModelError {
    match i {
        Instr::Jalr { .. } => ModelError::UnsupportedJalr { address: addr },
        _ => ModelError::UnsupportedInstruction { address: addr },
    }
}

/// The instruction writes a register, and that register is the hardwired zero
/// register.
pub open spec fn targets_zero(i: Instr) -> bool {
    match i {
        Instr::Addi { rd, .. } => rd == 0,
        Instr::Lui { rd, .. } => rd == 0,
        Instr::Ld { rd, .. } => rd == 0,
        Instr::Add { rd, .. } => rd == 0,
        Instr::Sub { rd, .. } => rd == 0,
        Instr::Remu { rd, .. } => rd == 0,
        Instr::Jal { rd, .. } => rd == 0,
        _ => false,
    }
}

/// The register whose flow accumulator the instruction may replace.
pub open spec fn flow_target(i: Instr) -> Option<int> {
    match i {
        Instr::Addi { rd, .. } => Some(rd as int),
        Instr::Lui { rd, .. } => Some(rd as int),
        Instr::Ld { rd, .. } => Some(rd as int),
        Instr::Add { rd, .. } => Some(rd as int),
        Instr::Sub { rd, .. } => Some(rd as int),
        Instr::Remu { rd, .. } => Some(rd as int),
        Instr::Jal { rd, .. } => Some(rd as int),
        _ => None,
    }
}

impl ModelBuilder {
    /// The fixed layout facts of a translation: the program placement and the
    /// position of the instruction being translated are unchanged.
    pub open spec fn same_layout(pre: Self, post: Self) -> bool {
        &&& post.pc_flags@ == pre.pc_flags@
        &&& post.n_instructions == pre.n_instructions
        &&& post.base_address == pre.base_address
        &&& post.pc == pre.pc
        &&& post.pc_idx == pre.pc_idx
    }

    /// Records a control edge into the list of the target address; an edge to
    /// an address outside the code segment is dropped, as no control flag
    /// exists for it.
    pub fn go_to_instruction(
        &mut self,
        from_instruction: Instr,
        from_address: u64,
        to_address: u64,
        condition: Option<NodeRef>,
    )
        requires
            old(self).wf(),
            (condition matches Some(c) ==> valid_op(old(self).lines@, c)),
            addr_index(
                old(self).base_address,
                old(self).n_instructions as int,
                from_address,
            ) is Some,
            (from_instruction matches Instr::Beq { .. } ==> condition is Some),
        ensures
            final(self).wf(),
            Self::same_layout(*old(self), *final(self)),
            Self::same_consts(*old(self), *final(self)),
            Self::same_flows(*old(self), *final(self)),
            Self::same_outputs(*old(self), *final(self)),
            final(self).lines@ == old(self).lines@,
            final(self).current_nid == old(self).current_nid,
            final(self).edges_view() == edges_after(
                old(self).edges_view(),
                old(self).base_address,
                old(self).n_instructions as int,
                from_instruction,
                from_address,
                to_address,
                condition,
            ),
    {
        if to_address >= self.base_address {
            let off = to_address - self.base_address;
            if off % 4 == 0 {
                let idx64 = off / 4;
                if idx64 < self.n_instructions as u64 {
                    let idx = idx64 as usize;
                    let mut list = self.control_in.remove(idx);
                    list.push(InEdge { from_instruction, from_address, condition });
                    self.control_in.insert(idx, list);
                    proof {
                        let t = addr_index(
                            self.base_address,
                            self.n_instructions as int,
                            to_address,
                        )->0;
                        assert(t == idx);
                        assert(final(self).edges_view() =~= old(self).edges_view().update(
                            t,
                            old(self).edges_view()[t].push(
                                (InEdge { from_instruction, from_address, condition }),
                            ),
                        ));
                        assert forall|i: int, j: int|
                            0 <= i < self.control_in@.len() && 0 <= j
                                < self.control_in@[i]@.len() implies edge_ok(
                            self.lines@,
                            self.base_address,
                            self.n_instructions as int,
                            #[trigger] self.control_in@[i]@[j],
                        ) by {
                            if i != t || j < old(self).control_in@[i]@.len() {
                                assert(self.control_in@[i]@[j] == old(self).control_in@[i]@[j]);
                                assert(edge_ok(
                                    old(self).lines@,
                                    old(self).base_address,
                                    old(self).n_instructions as int,
                                    old(self).control_in@[i]@[j],
                                ));
                            }
                        }
                    }
                    return ;
                }
            }
        }
        proof {
            assert(final(self).edges_view() =~= old(self).edges_view());
        }
    }

    /// Frame of every data-flow step: layout, edges, fixed nodes and output
    /// lists are untouched.
    pub open spec fn data_frame(pre: Self, post: Self) -> bool {
        &&& Self::same_layout(pre, post)
        &&& post.edges_view() == pre.edges_view()
        &&& Self::same_consts(pre, post)
        &&& Self::same_outputs(pre, post)
    }

    /// Add-immediate: splices `rs1 + imm` into the destination's flow, gated
    /// by the current control flag; a zero immediate reuses the source node,
    /// a zero source register reduces to the constant, and a write to the
    /// zero register is silently dropped.
    pub fn model_addi(&mut self, rd: u8, rs1: u8, imm: u64)
        requires
            old(self).wf(),
            rd < 32,
            rs1 < 32,
            old(self).pc_idx < old(self).n_instructions,
            old(self).current_nid + 4 <= u64::MAX,
        ensures
            final(self).wf(),
            Self::data_frame(*old(self), *final(self)),
            final(self).memory_flow == old(self).memory_flow,
            final(self).division_flow == old(self).division_flow,
            final(self).remainder_flow == old(self).remainder_flow,
            final(self).ecall_flow == old(self).ecall_flow,
            rd == 0 ==> final(self).lines@ == old(self).lines@ && final(self).register_flow@ == old(self).register_flow@ && final(self).current_nid == old(self).current_nid,
            rd != 0 ==> final(self).register_flow@ == old(self).register_flow@.update(
                rd - 1,
                (final(self).lines@.len() - 1) as usize,
            ),
            rd != 0 && imm == 0 ==> final(self).lines@ == old(self).lines@.push(
                (Node::Ite {
                    nid: old(self).current_nid,
                    sort: NodeType::Word,
                    cond: old(self).spec_pc_flag(),
                    left: old(self).spec_reg_node(rs1 as int),
                    right: old(self).spec_reg_flow(rd as int),
                }),
            ) && final(self).current_nid == old(self).current_nid + 1,
            rd != 0 && imm != 0 && rs1 == 0 ==> final(self).lines@ == old(self).lines@.push(
                (Node::Const { nid: old(self).current_nid, sort: NodeType::Word, imm }),
            ).push(
                (Node::Ite {
                    nid: (old(self).current_nid + 1) as u64,
                    sort: NodeType::Word,
                    cond: old(self).spec_pc_flag(),
                    left: old(self).lines@.len() as usize,
                    right: old(self).spec_reg_flow(rd as int),
                }),
            ) && final(self).current_nid == old(self).current_nid + 2,
            rd != 0 && imm != 0 && rs1 != 0 ==> final(self).lines@ == old(self).lines@.push(
                (Node::Const { nid: old(self).current_nid, sort: NodeType::Word, imm }),
            ).push(
                (Node::Add {
                    nid: (old(self).current_nid + 1) as u64,
                    left: old(self).spec_reg_node(rs1 as int),
                    right: old(self).lines@.len() as usize,
                }),
            ).push(
                (Node::Ite {
                    nid: (old(self).current_nid + 2) as u64,
                    sort: NodeType::Word,
                    cond: old(self).spec_pc_flag(),
                    left: (old(self).lines@.len() + 1) as usize,
                    right: old(self).spec_reg_flow(rd as int),
                }),
            ) && final(self).current_nid == old(self).current_nid + 3,
    {
        if rd == 0 {
            return ;
        }
        let result_node: NodeRef = if imm == 0 {
            self.reg_node(rs1)
        } else if rs1 == 0 {
            self.new_const(imm)
        } else {
            let imm_node = self.new_const(imm);
            let rn = self.reg_node(rs1);
            self.new_add(rn, imm_node)
        };
        let f = self.pc_flag();
        let fl = self.reg_flow(rd);
        let ite_node = self.new_ite(f, result_node, fl, NodeType::Word);
        self.reg_flow_update(rd, ite_node);
    }

    /// Load-upper-immediate: splices the shifted constant into the
    /// destination's flow; a write to the zero register is silently dropped.
    pub fn model_lui(&mut self, rd: u8, imm: u32)
        requires
            old(self).wf(),
            rd < 32,
            old(self).pc_idx < old(self).n_instructions,
            old(self).current_nid + 4 <= u64::MAX,
        ensures
            final(self).wf(),
            Self::data_frame(*old(self), *final(self)),
            final(self).memory_flow == old(self).memory_flow,
            final(self).division_flow == old(self).division_flow,
            final(self).remainder_flow == old(self).remainder_flow,
            final(self).ecall_flow == old(self).ecall_flow,
            rd == 0 ==> final(self).lines@ == old(self).lines@ && final(self).register_flow@ == old(self).register_flow@ && final(self).current_nid == old(self).current_nid,
            rd != 0 ==> final(self).lines@ == old(self).lines@.push(
                (Node::Const {
                    nid: old(self).current_nid,
                    sort: NodeType::Word,
                    imm: (imm as u64) << 12,
                }),
            ).push(
                (Node::Ite {
                    nid: (old(self).current_nid + 1) as u64,
                    sort: NodeType::Word,
                    cond: old(self).spec_pc_flag(),
                    left: old(self).lines@.len() as usize,
                    right: old(self).spec_reg_flow(rd as int),
                }),
            ) && final(self).current_nid == old(self).current_nid + 2 && final(self).register_flow@
                == old(self).register_flow@.update(
                rd - 1,
                (old(self).lines@.len() + 1) as usize,
            ),
    {
        if rd == 0 {
            return ;
        }
        let imm_shifted = (imm as u64) << 12;
        let const_node = self.new_const(imm_shifted);
        let f = self.pc_flag();
        let fl = self.reg_flow(rd);
        let ite_node = self.new_ite(f, const_node, fl, NodeType::Word);
        self.reg_flow_update(rd, ite_node);
    }

    /// The effective address of a memory access: the base register plus the
    /// immediate, or the base register's node itself when the immediate is
    /// zero.
    pub fn model_address(&mut self, reg: u8, imm: u64) -> (r: NodeRef)
        requires
            old(self).wf(),
            reg < 32,
            old(self).current_nid + 2 <= u64::MAX,
        ensures
            final(self).wf(),
            Self::data_frame(*old(self), *final(self)),
            Self::same_flows(*old(self), *final(self)),
            valid_op(final(self).lines@, r),
            imm == 0 ==> final(self).lines@ == old(self).lines@ && final(self).current_nid == old(self).current_nid && r == old(self).spec_reg_node(reg as int),
            imm != 0 ==> final(self).lines@ == old(self).lines@.push(
                (Node::Const { nid: old(self).current_nid, sort: NodeType::Word, imm }),
            ).push(
                (Node::Add {
                    nid: (old(self).current_nid + 1) as u64,
                    left: old(self).spec_reg_node(reg as int),
                    right: old(self).lines@.len() as usize,
                }),
            ) && final(self).current_nid == old(self).current_nid + 2 && r == (old(self).lines@.len() + 1) as usize,
    {
        if imm == 0 {
            let r = self.reg_node(reg);
            proof {
                assert(valid_op(self.lines@, r));
            }
            r
        } else {
            let imm_node = self.new_const(imm);
            let rn = self.reg_node(reg);
            self.new_add(rn, imm_node)
        }
    }

    /// Load double word: a read of memory at the effective address, spliced
    /// into the destination's flow; a load into the zero register is silently
    /// dropped.
    pub fn model_ld(&mut self, rd: u8, rs1: u8, imm: u64)
        requires
            old(self).wf(),
            rd < 32,
            rs1 < 32,
            old(self).pc_idx < old(self).n_instructions,
            old(self).current_nid + 4 <= u64::MAX,
        ensures
            final(self).wf(),
            Self::data_frame(*old(self), *final(self)),
            final(self).memory_flow == old(self).memory_flow,
            final(self).division_flow == old(self).division_flow,
            final(self).remainder_flow == old(self).remainder_flow,
            final(self).ecall_flow == old(self).ecall_flow,
            rd == 0 ==> final(self).lines@ == old(self).lines@ && final(self).register_flow@ == old(self).register_flow@ && final(self).current_nid == old(self).current_nid,
            rd != 0 ==> final(self).register_flow@ == old(self).register_flow@.update(
                rd - 1,
                (final(self).lines@.len() - 1) as usize,
            ),
            rd != 0 && imm == 0 ==> final(self).lines@ == old(self).lines@.push(
                (Node::Read {
                    nid: old(self).current_nid,
                    memory: old(self).memory_node,
                    address: old(self).spec_reg_node(rs1 as int),
                }),
            ).push(
                (Node::Ite {
                    nid: (old(self).current_nid + 1) as u64,
                    sort: NodeType::Word,
                    cond: old(self).spec_pc_flag(),
                    left: old(self).lines@.len() as usize,
                    right: old(self).spec_reg_flow(rd as int),
                }),
            ) && final(self).current_nid == old(self).current_nid + 2,
            rd != 0 && imm != 0 ==> final(self).lines@ == old(self).lines@.push(
                (Node::Const { nid: old(self).current_nid, sort: NodeType::Word, imm }),
            ).push(
                (Node::Add {
                    nid: (old(self).current_nid + 1) as u64,
                    left: old(self).spec_reg_node(rs1 as int),
                    right: old(self).lines@.len() as usize,
                }),
            ).push(
                (Node::Read {
                    nid: (old(self).current_nid + 2) as u64,
                    memory: old(self).memory_node,
                    address: (old(self).lines@.len() + 1) as usize,
                }),
            ).push(
                (Node::Ite {
                    nid: (old(self).current_nid + 3) as u64,
                    sort: NodeType::Word,
                    cond: old(self).spec_pc_flag(),
                    left: (old(self).lines@.len() + 2) as usize,
                    right: old(self).spec_reg_flow(rd as int),
                }),
            ) && final(self).current_nid == old(self).current_nid + 4,
    {
        if rd == 0 {
            return ;
        }
        let address_node = self.model_address(rs1, imm);
        let read_node = self.new_read(address_node);
        let f = self.pc_flag();
        let fl = self.reg_flow(rd);
        let ite_node = self.new_ite(f, read_node, fl, NodeType::Word);
        self.reg_flow_update(rd, ite_node);
    }

    /// Store double word: a write of the source register to memory at the
    /// effective address, spliced into the memory flow.
    pub fn model_sd(&mut self, rs1: u8, rs2: u8, imm: u64)
        requires
            old(self).wf(),
            rs1 < 32,
            rs2 < 32,
            old(self).pc_idx < old(self).n_instructions,
            old(self).current_nid + 4 <= u64::MAX,
        ensures
            final(self).wf(),
            Self::data_frame(*old(self), *final(self)),
            final(self).register_flow@ == old(self).register_flow@,
            final(self).division_flow == old(self).division_flow,
            final(self).remainder_flow == old(self).remainder_flow,
            final(self).ecall_flow == old(self).ecall_flow,
            final(self).memory_flow == (final(self).lines@.len() - 1) as usize,
            imm == 0 ==> final(self).lines@ == old(self).lines@.push(
                (Node::Write {
                    nid: old(self).current_nid,
                    memory: old(self).memory_node,
                    address: old(self).spec_reg_node(rs1 as int),
                    value: old(self).spec_reg_node(rs2 as int),
                }),
            ).push(
                (Node::Ite {
                    nid: (old(self).current_nid + 1) as u64,
                    sort: NodeType::Memory,
                    cond: old(self).spec_pc_flag(),
                    left: old(self).lines@.len() as usize,
                    right: old(self).memory_flow,
                }),
            ) && final(self).current_nid == old(self).current_nid + 2,
            imm != 0 ==> final(self).lines@ == old(self).lines@.push(
                (Node::Const { nid: old(self).current_nid, sort: NodeType::Word, imm }),
            ).push(
                (Node::Add {
                    nid: (old(self).current_nid + 1) as u64,
                    left: old(self).spec_reg_node(rs1 as int),
                    right: old(self).lines@.len() as usize,
                }),
            ).push(
                (Node::Write {
                    nid: (old(self).current_nid + 2) as u64,
                    memory: old(self).memory_node,
                    address: (old(self).lines@.len() + 1) as usize,
                    value: old(self).spec_reg_node(rs2 as int),
                }),
            ).push(
                (Node::Ite {
                    nid: (old(self).current_nid + 3) as u64,
                    sort: NodeType::Memory,
                    cond: old(self).spec_pc_flag(),
                    left: (old(self).lines@.len() + 2) as usize,
                    right: old(self).memory_flow,
                }),
            ) && final(self).current_nid == old(self).current_nid + 4,
    {
        let address_node = self.model_address(rs1, imm);
        let vn = self.reg_node(rs2);
        let write_node = self.new_write(address_node, vn);
        let f = self.pc_flag();
        let mf = self.memory_flow;
        let ite_node = self.new_ite(f, write_node, mf, NodeType::Memory);
        self.memory_flow = ite_node;
        proof {
            assert(valid_op(self.lines@, self.memory_flow));
        }
    }

    /// Addition: splices `rs1 + rs2` into the destination's flow; a write to
    /// the zero register is silently dropped.
    pub fn model_add(&mut self, rd: u8, rs1: u8, rs2: u8)
        requires
            old(self).wf(),
            rd < 32,
            rs1 < 32,
            rs2 < 32,
            old(self).pc_idx < old(self).n_instructions,
            old(self).current_nid + 4 <= u64::MAX,
        ensures
            final(self).wf(),
            Self::data_frame(*old(self), *final(self)),
            final(self).memory_flow == old(self).memory_flow,
            final(self).division_flow == old(self).division_flow,
            final(self).remainder_flow == old(self).remainder_flow,
            final(self).ecall_flow == old(self).ecall_flow,
            rd == 0 ==> final(self).lines@ == old(self).lines@ && final(self).register_flow@ == old(self).register_flow@ && final(self).current_nid == old(self).current_nid,
            rd != 0 ==> final(self).lines@ == old(self).lines@.push(
                (Node::Add {
                    nid: old(self).current_nid,
                    left: old(self).spec_reg_node(rs1 as int),
                    right: old(self).spec_reg_node(rs2 as int),
                }),
            ).push(
                (Node::Ite {
                    nid: (old(self).current_nid + 1) as u64,
                    sort: NodeType::Word,
                    cond: old(self).spec_pc_flag(),
                    left: old(self).lines@.len() as usize,
                    right: old(self).spec_reg_flow(rd as int),
                }),
            ) && final(self).current_nid == old(self).current_nid + 2 && final(self).register_flow@
                == old(self).register_flow@.update(rd - 1, (old(self).lines@.len() + 1) as usize),
    {
        if rd == 0 {
            return ;
        }
        let l = self.reg_node(rs1);
        let r = self.reg_node(rs2);
        let add_node = self.new_add(l, r);
        let f = self.pc_flag();
        let fl = self.reg_flow(rd);
        let ite_node = self.new_ite(f, add_node, fl, NodeType::Word);
        self.reg_flow_update(rd, ite_node);
    }

    /// Subtraction: splices `rs1 - rs2` into the destination's flow; a write
    /// to the zero register is silently dropped.
    pub fn model_sub(&mut self, rd: u8, rs1: u8, rs2: u8)
        requires
            old(self).wf(),
            rd < 32,
            rs1 < 32,
            rs2 < 32,
            old(self).pc_idx < old(self).n_instructions,
            old(self).current_nid + 4 <= u64::MAX,
        ensures
            final(self).wf(),
            Self::data_frame(*old(self), *final(self)),
            final(self).memory_flow == old(self).memory_flow,
            final(self).division_flow == old(self).division_flow,
            final(self).remainder_flow == old(self).remainder_flow,
            final(self).ecall_flow == old(self).ecall_flow,
            rd == 0 ==> final(self).lines@ == old(self).lines@ && final(self).register_flow@ == old(self).register_flow@ && final(self).current_nid == old(self).current_nid,
            rd != 0 ==> final(self).lines@ == old(self).lines@.push(
                (Node::Sub {
                    nid: old(self).current_nid,
                    left: old(self).spec_reg_node(rs1 as int),
                    right: old(self).spec_reg_node(rs2 as int),
                }),
            ).push(
                (Node::Ite {
                    nid: (old(self).current_nid + 1) as u64,
                    sort: NodeType::Word,
                    cond: old(self).spec_pc_flag(),
                    left: old(self).lines@.len() as usize,
                    right: old(self).spec_reg_flow(rd as int),
                }),
            ) && final(self).current_nid == old(self).current_nid + 2 && final(self).register_flow@
                == old(self).register_flow@.update(rd - 1, (old(self).lines@.len() + 1) as usize),
    {
        if rd == 0 {
            return ;
        }
        let l = self.reg_node(rs1);
        let r = self.reg_node(rs2);
        let sub_node = self.new_sub(l, r);
        let f = self.pc_flag();
        let fl = self.reg_flow(rd);
        let ite_node = self.new_ite(f, sub_node, fl, NodeType::Word);
        self.reg_flow_update(rd, ite_node);
    }

    /// Unsigned remainder: additionally splices the divisor into the
    /// remainder-safety accumulator, then `rs1 % rs2` into the destination's
    /// flow; a write to the zero register is silently dropped.
    pub fn model_remu(&mut self, rd: u8, rs1: u8, rs2: u8)
        requires
            old(self).wf(),
            rd < 32,
            rs1 < 32,
            rs2 < 32,
            old(self).pc_idx < old(self).n_instructions,
            old(self).current_nid + 4 <= u64::MAX,
        ensures
            final(self).wf(),
            Self::data_frame(*old(self), *final(self)),
            final(self).memory_flow == old(self).memory_flow,
            final(self).division_flow == old(self).division_flow,
            final(self).ecall_flow == old(self).ecall_flow,
            rd == 0 ==> final(self).lines@ == old(self).lines@ && final(self).register_flow@ == old(self).register_flow@ && final(self).remainder_flow == old(self).remainder_flow
                && final(self).current_nid == old(self).current_nid,
            rd != 0 ==> final(self).lines@ == old(self).lines@.push(
                (Node::Ite {
                    nid: old(self).current_nid,
                    sort: NodeType::Word,
                    cond: old(self).spec_pc_flag(),
                    left: old(self).spec_reg_node(rs2 as int),
                    right: old(self).remainder_flow,
                }),
            ).push(
                (Node::Rem {
                    nid: (old(self).current_nid + 1) as u64,
                    left: old(self).spec_reg_node(rs1 as int),
                    right: old(self).spec_reg_node(rs2 as int),
                }),
            ).push(
                (Node::Ite {
                    nid: (old(self).current_nid + 2) as u64,
                    sort: NodeType::Word,
                    cond: old(self).spec_pc_flag(),
                    left: (old(self).lines@.len() + 1) as usize,
                    right: old(self).spec_reg_flow(rd as int),
                }),
            ) && final(self).current_nid == old(self).current_nid + 3 && final(self).remainder_flow
                == old(self).lines@.len() as usize && final(self).register_flow@ == old(self).register_flow@.update(rd - 1, (old(self).lines@.len() + 2) as usize),
    {
        if rd == 0 {
            return ;
        }
        let f = self.pc_flag();
        let divisor = self.reg_node(rs2);
        let rf = self.remainder_flow;
        let rem_track = self.new_ite(f, divisor, rf, NodeType::Word);
        self.remainder_flow = rem_track;
        let l = self.reg_node(rs1);
        let r = self.reg_node(rs2);
        let rem_node = self.new_rem(l, r);
        let fl = self.reg_flow(rd);
        let ite_node = self.new_ite(f, rem_node, fl, NodeType::Word);
        self.reg_flow_update(rd, ite_node);
        proof {
            assert(valid_op(self.lines@, self.remainder_flow));
        }
    }

    /// Branch-if-equal: appends the equality of the two source registers and
    /// its negation, and returns them as the guards of the taken and the
    /// not-taken edge; no flow accumulator changes.
    pub fn model_beq(&mut self, rs1: u8, rs2: u8) -> (r: (NodeRef, NodeRef))
        requires
            old(self).wf(),
            rs1 < 32,
            rs2 < 32,
            old(self).current_nid + 4 <= u64::MAX,
        ensures
            final(self).wf(),
            Self::data_frame(*old(self), *final(self)),
            Self::same_flows(*old(self), *final(self)),
            final(self).lines@ == old(self).lines@.push(
                (Node::Eq {
                    nid: old(self).current_nid,
                    left: old(self).spec_reg_node(rs1 as int),
                    right: old(self).spec_reg_node(rs2 as int),
                }),
            ).push(
                (Node::Not {
                    nid: (old(self).current_nid + 1) as u64,
                    value: old(self).lines@.len() as usize,
                }),
            ),
            final(self).current_nid == old(self).current_nid + 2,
            r.0 == old(self).lines@.len(),
            r.1 == old(self).lines@.len() + 1,
            valid_op(final(self).lines@, r.0),
            valid_op(final(self).lines@, r.1),
    {
        let l = self.reg_node(rs1);
        let rr = self.reg_node(rs2);
        let cond_true = self.new_eq(l, rr);
        let cond_false = self.new_not(cond_true);
        (cond_true, cond_false)
    }

    /// Jump-and-link: splices the return address into the link register's
    /// flow; a link into the zero register is silently dropped.
    pub fn model_jal(&mut self, rd: u8)
        requires
            old(self).wf(),
            rd < 32,
            old(self).pc_idx < old(self).n_instructions,
            old(self).current_nid + 4 <= u64::MAX,
        ensures
            final(self).wf(),
            Self::data_frame(*old(self), *final(self)),
            final(self).memory_flow == old(self).memory_flow,
            final(self).division_flow == old(self).division_flow,
            final(self).remainder_flow == old(self).remainder_flow,
            final(self).ecall_flow == old(self).ecall_flow,
            rd == 0 ==> final(self).lines@ == old(self).lines@ && final(self).register_flow@ == old(self).register_flow@ && final(self).current_nid == old(self).current_nid,
            rd != 0 ==> final(self).lines@ == old(self).lines@.push(
                (Node::Const {
                    nid: old(self).current_nid,
                    sort: NodeType::Word,
                    imm: old(self).pc.wrapping_add(INSTRUCTION_SIZE),
                }),
            ).push(
                (Node::Ite {
                    nid: (old(self).current_nid + 1) as u64,
                    sort: NodeType::Word,
                    cond: old(self).spec_pc_flag(),
                    left: old(self).lines@.len() as usize,
                    right: old(self).spec_reg_flow(rd as int),
                }),
            ) && final(self).current_nid == old(self).current_nid + 2 && final(self).register_flow@
                == old(self).register_flow@.update(rd - 1, (old(self).lines@.len() + 1) as usize),
    {
        if rd == 0 {
            return ;
        }
        let link_node = self.new_const(self.pc.wrapping_add(INSTRUCTION_SIZE));
        let f = self.pc_flag();
        let fl = self.reg_flow(rd);
        let ite_node = self.new_ite(f, link_node, fl, NodeType::Word);
        self.reg_flow_update(rd, ite_node);
    }

    /// System call: raises the system-call accumulator, gated by the current
    /// control flag.
    pub fn model_ecall(&mut self)
        requires
            old(self).wf(),
            old(self).pc_idx < old(self).n_instructions,
            old(self).current_nid + 4 <= u64::MAX,
        ensures
            final(self).wf(),
            Self::data_frame(*old(self), *final(self)),
            final(self).register_flow@ == old(self).register_flow@,
            final(self).memory_flow == old(self).memory_flow,
            final(self).division_flow == old(self).division_flow,
            final(self).remainder_flow == old(self).remainder_flow,
            final(self).lines@ == old(self).lines@.push(
                (Node::Ite {
                    nid: old(self).current_nid,
                    sort: NodeType::Bit,
                    cond: old(self).spec_pc_flag(),
                    left: old(self).one_bit,
                    right: old(self).ecall_flow,
                }),
            ),
            final(self).current_nid == old(self).current_nid + 1,
            final(self).ecall_flow == old(self).lines@.len() as usize,
    {
        let f = self.pc_flag();
        let ob = self.one_bit;
        let ef = self.ecall_flow;
        let ite_node = self.new_ite(f, ob, ef, NodeType::Bit);
        self.ecall_flow = ite_node;
        proof {
            assert(valid_op(self.lines@, self.ecall_flow));
        }
    }

    pub open spec fn addi_effect(pre: Self, post: Self, rd: u8, rs1: u8, imm: u64) -> bool {
        &&& (rd == 0 ==> post.lines@ == pre.lines@ && post.register_flow@ == pre.register_flow@ && post.current_nid == pre.current_nid)
        &&& (rd != 0 ==> post.register_flow@ == pre.register_flow@.update(
                rd - 1,
                (post.lines@.len() - 1) as usize,
            ))
        &&& (rd != 0 && imm == 0 ==> post.lines@ == pre.lines@.push(
                (Node::Ite {
                    nid: pre.current_nid,
                    sort: NodeType::Word,
                    cond: pre.spec_pc_flag(),
                    left: pre.spec_reg_node(rs1 as int),
                    right: pre.spec_reg_flow(rd as int),
                }),
            ) && post.current_nid == pre.current_nid + 1)
        &&& (rd != 0 && imm != 0 && rs1 == 0 ==> post.lines@ == pre.lines@.push(
                (Node::Const { nid: pre.current_nid, sort: NodeType::Word, imm }),
            ).push(
                (Node::Ite {
                    nid: (pre.current_nid + 1) as u64,
                    sort: NodeType::Word,
                    cond: pre.spec_pc_flag(),
                    left: pre.lines@.len() as usize,
                    right: pre.spec_reg_flow(rd as int),
                }),
            ) && post.current_nid == pre.current_nid + 2)
        &&& (rd != 0 && imm != 0 && rs1 != 0 ==> post.lines@ == pre.lines@.push(
                (Node::Const { nid: pre.current_nid, sort: NodeType::Word, imm }),
            ).push(
                (Node::Add {
                    nid: (pre.current_nid + 1) as u64,
                    left: pre.spec_reg_node(rs1 as int),
                    right: pre.lines@.len() as usize,
                }),
            ).push(
                (Node::Ite {
                    nid: (pre.current_nid + 2) as u64,
                    sort: NodeType::Word,
                    cond: pre.spec_pc_flag(),
                    left: (pre.lines@.len() + 1) as usize,
                    right: pre.spec_reg_flow(rd as int),
                }),
            ) && post.current_nid == pre.current_nid + 3)
    }

    pub open spec fn lui_effect(pre: Self, post: Self, rd: u8, imm: u32) -> bool {
        &&& (rd == 0 ==> post.lines@ == pre.lines@ && post.register_flow@ == pre.register_flow@ && post.current_nid == pre.current_nid)
        &&& (rd != 0 ==> post.lines@ == pre.lines@.push(
                (Node::Const {
                    nid: pre.current_nid,
                    sort: NodeType::Word,
                    imm: (imm as u64) << 12,
                }),
            ).push(
                (Node::Ite {
                    nid: (pre.current_nid + 1) as u64,
                    sort: NodeType::Word,
                    cond: pre.spec_pc_flag(),
                    left: pre.lines@.len() as usize,
                    right: pre.spec_reg_flow(rd as int),
                }),
            ) && post.current_nid == pre.current_nid + 2 && post.register_flow@
                == pre.register_flow@.update(
                rd - 1,
                (pre.lines@.len() + 1) as usize,
            ))
    }

    pub open spec fn ld_effect(pre: Self, post: Self, rd: u8, rs1: u8, imm: u64) -> bool {
        &&& (rd == 0 ==> post.lines@ == pre.lines@ && post.register_flow@ == pre.register_flow@ && post.current_nid == pre.current_nid)
        &&& (rd != 0 ==> post.register_flow@ == pre.register_flow@.update(
                rd - 1,
                (post.lines@.len() - 1) as usize,
            ))
        &&& (rd != 0 && imm == 0 ==> post.lines@ == pre.lines@.push(
                (Node::Read {
                    nid: pre.current_nid,
                    memory: pre.memory_node,
                    address: pre.spec_reg_node(rs1 as int),
                }),
            ).push(
                (Node::Ite {
                    nid: (pre.current_nid + 1) as u64,
                    sort: NodeType::Word,
                    cond: pre.spec_pc_flag(),
                    left: pre.lines@.len() as usize,
                    right: pre.spec_reg_flow(rd as int),
                }),
            ) && post.current_nid == pre.current_nid + 2)
        &&& (rd != 0 && imm != 0 ==> post.lines@ == pre.lines@.push(
                (Node::Const { nid: pre.current_nid, sort: NodeType::Word, imm }),
            ).push(
                (Node::Add {
                    nid: (pre.current_nid + 1) as u64,
                    left: pre.spec_reg_node(rs1 as int),
                    right: pre.lines@.len() as usize,
                }),
            ).push(
                (Node::Read {
                    nid: (pre.current_nid + 2) as u64,
                    memory: pre.memory_node,
                    address: (pre.lines@.len() + 1) as usize,
                }),
            ).push(
                (Node::Ite {
                    nid: (pre.current_nid + 3) as u64,
                    sort: NodeType::Word,
                    cond: pre.spec_pc_flag(),
                    left: (pre.lines@.len() + 2) as usize,
                    right: pre.spec_reg_flow(rd as int),
                }),
            ) && post.current_nid == pre.current_nid + 4)
    }

    pub open spec fn sd_effect(pre: Self, post: Self, rs1: u8, rs2: u8, imm: u64) -> bool {
        &&& (post.memory_flow == (post.lines@.len() - 1) as usize)
        &&& (imm == 0 ==> post.lines@ == pre.lines@.push(
                (Node::Write {
                    nid: pre.current_nid,
                    memory: pre.memory_node,
                    address: pre.spec_reg_node(rs1 as int),
                    value: pre.spec_reg_node(rs2 as int),
                }),
            ).push(
                (Node::Ite {
                    nid: (pre.current_nid + 1) as u64,
                    sort: NodeType::Memory,
                    cond: pre.spec_pc_flag(),
                    left: pre.lines@.len() as usize,
                    right: pre.memory_flow,
                }),
            ) && post.current_nid == pre.current_nid + 2)
        &&& (imm != 0 ==> post.lines@ == pre.lines@.push(
                (Node::Const { nid: pre.current_nid, sort: NodeType::Word, imm }),
            ).push(
                (Node::Add {
                    nid: (pre.current_nid + 1) as u64,
                    left: pre.spec_reg_node(rs1 as int),
                    right: pre.lines@.len() as usize,
                }),
            ).push(
                (Node::Write {
                    nid: (pre.current_nid + 2) as u64,
                    memory: pre.memory_node,
                    address: (pre.lines@.len() + 1) as usize,
                    value: pre.spec_reg_node(rs2 as int),
                }),
            ).push(
                (Node::Ite {
                    nid: (pre.current_nid + 3) as u64,
                    sort: NodeType::Memory,
                    cond: pre.spec_pc_flag(),
                    left: (pre.lines@.len() + 2) as usize,
                    right: pre.memory_flow,
                }),
            ) && post.current_nid == pre.current_nid + 4)
    }

    pub open spec fn add_effect(pre: Self, post: Self, rd: u8, rs1: u8, rs2: u8) -> bool {
        &&& (rd == 0 ==> post.lines@ == pre.lines@ && post.register_flow@ == pre.register_flow@ && post.current_nid == pre.current_nid)
        &&& (rd != 0 ==> post.lines@ == pre.lines@.push(
                (Node::Add {
                    nid: pre.current_nid,
                    left: pre.spec_reg_node(rs1 as int),
                    right: pre.spec_reg_node(rs2 as int),
                }),
            ).push(
                (Node::Ite {
                    nid: (pre.current_nid + 1) as u64,
                    sort: NodeType::Word,
                    cond: pre.spec_pc_flag(),
                    left: pre.lines@.len() as usize,
                    right: pre.spec_reg_flow(rd as int),
                }),
            ) && post.current_nid == pre.current_nid + 2 && post.register_flow@
                == pre.register_flow@.update(rd - 1, (pre.lines@.len() + 1) as usize))
    }

    pub open spec fn sub_effect(pre: Self, post: Self, rd: u8, rs1: u8, rs2: u8) -> bool {
        &&& (rd == 0 ==> post.lines@ == pre.lines@ && post.register_flow@ == pre.register_flow@ && post.current_nid == pre.current_nid)
        &&& (rd != 0 ==> post.lines@ == pre.lines@.push(
                (Node::Sub {
                    nid: pre.current_nid,
                    left: pre.spec_reg_node(rs1 as int),
                    right: pre.spec_reg_node(rs2 as int),
                }),
            ).push(
                (Node::Ite {
                    nid: (pre.current_nid + 1) as u64,
                    sort: NodeType::Word,
                    cond: pre.spec_pc_flag(),
                    left: pre.lines@.len() as usize,
                    right: pre.spec_reg_flow(rd as int),
                }),
            ) && post.current_nid == pre.current_nid + 2 && post.register_flow@
                == pre.register_flow@.update(rd - 1, (pre.lines@.len() + 1) as usize))
    }

    pub open spec fn remu_effect(pre: Self, post: Self, rd: u8, rs1: u8, rs2: u8) -> bool {
        &&& (rd == 0 ==> post.lines@ == pre.lines@ && post.register_flow@ == pre.register_flow@ && post.remainder_flow == pre.remainder_flow
                && post.current_nid == pre.current_nid)
        &&& (rd != 0 ==> post.lines@ == pre.lines@.push(
                (Node::Ite {
                    nid: pre.current_nid,
                    sort: NodeType::Word,
                    cond: pre.spec_pc_flag(),
                    left: pre.spec_reg_node(rs2 as int),
                    right: pre.remainder_flow,
                }),
            ).push(
                (Node::Rem {
                    nid: (pre.current_nid + 1) as u64,
                    left: pre.spec_reg_node(rs1 as int),
                    right: pre.spec_reg_node(rs2 as int),
                }),
            ).push(
                (Node::Ite {
                    nid: (pre.current_nid + 2) as u64,
                    sort: NodeType::Word,
                    cond: pre.spec_pc_flag(),
                    left: (pre.lines@.len() + 1) as usize,
                    right: pre.spec_reg_flow(rd as int),
                }),
            ) && post.current_nid == pre.current_nid + 3 && post.remainder_flow
                == pre.lines@.len() as usize && post.register_flow@ == pre.register_flow@.update(rd - 1, (pre.lines@.len() + 2) as usize))
    }

    pub open spec fn beq_effect(pre: Self, post: Self, rs1: u8, rs2: u8) -> bool {
        &&& (post.lines@ == pre.lines@.push(
                (Node::Eq {
                    nid: pre.current_nid,
                    left: pre.spec_reg_node(rs1 as int),
                    right: pre.spec_reg_node(rs2 as int),
                }),
            ).push(
                (Node::Not {
                    nid: (pre.current_nid + 1) as u64,
                    value: pre.lines@.len() as usize,
                }),
            ))
        &&& (post.current_nid == pre.current_nid + 2)
    }

    pub open spec fn jal_effect(pre: Self, post: Self, rd: u8) -> bool {
        &&& (rd == 0 ==> post.lines@ == pre.lines@ && post.register_flow@ == pre.register_flow@ && post.current_nid == pre.current_nid)
        &&& (rd != 0 ==> post.lines@ == pre.lines@.push(
                (Node::Const {
                    nid: pre.current_nid,
                    sort: NodeType::Word,
                    imm: pre.pc.wrapping_add(INSTRUCTION_SIZE),
                }),
            ).push(
                (Node::Ite {
                    nid: (pre.current_nid + 1) as u64,
                    sort: NodeType::Word,
                    cond: pre.spec_pc_flag(),
                    left: pre.lines@.len() as usize,
                    right: pre.spec_reg_flow(rd as int),
                }),
            ) && post.current_nid == pre.current_nid + 2 && post.register_flow@
                == pre.register_flow@.update(rd - 1, (pre.lines@.len() + 1) as usize))
    }

    pub open spec fn ecall_effect(pre: Self, post: Self) -> bool {
        &&& (post.lines@ == pre.lines@.push(
                (Node::Ite {
                    nid: pre.current_nid,
                    sort: NodeType::Bit,
                    cond: pre.spec_pc_flag(),
                    left: pre.one_bit,
                    right: pre.ecall_flow,
                }),
            ))
        &&& (post.current_nid == pre.current_nid + 1)
        &&& (post.ecall_flow == pre.lines@.len() as usize)
    }

    /// Translates one decoded instruction: emits its data-flow nodes and
    /// records its outgoing control edges, or reports the fault that makes
    /// translation impossible, leaving the builder untouched.
    pub fn translate_to_model(&mut self, inst: Instr) -> (r: Result<(), ModelError>)
        requires
            old(self).wf(),
            crate::decode::instr_regs_wf(inst),
            old(self).pc_idx < old(self).n_instructions,
            old(self).current_nid + 8 <= u64::MAX,
            old(self).pc == old(self).base_address + 4 * old(self).pc_idx,
        ensures
            final(self).wf(),
            Self::same_layout(*old(self), *final(self)),
            Self::same_consts(*old(self), *final(self)),
            Self::same_outputs(*old(self), *final(self)),
            final(self).division_flow == old(self).division_flow,
            (r is Ok) == !instr_fault(inst),
            r is Err ==> final(self).lines@ == old(self).lines@ && final(self).current_nid == old(self).current_nid && final(self).edges_view() == old(self).edges_view()
                && Self::same_flows(*old(self), *final(self)) && r == Err::<(), ModelError>(
                fault_error(inst, old(self).pc),
            ),
            !instr_fault(inst) && targets_zero(inst) ==> final(self).lines@ == old(self).lines@
                && final(self).current_nid == old(self).current_nid && Self::same_flows(
                *old(self),
                *final(self),
            ),
            forall|i: int|
                0 <= i < 31 && flow_target(inst) != Some(i + 1)
                    ==> final(self).register_flow@[i] == #[trigger] old(self).register_flow@[i],
            !(inst is Sd) ==> final(self).memory_flow == old(self).memory_flow,
            !(inst is Remu) ==> final(self).remainder_flow == old(self).remainder_flow,
            !(inst is Ecall) ==> final(self).ecall_flow == old(self).ecall_flow,
            lines_extend(old(self).lines@, final(self).lines@),
            !instr_fault(inst) ==> edges_translated(*old(self), *final(self), inst),
            !instr_fault(inst) ==> ({
                let pre = *old(self);
                let post = *final(self);
                match inst {
                    Instr::Addi { rd, rs1, imm } => Self::addi_effect(pre, post, rd, rs1, imm),
                    Instr::Lui { rd, imm } => Self::lui_effect(pre, post, rd, imm),
                    Instr::Ld { rd, rs1, imm } => Self::ld_effect(pre, post, rd, rs1, imm),
                    Instr::Sd { rs1, rs2, imm } => Self::sd_effect(pre, post, rs1, rs2, imm),
                    Instr::Add { rd, rs1, rs2 } => Self::add_effect(pre, post, rd, rs1, rs2),
                    Instr::Sub { rd, rs1, rs2 } => Self::sub_effect(pre, post, rd, rs1, rs2),
                    Instr::Remu { rd, rs1, rs2 } => Self::remu_effect(pre, post, rd, rs1, rs2),
                    Instr::Beq { rs1, rs2, imm } => Self::beq_effect(pre, post, rs1, rs2),
                    Instr::Jal { rd, imm } => Self::jal_effect(pre, post, rd),
                    Instr::Jalr { .. } => post.lines@ == pre.lines@ && post.current_nid
                        == pre.current_nid && Self::same_flows(pre, post),
                    Instr::Ecall => Self::ecall_effect(pre, post),
                    Instr::Mul { .. } => true,
                    Instr::Divu { .. } => true,
                    Instr::Sltu { .. } => true,
                }
            }),
    {
        proof {
            assert(addr_index(
                old(self).base_address,
                old(self).n_instructions as int,
                old(self).pc,
            ) == Some(old(self).pc_idx as int));
        }
        match inst {
            Instr::Addi { rd, rs1, imm } => {
                self.model_addi(rd, rs1, imm);
                let succ = self.pc.wrapping_add(INSTRUCTION_SIZE);
                self.go_to_instruction(inst, self.pc, succ, None);
                Ok(())
            },
            Instr::Lui { rd, imm } => {
                self.model_lui(rd, imm);
                let succ = self.pc.wrapping_add(INSTRUCTION_SIZE);
                self.go_to_instruction(inst, self.pc, succ, None);
                Ok(())
            },
            Instr::Ld { rd, rs1, imm } => {
                self.model_ld(rd, rs1, imm);
                let succ = self.pc.wrapping_add(INSTRUCTION_SIZE);
                self.go_to_instruction(inst, self.pc, succ, None);
                Ok(())
            },
            Instr::Sd { rs1, rs2, imm } => {
                self.model_sd(rs1, rs2, imm);
                let succ = self.pc.wrapping_add(INSTRUCTION_SIZE);
                self.go_to_instruction(inst, self.pc, succ, None);
                Ok(())
            },
            Instr::Add { rd, rs1, rs2 } => {
                self.model_add(rd, rs1, rs2);
                let succ = self.pc.wrapping_add(INSTRUCTION_SIZE);
                self.go_to_instruction(inst, self.pc, succ, None);
                Ok(())
            },
            Instr::Sub { rd, rs1, rs2 } => {
                self.model_sub(rd, rs1, rs2);
                let succ = self.pc.wrapping_add(INSTRUCTION_SIZE);
                self.go_to_instruction(inst, self.pc, succ, None);
                Ok(())
            },
            Instr::Mul { .. } => Err(ModelError::UnsupportedInstruction { address: self.pc }),
            Instr::Divu { .. } => Err(ModelError::UnsupportedInstruction { address: self.pc }),
            Instr::Sltu { .. } => Err(ModelError::UnsupportedInstruction { address: self.pc }),
            Instr::Remu { rd, rs1, rs2 } => {
                self.model_remu(rd, rs1, rs2);
                let succ = self.pc.wrapping_add(INSTRUCTION_SIZE);
                self.go_to_instruction(inst, self.pc, succ, None);
                Ok(())
            },
            Instr::Beq { rs1, rs2, imm } => {
                let (cond_true, cond_false) = self.model_beq(rs1, rs2);
                let taken = self.pc.wrapping_add(imm);
                self.go_to_instruction(inst, self.pc, taken, Some(cond_true));
                let fall = self.pc.wrapping_add(INSTRUCTION_SIZE);
                self.go_to_instruction(inst, self.pc, fall, Some(cond_false));
                Ok(())
            },
            Instr::Jal { rd, imm } => {
                self.model_jal(rd);
                let target = self.pc.wrapping_add(imm);
                self.go_to_instruction(inst, self.pc, target, None);
                Ok(())
            },
            Instr::Jalr { rd, rs1, imm } => {
                if rd == 0 && rs1 == 1 && imm == 0 {
                    Ok(())
                } else {
                    Err(ModelError::UnsupportedJalr { address: self.pc })
                }
            },
            Instr::Ecall => {
                self.model_ecall();
                let succ = self.pc.wrapping_add(INSTRUCTION_SIZE);
                self.go_to_instruction(inst, self.pc, succ, None);
                Ok(())
            },
        }
    }

    /// Folds one activation condition into the accumulated control expression:
    /// the first activation replaces the untouched zero constant, any further
    /// one wraps the accumulator in a conditional select on true.
    pub fn control_flow_from_any(&mut self, activate: NodeRef, flow: NodeRef) -> (r: NodeRef)
        requires
            old(self).wf(),
            old(self).current_nid < u64::MAX,
            valid_op(old(self).lines@, activate),
            valid_op(old(self).lines@, flow),
        ensures
            final(self).wf(),
            Self::same_layout(*old(self), *final(self)),
            final(self).edges_view() == old(self).edges_view(),
            Self::same_consts(*old(self), *final(self)),
            Self::same_flows(*old(self), *final(self)),
            Self::same_outputs(*old(self), *final(self)),
            forall|x: NodeRef|
                valid_op(old(self).lines@, x) ==> valid_op(final(self).lines@, x),
            valid_op(final(self).lines@, r),
            flow == old(self).zero_bit ==> final(self).lines@ == old(self).lines@ && final(self).current_nid == old(self).current_nid && r == activate,
            flow != old(self).zero_bit ==> final(self).lines@ == old(self).lines@.push(
                (Node::Ite {
                    nid: old(self).current_nid,
                    sort: NodeType::Bit,
                    cond: activate,
                    left: old(self).one_bit,
                    right: flow,
                }),
            ) && final(self).current_nid == old(self).current_nid + 1 && r == old(self).lines@.len(),
    {
        if flow == self.zero_bit {
            return activate;
        }
        let ob = self.one_bit;
        self.new_ite(activate, ob, flow, NodeType::Bit)
    }

    /// Folds an edge from a conditional branch: the activation is the origin
    /// flag conjoined with the branch guard.
    pub fn control_flow_from_beq(&mut self, edge: &InEdge, flow: NodeRef) -> (r: NodeRef)
        requires
            old(self).wf(),
            old(self).current_nid + 2 <= u64::MAX,
            edge_ok(
                old(self).lines@,
                old(self).base_address,
                old(self).n_instructions as int,
                *edge,
            ),
            edge.condition is Some,
            valid_op(old(self).lines@, flow),
        ensures
            final(self).wf(),
            Self::same_layout(*old(self), *final(self)),
            final(self).edges_view() == old(self).edges_view(),
            Self::same_consts(*old(self), *final(self)),
            Self::same_flows(*old(self), *final(self)),
            Self::same_outputs(*old(self), *final(self)),
            forall|x: NodeRef|
                valid_op(old(self).lines@, x) ==> valid_op(final(self).lines@, x),
            valid_op(final(self).lines@, r),
            flow == old(self).zero_bit ==> final(self).lines@ == old(self).lines@.push(
                (Node::And {
                    nid: old(self).current_nid,
                    left: old(self).pc_flags@[addr_index(
                        old(self).base_address,
                        old(self).n_instructions as int,
                        edge.from_address,
                    )->0],
                    right: edge.condition->0,
                }),
            ) && r == old(self).lines@.len() && final(self).current_nid == old(self).current_nid
                + 1,
            flow != old(self).zero_bit ==> final(self).lines@ == old(self).lines@.push(
                (Node::And {
                    nid: old(self).current_nid,
                    left: old(self).pc_flags@[addr_index(
                        old(self).base_address,
                        old(self).n_instructions as int,
                        edge.from_address,
                    )->0],
                    right: edge.condition->0,
                }),
            ).push(
                (Node::Ite {
                    nid: (old(self).current_nid + 1) as u64,
                    sort: NodeType::Bit,
                    cond: old(self).lines@.len() as usize,
                    left: old(self).one_bit,
                    right: flow,
                }),
            ) && r == old(self).lines@.len() + 1 && final(self).current_nid == old(self).current_nid + 2,
    {
        proof {
            assert(valid_op(old(self).lines@, edge.condition->0));
        }
        let origin = addr_to_idx(self.base_address, self.n_instructions, edge.from_address);
        let of = self.pc_flags[origin];
        let cond = match &edge.condition {
            Some(c) => *c,
            None => 0,
        };
        let and_node = self.new_and(of, cond);
        self.control_flow_from_any(and_node, flow)
    }

    /// Folds an edge from a system call: materializes the per-callsite latch
    /// whose next value is the kernel-mode flag while set and the origin flag
    /// otherwise; control returns once the latch is set and kernel mode has
    /// been left.
    pub fn control_flow_from_ecall(&mut self, edge: &InEdge, flow: NodeRef) -> (r: NodeRef)
        requires
            old(self).wf(),
            old(self).current_nid + 8 <= u64::MAX,
            edge_ok(
                old(self).lines@,
                old(self).base_address,
                old(self).n_instructions as int,
                *edge,
            ),
            valid_op(old(self).lines@, flow),
        ensures
            final(self).wf(),
            Self::same_layout(*old(self), *final(self)),
            final(self).edges_view() == old(self).edges_view(),
            Self::same_consts(*old(self), *final(self)),
            Self::same_flows(*old(self), *final(self)),
            final(self).bad_states@ == old(self).bad_states@,
            forall|x: NodeRef|
                valid_op(old(self).lines@, x) ==> valid_op(final(self).lines@, x),
            valid_op(final(self).lines@, r),
            ({
                let pre = old(self).lines@;
                let nid0 = old(self).current_nid;
                let origin = old(self).pc_flags@[addr_index(
                    old(self).base_address,
                    old(self).n_instructions as int,
                    edge.from_address,
                )->0];
                let latch = pre.len() as usize;
                &&& (forall|j: int| 0 <= j < pre.len() ==> final(self).lines@[j] == pre[j])
                &&& final(self).lines@.len() == pre.len() + (if flow == old(self).zero_bit {
                    4int
                } else {
                    5
                })
                &&& (final(self).lines@[latch as int] matches Node::State {
                    nid,
                    sort: NodeType::Bit,
                    init: Some(iv),
                    name: Some(nm),
                } && nid == nid0 && iv == old(self).zero_bit && nm@
                    == "kernel-mode-pc-flag-".spec_bytes() + crate::fmt::dec_bytes(
                    edge.from_address as nat,
                ))
                &&& final(self).lines@[latch + 1] == (Node::Ite {
                    nid: (nid0 + 2) as u64,
                    sort: NodeType::Bit,
                    cond: latch,
                    left: old(self).kernel_mode,
                    right: origin,
                })
                &&& final(self).lines@[latch + 2] == (Node::Next {
                    nid: (nid0 + 3) as u64,
                    sort: NodeType::Bit,
                    state: latch,
                    next: (latch + 1) as usize,
                    name: None,
                })
                &&& final(self).sequentials@ == old(self).sequentials@.push((latch + 2) as usize)
                &&& final(self).lines@[latch + 3] == (Node::And {
                    nid: (nid0 + 4) as u64,
                    left: latch,
                    right: old(self).kernel_not,
                })
                &&& (flow == old(self).zero_bit ==> r == latch + 3 && final(self).current_nid
                    == nid0 + 5)
                &&& (flow != old(self).zero_bit ==> final(self).lines@[latch + 4] == (Node::Ite {
                    nid: (nid0 + 5) as u64,
                    sort: NodeType::Bit,
                    cond: (latch + 3) as usize,
                    left: old(self).one_bit,
                    right: flow,
                }) && r == latch + 4 && final(self).current_nid == nid0 + 6)
            }),
    {
        let mut latch_name = crate::fmt::name_bytes("kernel-mode-pc-flag-");
        crate::fmt::push_dec(&mut latch_name, edge.from_address);
        let zb = self.zero_bit;
        let state_node = self.new_state(Some(zb), Some(latch_name), NodeType::Bit);
        let origin = addr_to_idx(self.base_address, self.n_instructions, edge.from_address);
        let of = self.pc_flags[origin];
        let km = self.kernel_mode;
        let ite_node = self.new_ite(state_node, km, of, NodeType::Bit);
        self.new_next(state_node, ite_node, None, NodeType::Bit);
        let kn = self.kernel_not;
        let and_node = self.new_and(state_node, kn);
        self.control_flow_from_any(and_node, flow)
    }
}

/// A program to translate: the load address of its code segment and the
/// segment's bytes, holding one little-endian 32-bit word per instruction.
pub struct Program {
    pub address: u64,
    pub code: Vec<u8>,
}

/// How many complete instruction words the code segment holds; a trailing
/// partial word is ignored.
pub open spec fn n_words(code: Seq<u8>) -> int {
    code.len() as int / 4
}

/// The code segment fits the address-derived identifier namespace.
pub open spec fn addresses_ok(address: u64, code_len: int) -> bool {
    address + code_len <= MAX_CODE_ADDRESS
}

/// Word `k` of the code cannot be translated: it is not a valid instruction
/// encoding, or it decodes to a faulting instruction.
pub open spec fn word_fault(code: Seq<u8>, k: int) -> bool {
    match crate::decode::decoded(crate::decode::word_at(code, k)) {
        None => true,
        Some(i) => instr_fault(i),
    }
}

/// The error reported for the fault at word `k`.
pub open spec fn word_fault_error(code: Seq<u8>, address: u64, k: int) -> ModelError {
    match crate::decode::decoded(crate::decode::word_at(code, k)) {
        None => ModelError::InvalidWord { address: (address + 4 * k) as u64 },
        Some(i) => fault_error(i, (address + 4 * k) as u64),
    }
}

/// The first faulting word at or after index `k`, if any.
pub open spec fn first_fault_from(code: Seq<u8>, k: int) -> Option<int>
    decreases n_words(code) - k,
{
    if k < 0 || k >= n_words(code) {
        None
    } else if word_fault(code, k) {
        Some(k)
    } else {
        first_fault_from(code, k + 1)
    }
}

/// A first fault is a real fault within the program's words.
pub proof fn lemma_first_fault_some(code: Seq<u8>, k: int)
    requires
        0 <= k,
        first_fault_from(code, k) is Some,
    ensures
        k <= first_fault_from(code, k)->0 < n_words(code),
        word_fault(code, first_fault_from(code, k)->0),
    decreases n_words(code) - k,
{
    if k < n_words(code) && !word_fault(code, k) {
        lemma_first_fault_some(code, k + 1);
    }
}

/// Every word of a program without a first fault translates.
pub proof fn lemma_no_fault(code: Seq<u8>, k: int)
    requires
        0 <= k,
        first_fault_from(code, k) is None,
    ensures
        forall|j: int| k <= j < n_words(code) ==> !word_fault(code, j),
    decreases n_words(code) - k,
{
    if 0 <= k < n_words(code) {
        lemma_no_fault(code, k + 1);
    }
}

/// The whole program can be translated: it fits the identifier namespace and
/// every complete word decodes to a supported instruction.
pub open spec fn program_ok(address: u64, code: Seq<u8>) -> bool {
    &&& addresses_ok(address, code.len() as int)
    &&& (forall|k: int| 0 <= k < n_words(code) ==> !word_fault(code, k))
}

/// The nine fixed leading nodes of every generated model, before the
/// register states.
pub open spec fn fixed_prefix(lines: Seq<Node>) -> bool {
    &&& lines.len() >= 10
    &&& lines[1] == (Node::Const { nid: 10, sort: NodeType::Bit, imm: 0 })
    &&& lines[2] == (Node::Const { nid: 11, sort: NodeType::Bit, imm: 1 })
    &&& lines[3] == (Node::Const { nid: 20, sort: NodeType::Word, imm: 0 })
    &&& lines[4] == (Node::Const { nid: 21, sort: NodeType::Word, imm: 1 })
    &&& (lines[6] matches Node::State { nid, sort: NodeType::Bit, init: Some(iv), name: Some(nm) }
        && nid == 60 && iv == 1 && nm@ == "kernel-mode".spec_bytes())
    &&& lines[7] == (Node::Not { nid: 62, value: 6 })
    &&& lines[9] == (Node::Const { nid: 200, sort: NodeType::Word, imm: 0 })
}

/// The register state standing at index `9 + r` of every generated model:
/// register `r`'s named word state, initialized from the zero-word constant.
pub open spec fn reg_state_at(lines: Seq<Node>, r: int) -> bool {
    lines[9 + r] matches Node::State { nid, sort: NodeType::Word, init: Some(iv), name: Some(nm) }
        && nid == 200 + 2 * r && iv == 3 && nm@ == crate::fmt::spec_reg_name(r)
}

/// The control flag standing at index `42 + k` of every generated model: the
/// named boolean state of instruction `k`, initialized true only at the entry.
pub open spec fn flag_state_at(lines: Seq<Node>, address: u64, k: int) -> bool {
    lines[42 + k] matches Node::State { nid, sort: NodeType::Bit, init: Some(iv), name: Some(nm) }
        && nid == 10_000_000 + (address + 4 * k) * 100 && iv == (if k == 0 {
        2int
    } else {
        1
    }) && nm@ == "pc=0x".spec_bytes() + crate::fmt::hex_bytes((address + 4 * k) as nat)
}

/// The fixed preamble every generated model starts with: the boolean and word
/// constants, the kernel-mode flag and its negation, the zero-register
/// constant, the 31 register states, one control flag per instruction with
/// only the entry flag initialized true, and the two memory states.
pub open spec fn preamble_shape(lines: Seq<Node>, address: u64, n: int) -> bool {
    &&& 0 <= n
    &&& lines.len() >= 45 + n
    &&& fixed_prefix(lines)
    &&& (forall|r: int| 1 <= r < 32 ==> #[trigger] reg_state_at(lines, r))
    &&& (forall|k: int| 0 <= k < n ==> #[trigger] flag_state_at(lines, address, k))
    &&& (lines[43 + n] matches Node::State { nid, sort: NodeType::Memory, init: None, name: Some(nm) }
        && nid == 20_000_000 && nm@ == "memory-dump".spec_bytes())
    &&& (lines[44 + n] matches Node::State {
        nid,
        sort: NodeType::Memory,
        init: Some(iv),
        name: Some(nm),
    } && nid == 20_000_001 && iv == 43 + n && nm@ == "virtual-memory".spec_bytes())
}

/// The preamble facts survive any extension of the arena.
pub proof fn lemma_preamble_shape_extend(l1: Seq<Node>, l2: Seq<Node>, address: u64, n: int)
    requires
        preamble_shape(l1, address, n),
        lines_extend(l1, l2),
    ensures
        preamble_shape(l2, address, n),
{
    assert(l2[1] == l1[1]);
    assert(l2[2] == l1[2]);
    assert(l2[3] == l1[3]);
    assert(l2[4] == l1[4]);
    assert(l2[6] == l1[6]);
    assert(l2[7] == l1[7]);
    assert(l2[9] == l1[9]);
    assert(fixed_prefix(l2));
    assert(l2[43 + n] == l1[43 + n]);
    assert(l2[44 + n] == l1[44 + n]);
    assert forall|r: int| 1 <= r < 32 implies #[trigger] reg_state_at(l2, r) by {
        assert(l2[9 + r] == l1[9 + r]);
        assert(reg_state_at(l1, r));
    }
    assert forall|k: int| 0 <= k < n implies #[trigger] flag_state_at(l2, address, k) by {
        assert(l2[42 + k] == l1[42 + k]);
        assert(flag_state_at(l1, address, k));
    }
}

/// The identifiers one edge consumes in the control-flow fold of its target:
/// a branch edge makes a conjunction and a select, a system-call edge a latch
/// with its init, a select, a next relation, a conjunction and a select, any
/// other edge at most one select.
pub open spec fn edge_cost(i: Instr) -> int {
    match i {
        Instr::Beq { .. } => 2,
        Instr::Ecall => 6,
        _ => 1,
    }
}

/// The fold cost of a recorded edge list.
pub open spec fn list_cost(edges: Seq<InEdge>) -> int
    decreases edges.len(),
{
    if edges.len() == 0 {
        0
    } else {
        list_cost(edges.drop_last()) + edge_cost(edges.last().from_instruction)
    }
}

/// Every edge costs at least one identifier.
pub proof fn lemma_list_cost_ge_len(edges: Seq<InEdge>)
    ensures
        list_cost(edges) >= edges.len(),
    decreases edges.len(),
{
    if edges.len() > 0 {
        lemma_list_cost_ge_len(edges.drop_last());
    }
}

/// Recording one edge raises the target's fold cost by the edge's cost and
/// touches no other list.
pub proof fn lemma_cost_after_edge(
    pre: Seq<Seq<InEdge>>,
    base: u64,
    n: int,
    inst: Instr,
    from: u64,
    to: u64,
    cond: Option<NodeRef>,
    j: int,
)
    requires
        0 <= j < pre.len(),
        n <= pre.len(),
    ensures
        list_cost(edges_after(pre, base, n, inst, from, to, cond)[j]) == list_cost(pre[j]) + (
        if addr_index(base, n, to) == Some(j) {
            edge_cost(inst)
        } else {
            0
        }),
{
    match addr_index(base, n, to) {
        Some(t) => {
            if t == j {
                let e = InEdge { from_instruction: inst, from_address: from, condition: cond };
                assert(pre[j].push(e).drop_last() =~= pre[j]);
            }
        },
        None => {},
    }
}

/// The fold cost the instructions before index `upto` contribute to the fold
/// of instruction `j`.
pub open spec fn cost_into(code: Seq<u8>, base: u64, j: int, upto: int) -> int
    decreases upto,
{
    if upto <= 0 {
        0
    } else {
        cost_into(code, base, j, upto - 1) + cost_contrib(code, base, j, upto - 1)
    }
}

/// The fold cost instruction `k` contributes to the fold of instruction `j`.
pub open spec fn cost_contrib(code: Seq<u8>, base: u64, j: int, k: int) -> int {
    let a = (base + 4 * k) as u64;
    let succ = a.wrapping_add(INSTRUCTION_SIZE);
    let n = n_words(code);
    match crate::decode::decoded(crate::decode::word_at(code, k)) {
        None => 0,
        Some(inst) => match inst {
            Instr::Beq { imm, .. } => (if addr_index(base, n, a.wrapping_add(imm)) == Some(j) {
                2int
            } else {
                0
            }) + (if addr_index(base, n, succ) == Some(j) {
                2int
            } else {
                0
            }),
            Instr::Jal { imm, .. } => if addr_index(base, n, a.wrapping_add(imm)) == Some(j) {
                1int
            } else {
                0
            },
            Instr::Jalr { .. } => 0,
            Instr::Ecall => if addr_index(base, n, succ) == Some(j) {
                6int
            } else {
                0
            },
            Instr::Mul { .. } => 0,
            Instr::Divu { .. } => 0,
            Instr::Sltu { .. } => 0,
            _ => if addr_index(base, n, succ) == Some(j) {
                1int
            } else {
                0
            },
        },
    }
}

/// The control-fold of every instruction address fits the hundred identifiers
/// its block reserves. The count is slightly conservative: the first folded
/// edge consumes one identifier fewer than its stated cost, so a fold that
/// would fit only by that saving is still rejected.
pub open spec fn budget_ok(address: u64, code: Seq<u8>) -> bool {
    forall|j: int|
        0 <= j < n_words(code) ==> 1 + #[trigger] cost_into(code, address, j, n_words(code)) <= 100
}

/// The control edges a successfully translated instruction records: the
/// guarded taken and fall-through edges of a branch, the target edge of a
/// jump, none for the accepted indirect return, and the plain successor edge
/// of every other instruction.
pub open spec fn edges_translated(pre: ModelBuilder, post: ModelBuilder, inst: Instr) -> bool {
    let b = pre.base_address;
    let n = pre.n_instructions as int;
    let succ = pre.pc.wrapping_add(INSTRUCTION_SIZE);
    match inst {
        Instr::Beq { imm, .. } => post.edges_view() == edges_after(
            edges_after(
                pre.edges_view(),
                b,
                n,
                inst,
                pre.pc,
                pre.pc.wrapping_add(imm),
                Some(pre.lines@.len() as usize),
            ),
            b,
            n,
            inst,
            pre.pc,
            succ,
            Some((pre.lines@.len() + 1) as usize),
        ),
        Instr::Jal { imm, .. } => post.edges_view() == edges_after(
            pre.edges_view(),
            b,
            n,
            inst,
            pre.pc,
            pre.pc.wrapping_add(imm),
            None,
        ),
        Instr::Jalr { .. } => post.edges_view() == pre.edges_view(),
        _ => post.edges_view() == edges_after(pre.edges_view(), b, n, inst, pre.pc, succ, None),
    }
}

/// Translating one instruction adds exactly its contribution to every
/// address's fold cost.
pub proof fn lemma_cost_step(
    pre: ModelBuilder,
    post: ModelBuilder,
    program: &Program,
    k: int,
    n: int,
    inst: Instr,
)
    requires
        0 <= k < n,
        n == n_words(program.code@),
        pre.edges_view().len() == n,
        pre.base_address == program.address,
        pre.n_instructions == n,
        pre.pc == program.address + 4 * k,
        program.address + program.code@.len() <= MAX_CODE_ADDRESS,
        Some(inst) == crate::decode::decoded(crate::decode::word_at(program.code@, k)),
        !instr_fault(inst),
        edges_translated(pre, post, inst),
        forall|j: int|
            0 <= j < n ==> list_cost(#[trigger] pre.edges_view()[j]) == cost_into(
                program.code@,
                program.address,
                j,
                k,
            ),
    ensures
        forall|j: int|
            0 <= j < n ==> list_cost(#[trigger] post.edges_view()[j]) == cost_into(
                program.code@,
                program.address,
                j,
                k + 1,
            ),
{
    let code = program.code@;
    let b = program.address;
    let succ = pre.pc.wrapping_add(INSTRUCTION_SIZE);
    assert(pre.pc == (b + 4 * k) as u64);
    assert forall|j: int|
        0 <= j < n implies list_cost(#[trigger] post.edges_view()[j]) == cost_into(
        code,
        b,
        j,
        k + 1,
    ) by {
        assert(cost_into(code, b, j, k + 1) == cost_into(code, b, j, k) + cost_contrib(
            code,
            b,
            j,
            k,
        ));
        match inst {
            Instr::Beq { imm, .. } => {
                let mid = edges_after(
                    pre.edges_view(),
                    b,
                    n,
                    inst,
                    pre.pc,
                    pre.pc.wrapping_add(imm),
                    Some(pre.lines@.len() as usize),
                );
                assert(mid.len() == n);
                lemma_cost_after_edge(
                    pre.edges_view(),
                    b,
                    n,
                    inst,
                    pre.pc,
                    pre.pc.wrapping_add(imm),
                    Some(pre.lines@.len() as usize),
                    j,
                );
                lemma_cost_after_edge(
                    mid,
                    b,
                    n,
                    inst,
                    pre.pc,
                    succ,
                    Some((pre.lines@.len() + 1) as usize),
                    j,
                );
            },
            Instr::Jal { imm, .. } => {
                lemma_cost_after_edge(
                    pre.edges_view(),
                    b,
                    n,
                    inst,
                    pre.pc,
                    pre.pc.wrapping_add(imm),
                    None,
                    j,
                );
            },
            Instr::Jalr { .. } => {},
            _ => {
                lemma_cost_after_edge(pre.edges_view(), b, n, inst, pre.pc, succ, None, j);
            },
        }
    }
}

/// The structure of the four verification obligations at the tail of every
/// generated model: each `Bad` points at its conjunction, the exit-code check
/// compares the A0 register state against the zero constant, and the division
/// and remainder checks compare their accumulators against the zero constant.
pub open spec fn bads_exact(m: Model) -> bool {
    let l = m.lines@;
    let len = l.len() as int;
    &&& len >= 56
    &&& m.bad_states@.len() == 4
    &&& m.bad_states@[0] == (len - 11) as usize
    &&& m.bad_states@[1] == (len - 6) as usize
    &&& m.bad_states@[2] == (len - 3) as usize
    &&& m.bad_states@[3] == (len - 1) as usize
    &&& (l[len - 11] matches Node::Bad { cond, .. } && cond == (len - 12) as usize)
    &&& (l[len - 12] matches Node::And { right, .. } && right == (len - 13) as usize)
    &&& (l[len - 13] matches Node::And { left, right, .. } && left == (len - 14) as usize && right
        == (len - 17) as usize)
    &&& (l[len - 17] matches Node::Not { .. })
    &&& (l[len - 6] matches Node::Bad { cond, .. } && cond == (len - 7) as usize)
    &&& (l[len - 7] matches Node::And { right, .. } && right == (len - 8) as usize)
    &&& l[len - 8] == (Node::Not { nid: 80_000_012, value: (len - 9) as usize })
    &&& (l[len - 9] matches Node::Eq { left, right, .. } && left == 19 && right == 3)
    &&& (l[len - 3] matches Node::Bad { cond, .. } && cond == (len - 4) as usize)
    &&& (l[len - 4] matches Node::Eq { left, right, .. } && left == 4 && right == 3)
    &&& (l[len - 1] matches Node::Bad { cond, .. } && cond == (len - 2) as usize)
    &&& (l[len - 2] matches Node::Eq { right, .. } && right == 3)
}

/// The activation the control-flow fold computes for one recorded edge: the
/// origin flag itself for a plain edge, the origin flag conjoined with the
/// branch guard for a branch edge, and the per-callsite latch conjoined with
/// the negated kernel-mode flag for a system-call edge.
pub open spec fn activation_ok(
    l: Seq<Node>,
    base: u64,
    nn: int,
    pcf: Seq<NodeRef>,
    zero: NodeRef,
    knot: NodeRef,
    e: InEdge,
    a: NodeRef,
) -> bool {
    match e.from_instruction {
        Instr::Beq { .. } => a < l.len() && (l[a as int] matches Node::And { left, right, .. }
            && left == pcf[addr_index(base, nn, e.from_address)->0] && right == e.condition->0),
        Instr::Ecall => a < l.len() && (l[a as int] matches Node::And { left, right, .. } && right
            == knot && left < a && (l[left as int] matches Node::State {
            sort: NodeType::Bit,
            init: Some(iv),
            ..
        } && iv == zero)),
        _ => a == pcf[addr_index(base, nn, e.from_address)->0],
    }
}

/// The next expression of a control flag is the one-hot fold of exactly the
/// recorded edges: one activation per edge, of the stated shape, folded as
/// `fold_shape` describes.
pub open spec fn fold_of_edges(
    l: Seq<Node>,
    zero: NodeRef,
    one: NodeRef,
    base: u64,
    nn: int,
    pcf: Seq<NodeRef>,
    knot: NodeRef,
    edges: Seq<InEdge>,
    acts: Seq<NodeRef>,
    root: NodeRef,
) -> bool {
    &&& acts.len() == edges.len()
    &&& (forall|j: int|
        0 <= j < edges.len() ==> activation_ok(
            l,
            base,
            nn,
            pcf,
            zero,
            knot,
            edges[j],
            #[trigger] acts[j],
        ))
    &&& crate::laws::fold_shape(l, zero, one, acts, root)
}

/// The system-call block of a finished model, at its position `s0`: the five
/// recognizers compare the A7 register state (node 26) against the recognized
/// numbers, `ef` is the system-call accumulator, and the kernel-mode state
/// (node 6) is updated by `Ite(kernelMode, isExit, And(ecallFlow, isExit))`.
pub open spec fn syscall_shape(l: Seq<Node>, s0: int, ef: NodeRef) -> bool {
    &&& 0 <= s0
    &&& s0 + 14 <= l.len()
    &&& l[s0 + 1] == (Node::Const { nid: 40_000_000, sort: NodeType::Word, imm: 56 })
    &&& l[s0 + 2] == (Node::Eq { nid: 40_000_001, left: 26, right: (s0 + 1) as usize })
    &&& l[s0 + 3] == (Node::Const { nid: 40_000_002, sort: NodeType::Word, imm: 63 })
    &&& l[s0 + 4] == (Node::Eq { nid: 40_000_003, left: 26, right: (s0 + 3) as usize })
    &&& l[s0 + 5] == (Node::Const { nid: 40_000_004, sort: NodeType::Word, imm: 64 })
    &&& l[s0 + 6] == (Node::Eq { nid: 40_000_005, left: 26, right: (s0 + 5) as usize })
    &&& l[s0 + 7] == (Node::Const { nid: 40_000_006, sort: NodeType::Word, imm: 93 })
    &&& l[s0 + 8] == (Node::Eq { nid: 40_000_007, left: 26, right: (s0 + 7) as usize })
    &&& l[s0 + 9] == (Node::Const { nid: 40_000_008, sort: NodeType::Word, imm: 214 })
    &&& l[s0 + 10] == (Node::Eq { nid: 40_000_009, left: 26, right: (s0 + 9) as usize })
    &&& l[s0 + 11] == (Node::And { nid: 40_000_010, left: ef, right: (s0 + 8) as usize })
    &&& l[s0 + 12] == (Node::Ite {
        nid: 40_000_011,
        sort: NodeType::Bit,
        cond: 6,
        left: (s0 + 8) as usize,
        right: (s0 + 11) as usize,
    })
    &&& l[s0 + 13] == (Node::Next {
        nid: 40_000_012,
        sort: NodeType::Bit,
        state: 6,
        next: (s0 + 12) as usize,
        name: None,
    })
}

/// The four verification obligations of a finished model, in order.
pub open spec fn bads_shape(m: Model) -> bool {
    &&& m.bad_states@.len() == 4
    &&& (m.lines@[m.bad_states@[0] as int] matches Node::Bad { name: Some(nm), .. } && nm@
        == "invalid-syscall-id".spec_bytes())
    &&& (m.lines@[m.bad_states@[1] as int] matches Node::Bad { name: Some(nm), .. } && nm@
        == "non-zero-exit-code".spec_bytes())
    &&& (m.lines@[m.bad_states@[2] as int] matches Node::Bad { name: Some(nm), .. } && nm@
        == "bad-division-by-zero".spec_bytes())
    &&& (m.lines@[m.bad_states@[3] as int] matches Node::Bad { name: Some(nm), .. } && nm@
        == "bad-remainder-by-zero".spec_bytes())
}

/// The instruction index of an address known to fall on an instruction.
pub fn addr_to_idx(base: u64, n: usize, a: u64) -> (r: usize)
    requires
        addr_index(base, n as int, a) is Some,
    ensures
        Some(r as int) == addr_index(base, n as int, a),
        r < n,
{
    ((a - base) / 4) as usize
}

impl ModelBuilder {
    /// Builds the fixed preamble of every model: the common constants, the
    /// kernel-mode flag, the 32 register states, one control flag and one
    /// empty edge list per instruction, and the two memory states.
    fn build_preamble(&mut self, program: &Program, code_len: usize, n: usize)
        requires
            old(self).lines@.len() == 0,
            old(self).sequentials@.len() == 0,
            old(self).bad_states@.len() == 0,
            old(self).pc_flags@.len() == 0,
            old(self).control_in@.len() == 0,
            old(self).register_nodes@.len() == 0,
            old(self).register_flow@.len() == 0,
            old(self).current_nid == 0,
            code_len == program.code@.len(),
            n == code_len / 4,
            program.address + code_len <= MAX_CODE_ADDRESS,
        ensures
            final(self).wf(),
            final(self).sequentials@.len() == 0,
            final(self).bad_states@.len() == 0,
            final(self).base_address == program.address,
            final(self).n_instructions == n,
            final(self).current_nid <= 30_000_000,
            preamble_shape(final(self).lines@, program.address, n as int),
            final(self).lines@.len() == 45 + n,
            final(self).zero_bit == 1,
            final(self).one_bit == 2,
            final(self).zero_word == 3,
            final(self).division_flow == 4,
            final(self).remainder_flow == 4,
            final(self).ecall_flow == 1,
            final(self).kernel_mode == 6,
            final(self).kernel_not == 7,
            final(self).memory_node == 44 + n,
            final(self).memory_flow == 44 + n,
            final(self).register_nodes@[0] == 9,
            forall|r: int| 1 <= r < 32 ==> final(self).register_nodes@[r] == 9 + r,
            forall|r: int| 0 <= r < 31 ==> final(self).register_flow@[r] == 10 + r,
            forall|k: int| 0 <= k < n ==> final(self).pc_flags@[k] == 42 + k,
            final(self).control_in@.len() == n,
            forall|i: int| 0 <= i < n ==> #[trigger] final(self).control_in@[i]@.len() == 0,
    {
        self.base_address = program.address;
        self.n_instructions = n;

        self.new_comment(crate::fmt::name_bytes("common constants"));
        self.zero_bit = self.add_node(Node::Const { nid: 10, sort: NodeType::Bit, imm: 0 });
        self.one_bit = self.add_node(Node::Const { nid: 11, sort: NodeType::Bit, imm: 1 });
        self.zero_word = self.add_node(Node::Const { nid: 20, sort: NodeType::Word, imm: 0 });
        self.division_flow = self.add_node(Node::Const { nid: 21, sort: NodeType::Word, imm: 1 });
        self.remainder_flow = self.division_flow;
        self.ecall_flow = self.zero_bit;

        self.new_comment(crate::fmt::name_bytes("kernel-mode flag"));
        self.current_nid = 60;
        let zb = self.zero_bit;
        self.kernel_mode = self.new_state(
            Some(zb),
            Some(crate::fmt::name_bytes("kernel-mode")),
            NodeType::Bit,
        );
        let km0 = self.kernel_mode;
        self.kernel_not = self.new_not(km0);

        self.new_comment(crate::fmt::name_bytes("32 64-bit general-purpose registers"));
        self.current_nid = 200;
        let zero_register = self.new_const(0);
        self.register_nodes.push(zero_register);
        proof {
            assert(self.lines@.len() == 10);
            assert(fixed_prefix(self.lines@));
        }
        let mut r8: u8 = 1;
        while r8 < 32
            invariant
                self.graph_wf(),
                1 <= r8 <= 32,
                self.lines@.len() == 9 + r8 as int,
                fixed_prefix(self.lines@),
                self.register_nodes@.len() == r8 as int,
                self.register_flow@.len() == r8 as int - 1,
                self.register_nodes@[0] == 9,
                forall|rr: int| 1 <= rr < r8 as int ==> self.register_nodes@[rr] == 9 + rr,
                forall|rr: int| 0 <= rr < r8 as int - 1 ==> self.register_flow@[rr] == 10 + rr,
                forall|rr: int| 1 <= rr < r8 as int ==> #[trigger] reg_state_at(self.lines@, rr),
                self.zero_bit == 1,
                self.one_bit == 2,
                self.zero_word == 3,
                self.kernel_mode == 6,
                self.kernel_not == 7,
                self.division_flow == 4,
                self.remainder_flow == 4,
                self.ecall_flow == 1,
                self.sequentials@.len() == 0,
                self.bad_states@.len() == 0,
                self.pc_flags@.len() == 0,
                self.control_in@.len() == 0,
                self.base_address == program.address,
                self.n_instructions == n,
                self.current_nid <= 300,
            decreases 32 - r8,
        {
            let ghost mid = *self;
            self.current_nid = 200 + 2 * (r8 as u64);
            let zw = self.zero_word;
            let nm = crate::fmt::reg_name(r8);
            let register_node = self.new_state(Some(zw), Some(nm), NodeType::Word);
            self.register_nodes.push(register_node);
            self.register_flow.push(register_node);
            proof {
                assert forall|rr: int|
                    1 <= rr < r8 as int + 1 implies #[trigger] reg_state_at(self.lines@, rr) by {
                    if rr < r8 as int {
                        assert(self.lines@[9 + rr] == mid.lines@[9 + rr]);
                        assert(reg_state_at(mid.lines@, rr));
                    }
                }
            }
            r8 = r8 + 1;
        }

        let ghost pre_flags = *self;
        self.new_comment(
            crate::fmt::name_bytes("64-bit program counter encoded in Boolean flags"),
        );
        proof {
            assert forall|rr: int|
                1 <= rr < 32 implies #[trigger] reg_state_at(self.lines@, rr) by {
                assert(self.lines@[9 + rr] == pre_flags.lines@[9 + rr]);
                assert(reg_state_at(pre_flags.lines@, rr));
            }
        }
        self.pc = program.address;
        let mut k: usize = 0;
        while k < n
            invariant
                self.graph_wf(),
                k <= n,
                self.lines@.len() == 42 + k as int,
                fixed_prefix(self.lines@),
                self.register_nodes@.len() == 32,
                self.register_flow@.len() == 31,
                self.register_nodes@[0] == 9,
                forall|rr: int| 1 <= rr < 32 ==> self.register_nodes@[rr] == 9 + rr,
                forall|rr: int| 0 <= rr < 31 ==> self.register_flow@[rr] == 10 + rr,
                forall|rr: int| 1 <= rr < 32 ==> #[trigger] reg_state_at(self.lines@, rr),
                forall|kk: int|
                    0 <= kk < k as int ==> #[trigger] flag_state_at(
                        self.lines@,
                        program.address,
                        kk,
                    ),
                self.zero_bit == 1,
                self.one_bit == 2,
                self.zero_word == 3,
                self.kernel_mode == 6,
                self.kernel_not == 7,
                self.division_flow == 4,
                self.remainder_flow == 4,
                self.ecall_flow == 1,
                self.sequentials@.len() == 0,
                self.bad_states@.len() == 0,
                self.pc_flags@.len() == k as int,
                self.control_in@.len() == k as int,
                forall|kk: int| 0 <= kk < k as int ==> self.pc_flags@[kk] == 42 + kk,
                forall|i: int| 0 <= i < k as int ==> #[trigger] self.control_in@[i]@.len() == 0,
                self.base_address == program.address,
                self.n_instructions == n,
                program.address + code_len <= MAX_CODE_ADDRESS,
                n == code_len / 4,
                self.pc == program.address + 4 * k,
                self.current_nid <= 20_000_000,
            decreases n - k,
        {
            self.current_nid = 10_000_000 + self.pc * 100;
            let ghost pre_ci = self.control_in@;
            let empty_edges: Vec<InEdge> = Vec::new();
            self.control_in.push(empty_edges);
            proof {
                assert forall|i: int|
                    0 <= i < k as int + 1 implies #[trigger] self.control_in@[i]@.len() == 0 by {
                    if i < k as int {
                        assert(self.control_in@[i] == pre_ci[i]);
                    }
                }
            }
            let init = if k == 0 {
                self.one_bit
            } else {
                self.zero_bit
            };
            let mut nmv = crate::fmt::name_bytes("pc=0x");
            crate::fmt::push_hex(&mut nmv, self.pc);
            let ghost mid = *self;
            let flag_node = self.new_state(Some(init), Some(nmv), NodeType::Bit);
            self.pc_flags.push(flag_node);
            proof {
                assert forall|i: int|
                    0 <= i < k as int + 1 implies #[trigger] self.control_in@[i]@.len() == 0 by {
                    assert(self.edges_view()[i] == mid.edges_view()[i]);
                    assert(self.control_in@[i]@ == mid.control_in@[i]@);
                    assert(mid.control_in@[i]@.len() == 0);
                }
                assert forall|i: int|
                    0 <= i < k as int + 1 implies valid_op(
                    self.lines@,
                    #[trigger] self.pc_flags@[i],
                ) by {
                    if i < k as int {
                        assert(self.pc_flags@[i] == mid.pc_flags@[i]);
                        assert(mid.pc_flags@[i] == 42 + i);
                        assert(flag_state_at(mid.lines@, program.address, i));
                        assert(self.lines@[42 + i] == mid.lines@[42 + i]);
                    } else {
                        assert(self.pc_flags@[i] == 42 + k as int);
                    }
                }
                assert forall|rr: int|
                    1 <= rr < 32 implies #[trigger] reg_state_at(self.lines@, rr) by {
                    assert(self.lines@[9 + rr] == mid.lines@[9 + rr]);
                    assert(reg_state_at(mid.lines@, rr));
                }
                assert forall|kk: int|
                    0 <= kk < k as int + 1 implies #[trigger] flag_state_at(
                    self.lines@,
                    program.address,
                    kk,
                ) by {
                    if kk < k as int {
                        assert(self.lines@[42 + kk] == mid.lines@[42 + kk]);
                        assert(flag_state_at(mid.lines@, program.address, kk));
                    }
                }
            }
            self.pc = self.pc + INSTRUCTION_SIZE;
            k = k + 1;
        }

        let ghost pre_mem = *self;
        self.new_comment(crate::fmt::name_bytes("64-bit virtual memory"));
        self.current_nid = 20_000_000;
        let memory_dump = self.new_state(
            None,
            Some(crate::fmt::name_bytes("memory-dump")),
            NodeType::Memory,
        );
        let memory_node = self.new_state(
            Some(memory_dump),
            Some(crate::fmt::name_bytes("virtual-memory")),
            NodeType::Memory,
        );
        self.memory_node = memory_node;
        self.memory_flow = memory_node;
        proof {
            assert forall|rr: int|
                1 <= rr < 32 implies #[trigger] reg_state_at(self.lines@, rr) by {
                assert(self.lines@[9 + rr] == pre_mem.lines@[9 + rr]);
                assert(reg_state_at(pre_mem.lines@, rr));
            }
            assert forall|kk: int|
                0 <= kk < n as int implies #[trigger] flag_state_at(
                self.lines@,
                program.address,
                kk,
            ) by {
                assert(self.lines@[42 + kk] == pre_mem.lines@[42 + kk]);
                assert(flag_state_at(pre_mem.lines@, program.address, kk));
            }
            assert forall|i: int, j: int|
                0 <= i < self.control_in@.len() && 0 <= j < self.control_in@[i]@.len()
                implies edge_ok(
                self.lines@,
                self.base_address,
                self.n_instructions as int,
                #[trigger] self.control_in@[i]@[j],
            ) by {
                assert(self.edges_view()[i] == pre_mem.edges_view()[i]);
                assert(self.control_in@[i]@ == pre_mem.control_in@[i]@);
                assert(pre_mem.control_in@[i]@.len() == 0);
            }
            assert forall|i: int|
                0 <= i < self.pc_flags@.len() implies valid_op(
                self.lines@,
                #[trigger] self.pc_flags@[i],
            ) by {
                assert(self.pc_flags@[i] == pre_mem.pc_flags@[i]);
                assert(pre_mem.pc_flags@[i] == 42 + i);
                assert(flag_state_at(self.lines@, program.address, i));
            }
            assert forall|i: int|
                0 <= i < 32 implies valid_op(self.lines@, #[trigger] self.register_nodes@[i]) by {
                if i == 0 {
                    assert(self.register_nodes@[0] == 9);
                } else {
                    assert(self.register_nodes@[i] == 9 + i);
                    assert(reg_state_at(self.lines@, i));
                }
            }
            assert forall|i: int|
                0 <= i < 31 implies valid_op(self.lines@, #[trigger] self.register_flow@[i]) by {
                assert(self.register_flow@[i] == 10 + i);
                assert(reg_state_at(self.lines@, i + 1));
            }
            assert(self.wf());
            assert(preamble_shape(self.lines@, program.address, n as int));
            assert forall|i: int|
                0 <= i < n implies #[trigger] self.control_in@[i]@.len() == 0 by {
                assert(self.edges_view()[i] == pre_mem.edges_view()[i]);
                assert(self.control_in@[i]@ == pre_mem.control_in@[i]@);
                assert(pre_mem.control_in@[i]@.len() == 0);
            }
        }
    }

    /// Walks the code words in address order and translates each; stops at the
    /// first word that does not decode or decodes to a faulting instruction.
    fn translate_program(&mut self, program: &Program, code_len: usize, n: usize) -> (r: Result<
        (),
        ModelError,
    >)
        requires
            old(self).wf(),
            old(self).sequentials@.len() == 0,
            old(self).bad_states@.len() == 0,
            old(self).base_address == program.address,
            old(self).n_instructions == n,
            code_len == program.code@.len(),
            n == code_len / 4,
            program.address + code_len <= MAX_CODE_ADDRESS,
            forall|i: int| 0 <= i < n ==> #[trigger] old(self).control_in@[i]@.len() == 0,
        ensures
            final(self).wf(),
            final(self).sequentials@.len() == 0,
            final(self).bad_states@.len() == 0,
            final(self).base_address == program.address,
            final(self).n_instructions == n,
            Self::same_consts(*old(self), *final(self)),
            final(self).division_flow == old(self).division_flow,
            final(self).pc_flags@ == old(self).pc_flags@,
            lines_extend(old(self).lines@, final(self).lines@),
            r is Ok ==> forall|j: int|
                0 <= j < n ==> list_cost(#[trigger] final(self).edges_view()[j]) == cost_into(
                    program.code@,
                    program.address,
                    j,
                    n as int,
                ),
            (r is Ok) == (first_fault_from(program.code@, 0) is None),
            r is Err ==> r == Err::<(), ModelError>(
                word_fault_error(
                    program.code@,
                    program.address,
                    first_fault_from(program.code@, 0)->0,
                ),
            ),
    {
        self.pc = program.address;
        self.pc_idx = 0;
        let mut k: usize = 0;
        while k < n
            invariant
                self.wf(),
                k <= n,
                self.sequentials@.len() == 0,
                self.bad_states@.len() == 0,
                self.base_address == program.address,
                self.n_instructions == n,
                program.address + code_len <= MAX_CODE_ADDRESS,
                n == code_len / 4,
                code_len == program.code@.len(),
                self.pc == program.address + 4 * k,
                self.pc_idx == k,
                Self::same_consts(*old(self), *self),
                self.division_flow == old(self).division_flow,
                self.pc_flags@ == old(self).pc_flags@,
                lines_extend(old(self).lines@, self.lines@),
                forall|j: int|
                    0 <= j < n ==> list_cost(#[trigger] self.edges_view()[j]) == cost_into(
                        program.code@,
                        program.address,
                        j,
                        k as int,
                    ),
                first_fault_from(program.code@, 0) == first_fault_from(program.code@, k as int),
            decreases n - k,
        {
            let ghost pre_b = *self;
            self.current_nid = 30_000_000 + self.pc * 100;
            proof {
                assert(self.edges_view() =~= pre_b.edges_view());
            }
            let ghost iter_pre = self.lines@;
            let word = crate::decode::read_word(&program.code, k);
            match crate::decode::decode_instruction(word) {
                None => {
                    proof {
                        assert(word_fault(program.code@, k as int));
                        assert(first_fault_from(program.code@, k as int) == Some(k as int));
                    }
                    return Err(ModelError::InvalidWord { address: self.pc });
                },
                Some(inst) => {
                    let res = self.translate_to_model(inst);
                    proof {
                        lemma_lines_extend_trans(old(self).lines@, iter_pre, self.lines@);
                    }
                    match res {
                        Ok(()) => {
                            proof {
                                assert(!word_fault(program.code@, k as int));
                                assert(edges_translated(pre_b, *self, inst));
                                lemma_cost_step(pre_b, *self, program, k as int, n as int, inst);
                            }
                        },
                        Err(e) => {
                            proof {
                                assert(word_fault(program.code@, k as int));
                                assert(first_fault_from(program.code@, k as int) == Some(k as int));
                            }
                            return Err(e);
                        },
                    }
                },
            }
            self.pc = self.pc + INSTRUCTION_SIZE;
            self.pc_idx = self.pc_idx + 1;
            k = k + 1;
        }
        proof {
            assert(first_fault_from(program.code@, n as int) is None);
        }
        Ok(())
    }

    /// Appends the system-call recognizers and the kernel-mode update, and
    /// returns the five recognizers and the active-exit conjunction.
    fn syscall_phase(&mut self) -> (r: (NodeRef, NodeRef, NodeRef, NodeRef, NodeRef, NodeRef))
        requires
            old(self).wf(),
            old(self).bad_states@.len() == 0,
        ensures
            final(self).wf(),
            final(self).bad_states@.len() == 0,
            final(self).base_address == old(self).base_address,
            final(self).n_instructions == old(self).n_instructions,
            Self::same_consts(*old(self), *final(self)),
            Self::same_flows(*old(self), *final(self)),
            lines_extend(old(self).lines@, final(self).lines@),
            final(self).edges_view() == old(self).edges_view(),
            final(self).pc_flags@ == old(self).pc_flags@,
            valid_op(final(self).lines@, r.0),
            valid_op(final(self).lines@, r.1),
            valid_op(final(self).lines@, r.2),
            valid_op(final(self).lines@, r.3),
            valid_op(final(self).lines@, r.4),
            valid_op(final(self).lines@, r.5),
            ({
                let l = final(self).lines@;
                let s0 = old(self).lines@.len() as int;
                let a7 = old(self).register_nodes@[17];
                &&& l.len() == s0 + 14
                &&& l[s0 + 1] == (Node::Const { nid: 40_000_000, sort: NodeType::Word, imm: 56 })
                &&& l[s0 + 2] == (Node::Eq { nid: 40_000_001, left: a7, right: (s0 + 1) as usize })
                &&& l[s0 + 3] == (Node::Const { nid: 40_000_002, sort: NodeType::Word, imm: 63 })
                &&& l[s0 + 4] == (Node::Eq { nid: 40_000_003, left: a7, right: (s0 + 3) as usize })
                &&& l[s0 + 5] == (Node::Const { nid: 40_000_004, sort: NodeType::Word, imm: 64 })
                &&& l[s0 + 6] == (Node::Eq { nid: 40_000_005, left: a7, right: (s0 + 5) as usize })
                &&& l[s0 + 7] == (Node::Const { nid: 40_000_006, sort: NodeType::Word, imm: 93 })
                &&& l[s0 + 8] == (Node::Eq { nid: 40_000_007, left: a7, right: (s0 + 7) as usize })
                &&& l[s0 + 9] == (Node::Const { nid: 40_000_008, sort: NodeType::Word, imm: 214 })
                &&& l[s0 + 10] == (Node::Eq { nid: 40_000_009, left: a7, right: (s0 + 9) as usize })
                &&& l[s0 + 11] == (Node::And {
                    nid: 40_000_010,
                    left: old(self).ecall_flow,
                    right: (s0 + 8) as usize,
                })
                &&& l[s0 + 12] == (Node::Ite {
                    nid: 40_000_011,
                    sort: NodeType::Bit,
                    cond: old(self).kernel_mode,
                    left: (s0 + 8) as usize,
                    right: (s0 + 11) as usize,
                })
                &&& l[s0 + 13] == (Node::Next {
                    nid: 40_000_012,
                    sort: NodeType::Bit,
                    state: old(self).kernel_mode,
                    next: (s0 + 12) as usize,
                    name: None,
                })
                &&& final(self).sequentials@ == old(self).sequentials@.push((s0 + 13) as usize)
                &&& r.0 == (s0 + 2) as usize
                &&& r.1 == (s0 + 4) as usize
                &&& r.2 == (s0 + 6) as usize
                &&& r.3 == (s0 + 8) as usize
                &&& r.4 == (s0 + 10) as usize
                &&& r.5 == (s0 + 11) as usize
            }),
    {
        self.new_comment(crate::fmt::name_bytes("syscalls"));
        self.current_nid = 40_000_000;
        let a7 = self.reg_node(17);
        let num_openat = self.new_const(56);
        let is_openat = self.new_eq(a7, num_openat);
        let num_read = self.new_const(63);
        let is_read = self.new_eq(a7, num_read);
        let num_write = self.new_const(64);
        let is_write = self.new_eq(a7, num_write);
        let num_exit = self.new_const(93);
        let is_exit = self.new_eq(a7, num_exit);
        let num_brk = self.new_const(214);
        let is_brk = self.new_eq(a7, num_brk);
        let ef = self.ecall_flow;
        let active_exit = self.new_and(ef, is_exit);
        let km = self.kernel_mode;
        let kernel_flow = self.new_ite(km, is_exit, active_exit, NodeType::Bit);
        self.new_next(km, kernel_flow, None, NodeType::Bit);
        (is_openat, is_read, is_write, is_exit, is_brk, active_exit)
    }

    /// Folds the recorded control edges of one address into the next value of
    /// its control flag, after checking that the fold fits the hundred
    /// identifiers of the address's block.
    fn fold_address(&mut self, k: usize) -> (r: Result<(), ModelError>)
        requires
            old(self).wf(),
            old(self).bad_states@.len() == 0,
            k < old(self).n_instructions,
            old(self).pc_idx == k,
            old(self).pc <= MAX_CODE_ADDRESS,
            forall|i: int|
                0 <= i < old(self).pc_flags@.len() ==> #[trigger] old(self).pc_flags@[i] != old(self).zero_bit,
        ensures
            final(self).wf(),
            final(self).bad_states@.len() == 0,
            final(self).base_address == old(self).base_address,
            final(self).n_instructions == old(self).n_instructions,
            final(self).pc == old(self).pc,
            final(self).pc_idx == old(self).pc_idx,
            Self::same_consts(*old(self), *final(self)),
            Self::same_flows(*old(self), *final(self)),
            forall|x: NodeRef| valid_op(old(self).lines@, x) ==> valid_op(final(self).lines@, x),
            lines_extend(old(self).lines@, final(self).lines@),
            forall|j: int|
                0 <= j < old(self).edges_view().len() && j != k as int
                    ==> final(self).edges_view()[j] == #[trigger] old(self).edges_view()[j],
            (r is Err) <==> 1 + list_cost(old(self).edges_view()[k as int]) > 100,
            r is Err ==> r == Err::<(), ModelError>(
                ModelError::ControlBudget { address: old(self).pc },
            ),
            final(self).pc_flags@ == old(self).pc_flags@,
            forall|i: int|
                0 <= i < old(self).sequentials@.len() ==> #[trigger] final(self).sequentials@[i]
                    == old(self).sequentials@[i],
            r is Ok ==> ({
                let l = final(self).lines@;
                let len = l.len() as int;
                &&& len >= 1
                &&& (exists|acts: Seq<NodeRef>, root: NodeRef|
                    #[trigger] fold_of_edges(
                        l,
                        old(self).zero_bit,
                        old(self).one_bit,
                        old(self).base_address,
                        old(self).n_instructions as int,
                        old(self).pc_flags@,
                        old(self).kernel_not,
                        old(self).edges_view()[k as int],
                        acts,
                        root,
                    ) && (l[len - 1] matches Node::Next { sort: NodeType::Bit, state, next, name, .. }
                        && state == old(self).pc_flags@[k as int] && next == root
                        && name is None))
                &&& final(self).sequentials@.len() > old(self).sequentials@.len()
                &&& final(self).sequentials@.last() == (len - 1) as usize
                &&& (forall|i: int|
                    old(self).sequentials@.len() <= i < final(self).sequentials@.len() - 1 ==> (
                    #[trigger] final(self).sequentials@[i] < l.len() && (l[final(self).sequentials@[i] as int] matches Node::Next { state, .. } && state >= old(self).lines@.len())))
            }),
    {
        self.current_nid = 50_000_000 + self.pc * 100;
        let ghost head = *self;
        proof {
            assert(head.edges_view() =~= old(self).edges_view());
        }
        let edges = self.control_in.remove(k);
        let empty_edges: Vec<InEdge> = Vec::new();
        let ghost g_empty = empty_edges;
        self.control_in.insert(k, empty_edges);
        proof {
            assert(self.control_in@ =~= head.control_in@.update(k as int, g_empty));
            assert(self.control_in@.len() == head.control_in@.len());
            assert(self.edges_view() =~= head.edges_view().update(k as int, g_empty@));
            assert(edges@ == head.edges_view()[k as int]);
            assert forall|i: int, j: int|
                0 <= i < self.control_in@.len() && 0 <= j < self.control_in@[i]@.len()
                implies edge_ok(
                self.lines@,
                self.base_address,
                self.n_instructions as int,
                #[trigger] self.control_in@[i]@[j],
            ) by {
                assert(g_empty@.len() == 0);
                assert(i != k as int);
                assert(self.control_in@[i] == head.control_in@[i]);
                assert(edge_ok(
                    head.lines@,
                    head.base_address,
                    head.n_instructions as int,
                    head.control_in@[i]@[j],
                ));
            }
            assert(self.wf());
            assert forall|j: int| 0 <= j < edges@.len() implies edge_ok(
                self.lines@,
                self.base_address,
                self.n_instructions as int,
                #[trigger] edges@[j],
            ) by {
                assert(edges@ == head.control_in@[k as int]@);
                assert(edge_ok(
                    head.lines@,
                    head.base_address,
                    head.n_instructions as int,
                    head.control_in@[k as int]@[j],
                ));
            }
        }
        let mut cost: u64 = 1;
        let mut j: usize = 0;
        proof {
            assert(edges@.subrange(0, 0) =~= Seq::<InEdge>::empty());
        }
        while j < edges.len()
            invariant
                j <= edges@.len(),
                cost <= 207,
                (cost > 100) <==> (1 + list_cost(edges@.subrange(0, j as int)) > 100),
                cost > 100 || cost == 1 + list_cost(edges@.subrange(0, j as int)),
            decreases edges@.len() - j,
        {
            let ghost pre_sub = edges@.subrange(0, j as int);
            let c: u64 = match edges[j].from_instruction {
                Instr::Beq { .. } => 2,
                Instr::Ecall => 6,
                _ => 1,
            };
            if cost <= 200 {
                cost = cost + c;
            }
            j = j + 1;
            proof {
                assert(edges@.subrange(0, j as int).drop_last() =~= pre_sub);
                assert(edges@.subrange(0, j as int).last() == edges@[j - 1]);
            }
        }
        proof {
            assert(edges@.subrange(0, edges@.len() as int) =~= edges@);
        }
        if cost > 100 {
            proof {
                assert(1 + list_cost(old(self).edges_view()[k as int]) > 100);
            }
            return Err(ModelError::ControlBudget { address: self.pc });
        }
        proof {
            lemma_list_cost_ge_len(edges@);
        }
        let mut control_flow = self.zero_bit;
        let ghost mut acts: Seq<NodeRef> = Seq::empty();
        j = 0;
        while j < edges.len()
            invariant
                self.wf(),
                self.bad_states@.len() == 0,
                self.base_address == head.base_address,
                self.n_instructions == head.n_instructions,
                self.pc == head.pc,
                self.pc_idx == head.pc_idx,
                self.pc <= MAX_CODE_ADDRESS,
                head.pc_idx < head.n_instructions,
                Self::same_consts(head, *self),
                Self::same_flows(head, *self),
                self.pc_flags@ == head.pc_flags@,
                forall|i: int|
                    0 <= i < head.pc_flags@.len() ==> #[trigger] head.pc_flags@[i]
                        != head.zero_bit,
                j <= edges@.len(),
                edges@.len() <= 99,
                self.current_nid <= 50_000_000 + self.pc * 100 + 6 * j,
                valid_op(self.lines@, control_flow),
                lines_extend(head.lines@, self.lines@),
                self.edges_view() == head.edges_view().update(k as int, g_empty@),
                acts.len() == j as int,
                j == 0 ==> control_flow == head.zero_bit,
                j > 0 ==> control_flow != head.zero_bit,
                crate::laws::fold_shape(
                    self.lines@,
                    head.zero_bit,
                    head.one_bit,
                    acts,
                    control_flow,
                ),
                forall|jj: int|
                    0 <= jj < j as int ==> activation_ok(
                        self.lines@,
                        head.base_address,
                        head.n_instructions as int,
                        head.pc_flags@,
                        head.zero_bit,
                        head.kernel_not,
                        edges@[jj],
                        #[trigger] acts[jj],
                    ),
                self.sequentials@.len() >= head.sequentials@.len(),
                forall|i: int|
                    0 <= i < head.sequentials@.len() ==> #[trigger] self.sequentials@[i]
                        == head.sequentials@[i],
                forall|i: int|
                    head.sequentials@.len() <= i < self.sequentials@.len() ==> (
                    #[trigger] self.sequentials@[i] < self.lines@.len() && (self.lines@[self.sequentials@[i] as int] matches Node::Next { state, .. }
                        && state >= head.lines@.len())),
                forall|jj: int|
                    0 <= jj < edges@.len() ==> edge_ok(
                        self.lines@,
                        self.base_address,
                        self.n_instructions as int,
                        #[trigger] edges@[jj],
                    ),
                forall|x: NodeRef| valid_op(head.lines@, x) ==> valid_op(self.lines@, x),
            decreases edges@.len() - j,
        {
            let ghost iter_pre = *self;
            let ghost prev_flow = control_flow;
            let ghost prev_acts = acts;
            let pre_len: usize = self.lines.len();
            let e = edges[j];
            control_flow = match e.from_instruction {
                Instr::Beq { .. } => self.control_flow_from_beq(&e, control_flow),
                Instr::Ecall => self.control_flow_from_ecall(&e, control_flow),
                _ => {
                    let origin = addr_to_idx(self.base_address, self.n_instructions, e.from_address);
                    let of = self.pc_flags[origin];
                    self.control_flow_from_any(of, control_flow)
                },
            };
            let post_len: usize = self.lines.len();
            proof {
                let act: NodeRef = match e.from_instruction {
                    Instr::Beq { .. } => pre_len,
                    Instr::Ecall => (pre_len + 3) as usize,
                    _ => head.pc_flags@[addr_index(
                        head.base_address,
                        head.n_instructions as int,
                        e.from_address,
                    )->0],
                };
                if e.from_instruction is Ecall {
                    assert(post_len >= pre_len + 4);
                    assert(act == pre_len as int + 3);
                }
                acts = acts.push(act);
                assert(acts.drop_last() =~= prev_acts);
                assert(lines_extend(iter_pre.lines@, self.lines@));
                lemma_lines_extend_trans(head.lines@, iter_pre.lines@, self.lines@);
                crate::laws::lemma_fold_shape_extend(
                    iter_pre.lines@,
                    self.lines@,
                    head.zero_bit,
                    head.one_bit,
                    prev_acts,
                    prev_flow,
                );
                assert(activation_ok(
                    self.lines@,
                    head.base_address,
                    head.n_instructions as int,
                    head.pc_flags@,
                    head.zero_bit,
                    head.kernel_not,
                    edges@[j as int],
                    act,
                ));
                assert(crate::laws::fold_shape(
                    self.lines@,
                    head.zero_bit,
                    head.one_bit,
                    acts,
                    control_flow,
                ));
                assert forall|jj: int| 0 <= jj < j as int + 1 implies activation_ok(
                    self.lines@,
                    head.base_address,
                    head.n_instructions as int,
                    head.pc_flags@,
                    head.zero_bit,
                    head.kernel_not,
                    edges@[jj],
                    #[trigger] acts[jj],
                ) by {
                    if jj < j as int {
                        assert(acts[jj] == prev_acts[jj]);
                        assert(activation_ok(
                            iter_pre.lines@,
                            head.base_address,
                            head.n_instructions as int,
                            head.pc_flags@,
                            head.zero_bit,
                            head.kernel_not,
                            edges@[jj],
                            prev_acts[jj],
                        ));
                        if prev_acts[jj] < iter_pre.lines@.len() {
                            assert(self.lines@[prev_acts[jj] as int] == iter_pre.lines@[prev_acts[jj] as int]);
                        }
                        match edges@[jj].from_instruction {
                            Instr::Ecall => {
                                let lt = iter_pre.lines@[prev_acts[jj] as int]->And_left;
                                assert(self.lines@[lt as int] == iter_pre.lines@[lt as int]);
                            },
                            _ => {},
                        }
                    }
                }
                assert forall|jj: int| 0 <= jj < edges@.len() implies edge_ok(
                    self.lines@,
                    self.base_address,
                    self.n_instructions as int,
                    #[trigger] edges@[jj],
                ) by {
                    assert(edge_ok(
                        iter_pre.lines@,
                        iter_pre.base_address,
                        iter_pre.n_instructions as int,
                        edges@[jj],
                    ));
                    if edges@[jj].condition is Some {
                        assert(valid_op(self.lines@, edges@[jj].condition->0));
                    }
                }
                assert forall|i: int|
                    head.sequentials@.len() <= i < self.sequentials@.len() implies (
                #[trigger] self.sequentials@[i] < self.lines@.len() && (self.lines@[self.sequentials@[i] as int] matches Node::Next { state, .. }
                    && state >= head.lines@.len())) by {
                    if i < iter_pre.sequentials@.len() {
                        assert(self.sequentials@[i] == iter_pre.sequentials@[i]);
                        assert(self.lines@[self.sequentials@[i] as int] == iter_pre.lines@[self.sequentials@[i] as int]);
                    }
                }
            }
            j = j + 1;
        }
        let flag = self.pc_flag();
        let ghost before_next = self.lines@;
        let ghost pre_next = *self;
        self.new_next(flag, control_flow, None, NodeType::Bit);
        proof {
            assert(lines_extend(old(self).lines@, head.lines@));
            lemma_lines_extend_trans(old(self).lines@, head.lines@, before_next);
            lemma_lines_extend_trans(old(self).lines@, before_next, self.lines@);
            crate::laws::lemma_fold_shape_extend(
                before_next,
                self.lines@,
                head.zero_bit,
                head.one_bit,
                acts,
                control_flow,
            );
            assert forall|jj: int| 0 <= jj < edges@.len() implies activation_ok(
                self.lines@,
                head.base_address,
                head.n_instructions as int,
                head.pc_flags@,
                head.zero_bit,
                head.kernel_not,
                edges@[jj],
                #[trigger] acts[jj],
            ) by {
                assert(activation_ok(
                    before_next,
                    head.base_address,
                    head.n_instructions as int,
                    head.pc_flags@,
                    head.zero_bit,
                    head.kernel_not,
                    edges@[jj],
                    acts[jj],
                ));
                if acts[jj] < before_next.len() {
                    assert(self.lines@[acts[jj] as int] == before_next[acts[jj] as int]);
                }
                match edges@[jj].from_instruction {
                    Instr::Ecall => {
                        let lt = before_next[acts[jj] as int]->And_left;
                        assert(self.lines@[lt as int] == before_next[lt as int]);
                    },
                    _ => {},
                }
            }
            assert(fold_of_edges(
                self.lines@,
                head.zero_bit,
                head.one_bit,
                head.base_address,
                head.n_instructions as int,
                head.pc_flags@,
                head.kernel_not,
                old(self).edges_view()[k as int],
                acts,
                control_flow,
            ));
            assert(self.lines@[self.lines@.len() - 1] matches Node::Next {
                sort: NodeType::Bit,
                state,
                next,
                name,
                ..
            } && state == old(self).pc_flags@[k as int] && next == control_flow && name is None);
            assert forall|i: int|
                head.sequentials@.len() <= i < self.sequentials@.len() - 1 implies (
            #[trigger] self.sequentials@[i] < self.lines@.len() && (self.lines@[self.sequentials@[i] as int] matches Node::Next { state, .. }
                && state >= old(self).lines@.len())) by {
                assert(self.sequentials@[i] == pre_next.sequentials@[i]);
                assert(self.lines@[self.sequentials@[i] as int] == pre_next.lines@[self.sequentials@[i] as int]);
            }
        }
        Ok(())
    }

    /// Appends the per-register and memory update relations and the four named
    /// safety obligations.
    #[verifier::rlimit(100)]
    #[verifier::spinoff_prover]
    fn finale(
        &mut self,
        is_openat: NodeRef,
        is_read: NodeRef,
        is_write: NodeRef,
        is_exit: NodeRef,
        is_brk: NodeRef,
        active_exit: NodeRef,
    )
        requires
            old(self).wf(),
            old(self).bad_states@.len() == 0,
            valid_op(old(self).lines@, is_openat),
            valid_op(old(self).lines@, is_read),
            valid_op(old(self).lines@, is_write),
            valid_op(old(self).lines@, is_exit),
            valid_op(old(self).lines@, is_brk),
            valid_op(old(self).lines@, active_exit),
        ensures
            final(self).wf(),
            final(self).bad_states@.len() == 4,
            lines_extend(old(self).lines@, final(self).lines@),
            bads_shape(
                (Model {
                    lines: final(self).lines,
                    sequentials: final(self).sequentials,
                    bad_states: final(self).bad_states,
                }),
            ),
            final(self).lines@.len() == old(self).lines@.len() + 56,
            final(self).sequentials@.len() == old(self).sequentials@.len() + 32,
            forall|i: int|
                0 <= i < old(self).sequentials@.len() ==> #[trigger] final(self).sequentials@[i]
                    == old(self).sequentials@[i],
            ({
                let l = final(self).lines@;
                let len = l.len() as int;
                let s = final(self).sequentials@;
                let sn = old(self).sequentials@.len() as int;
                &&& (forall|rr: int|
                    1 <= rr < 32 ==> #[trigger] s[sn + rr - 1] == (len - 56 + rr) as usize)
                &&& s[sn + 31] == (len - 23) as usize
                &&& (forall|rr: int|
                    1 <= rr < 32 ==> (#[trigger] l[len - 56 + rr] matches Node::Next {
                        nid,
                        sort: NodeType::Word,
                        state,
                        next,
                        name: Some(nm),
                    } && nid == 60_000_000 + rr && state == old(self).register_nodes@[rr] && next
                        == old(self).register_flow@[rr - 1] && nm@ == crate::fmt::spec_reg_name(
                        rr,
                    )))
                &&& (l[len - 23] matches Node::Next {
                    nid,
                    sort: NodeType::Memory,
                    state,
                    next,
                    name: Some(nm),
                } && nid == 70_000_000 && state == old(self).memory_node && next == old(
                    self,
                ).memory_flow && nm@ == "virtual-memory".spec_bytes())
            }),
            ({
                let l = final(self).lines@;
                let len = l.len() as int;
                &&& l[len - 21] == (Node::Not { nid: 80_000_000, value: is_openat })
                &&& l[len - 20] == (Node::Not { nid: 80_000_001, value: is_read })
                &&& l[len - 19] == (Node::Not { nid: 80_000_002, value: is_write })
                &&& l[len - 18] == (Node::Not { nid: 80_000_003, value: is_exit })
                &&& l[len - 17] == (Node::Not { nid: 80_000_004, value: is_brk })
                &&& l[len - 16] == (Node::And {
                    nid: 80_000_005,
                    left: (len - 21) as usize,
                    right: (len - 20) as usize,
                })
                &&& l[len - 15] == (Node::And {
                    nid: 80_000_006,
                    left: (len - 16) as usize,
                    right: (len - 19) as usize,
                })
                &&& l[len - 14] == (Node::And {
                    nid: 80_000_007,
                    left: (len - 15) as usize,
                    right: (len - 18) as usize,
                })
                &&& l[len - 13] == (Node::And {
                    nid: 80_000_008,
                    left: (len - 14) as usize,
                    right: (len - 17) as usize,
                })
                &&& l[len - 12] == (Node::And {
                    nid: 80_000_009,
                    left: old(self).ecall_flow,
                    right: (len - 13) as usize,
                })
                &&& (l[len - 11] matches Node::Bad { nid, cond, name: Some(nm) } && nid
                    == 80_000_010 && cond == (len - 12) as usize && nm@
                    == "invalid-syscall-id".spec_bytes())
                &&& l[len - 9] == (Node::Eq {
                    nid: 80_000_011,
                    left: old(self).register_nodes@[10],
                    right: old(self).zero_word,
                })
                &&& l[len - 8] == (Node::Not { nid: 80_000_012, value: (len - 9) as usize })
                &&& l[len - 7] == (Node::And {
                    nid: 80_000_013,
                    left: active_exit,
                    right: (len - 8) as usize,
                })
                &&& (l[len - 6] matches Node::Bad { nid, cond, name: Some(nm) } && nid == 80_000_014
                    && cond == (len - 7) as usize && nm@ == "non-zero-exit-code".spec_bytes())
                &&& l[len - 4] == (Node::Eq {
                    nid: 80_000_015,
                    left: old(self).division_flow,
                    right: old(self).zero_word,
                })
                &&& (l[len - 3] matches Node::Bad { nid, cond, name: Some(nm) } && nid == 80_000_016
                    && cond == (len - 4) as usize && nm@ == "bad-division-by-zero".spec_bytes())
                &&& l[len - 2] == (Node::Eq {
                    nid: 80_000_017,
                    left: old(self).remainder_flow,
                    right: old(self).zero_word,
                })
                &&& (l[len - 1] matches Node::Bad { nid, cond, name: Some(nm) } && nid == 80_000_018
                    && cond == (len - 2) as usize && nm@ == "bad-remainder-by-zero".spec_bytes())
                &&& final(self).bad_states@ == old(self).bad_states@.push(((len - 11) as usize)).push(
                    ((len - 6) as usize),
                ).push(((len - 3) as usize)).push(((len - 1) as usize))
            }),
    {
        self.new_comment(crate::fmt::name_bytes("updating registers"));
        let mut r8: u8 = 1;
        while r8 < 32
            invariant
                self.wf(),
                1 <= r8 <= 32,
                self.bad_states@.len() == 0,
                self.lines@.len() == old(self).lines@.len() + r8 as int,
                Self::same_consts(*old(self), *self),
                Self::same_flows(*old(self), *self),
                self.sequentials@.len() == old(self).sequentials@.len() + r8 as int - 1,
                forall|i: int|
                    0 <= i < old(self).sequentials@.len() ==> #[trigger] self.sequentials@[i]
                        == old(self).sequentials@[i],
                forall|rr: int|
                    1 <= rr < r8 as int ==> #[trigger] self.sequentials@[old(
                        self,
                    ).sequentials@.len() + rr - 1] == (old(self).lines@.len() + rr) as usize,
                forall|rr: int|
                    1 <= rr < r8 as int ==> (#[trigger] self.lines@[old(self).lines@.len()
                        + rr] matches Node::Next {
                        nid,
                        sort: NodeType::Word,
                        state,
                        next,
                        name: Some(nm),
                    } && nid == 60_000_000 + rr && state == old(self).register_nodes@[rr] && next
                        == old(self).register_flow@[rr - 1] && nm@ == crate::fmt::spec_reg_name(
                        rr,
                    )),
                lines_extend(old(self).lines@, self.lines@),
                valid_op(self.lines@, is_openat),
                valid_op(self.lines@, is_read),
                valid_op(self.lines@, is_write),
                valid_op(self.lines@, is_exit),
                valid_op(self.lines@, is_brk),
                valid_op(self.lines@, active_exit),
            decreases 32 - r8,
        {
            self.current_nid = 60_000_000 + r8 as u64;
            let rn = self.reg_node(r8);
            let rf = self.reg_flow(r8);
            let nm = crate::fmt::reg_name(r8);
            self.new_next(rn, rf, Some(nm), NodeType::Word);
            r8 = r8 + 1;
        }

        self.new_comment(crate::fmt::name_bytes("updating 64-bit virtual memory"));
        self.current_nid = 70_000_000;
        let mn = self.memory_node;
        let mf = self.memory_flow;
        self.new_next(mn, mf, Some(crate::fmt::name_bytes("virtual-memory")), NodeType::Memory);

        self.new_comment(crate::fmt::name_bytes("checking syscall id"));
        self.current_nid = 80_000_000;
        let not_openat = self.new_not(is_openat);
        let not_read = self.new_not(is_read);
        let not_write = self.new_not(is_write);
        let not_exit = self.new_not(is_exit);
        let not_brk = self.new_not(is_brk);
        let check_syscall_and1 = self.new_and(not_openat, not_read);
        let check_syscall_and2 = self.new_and(check_syscall_and1, not_write);
        let check_syscall_and3 = self.new_and(check_syscall_and2, not_exit);
        let check_syscall_and4 = self.new_and(check_syscall_and3, not_brk);
        let ef2 = self.ecall_flow;
        let check_syscall = self.new_and(ef2, check_syscall_and4);
        self.new_bad(check_syscall, Some(crate::fmt::name_bytes("invalid-syscall-id")));

        self.new_comment(crate::fmt::name_bytes("checking exit code"));
        let a0 = self.reg_node(10);
        let zw = self.zero_word;
        let check_exit_code = self.new_neq(a0, zw);
        let check_exit = self.new_and(active_exit, check_exit_code);
        self.new_bad(check_exit, Some(crate::fmt::name_bytes("non-zero-exit-code")));

        self.new_comment(crate::fmt::name_bytes("checking division and remainder by zero"));
        let df = self.division_flow;
        let check_div = self.new_eq(df, zw);
        self.new_bad(check_div, Some(crate::fmt::name_bytes("bad-division-by-zero")));
        let rf = self.remainder_flow;
        let check_rem = self.new_eq(rf, zw);
        self.new_bad(check_rem, Some(crate::fmt::name_bytes("bad-remainder-by-zero")));
    }

    /// Runs the whole translation on an empty builder: the fixed preamble, the
    /// data-flow pass, the system-call recognizers, the control-flow fold, the
    /// state updates and the safety obligations.
    pub fn generate(&mut self, program: &Program) -> (r: Result<(), ModelError>)
        requires
            old(self).lines@.len() == 0,
            old(self).sequentials@.len() == 0,
            old(self).bad_states@.len() == 0,
            old(self).pc_flags@.len() == 0,
            old(self).control_in@.len() == 0,
            old(self).register_nodes@.len() == 0,
            old(self).register_flow@.len() == 0,
            old(self).current_nid == 0,
        ensures
            final(self).graph_wf(),
            r is Ok ==> program_ok(program.address, program.code@),
            !addresses_ok(program.address, program.code@.len() as int) <==> r == Err::<
                (),
                ModelError,
            >(ModelError::AddressSpace),
            addresses_ok(program.address, program.code@.len() as int)
                ==> match first_fault_from(program.code@, 0) {
                Some(k) => r == Err::<(), ModelError>(
                    word_fault_error(program.code@, program.address, k),
                ),
                None => (r is Ok) == budget_ok(program.address, program.code@) && (r is Err
                    ==> (r matches Err(e) && e is ControlBudget)),
            },
            (r is Ok) <==> (program_ok(program.address, program.code@) && budget_ok(
                program.address,
                program.code@,
            )),
            r is Ok ==> bads_shape(
                (Model {
                    lines: final(self).lines,
                    sequentials: final(self).sequentials,
                    bad_states: final(self).bad_states,
                }),
            ),
            r is Ok ==> preamble_shape(
                final(self).lines@,
                program.address,
                n_words(program.code@),
            ),
            r is Ok ==> bads_exact(
                (Model {
                    lines: final(self).lines,
                    sequentials: final(self).sequentials,
                    bad_states: final(self).bad_states,
                }),
            ),
            r is Ok ==> ({
                let l = final(self).lines@;
                let len = l.len() as int;
                let seqs = final(self).sequentials@;
                let nw = n_words(program.code@);
                &&& seqs.len() >= 33
                &&& (exists|s0: int, ef: NodeRef|
                    #[trigger] syscall_shape(l, s0, ef) && seqs[0] == (s0 + 13) as usize && l[len
                        - 21] == (Node::Not { nid: 80_000_000, value: (s0 + 2) as usize }) && l[len
                        - 20] == (Node::Not { nid: 80_000_001, value: (s0 + 4) as usize }) && l[len
                        - 19] == (Node::Not { nid: 80_000_002, value: (s0 + 6) as usize }) && l[len
                        - 18] == (Node::Not { nid: 80_000_003, value: (s0 + 8) as usize }) && l[len
                        - 17] == (Node::Not { nid: 80_000_004, value: (s0 + 10) as usize }) && (
                    l[len - 12] matches Node::And { left, .. } && left == ef) && (l[len
                        - 7] matches Node::And { left, .. } && left == (s0 + 11) as usize))
                &&& (forall|rr: int|
                    1 <= rr < 32 ==> (#[trigger] l[len - 56 + rr] matches Node::Next {
                        nid,
                        sort: NodeType::Word,
                        state,
                        ..
                    } && nid == 60_000_000 + rr && state == 9 + rr))
                &&& (l[len - 23] matches Node::Next { nid, sort: NodeType::Memory, state, .. }
                    && nid == 70_000_000 && state == 44 + nw)
                &&& (forall|rr: int|
                    1 <= rr < 32 ==> #[trigger] seqs[seqs.len() - 33 + rr] == (len - 56
                        + rr) as usize)
                &&& seqs[seqs.len() - 1] == (len - 23) as usize
            }),
    {
        let code_len = program.code.len();
        if program.address > MAX_CODE_ADDRESS || code_len as u64 > MAX_CODE_ADDRESS
            - program.address {
            return Err(ModelError::AddressSpace);
        }
        let n: usize = code_len / 4;
        self.build_preamble(program, code_len, n);
        let ghost pm = self.lines@;
        let ghost pre_dc = *self;
        self.new_comment(crate::fmt::name_bytes("data flow"));
        proof {
            assert forall|i: int|
                0 <= i < n implies #[trigger] self.control_in@[i]@.len() == 0 by {
                assert(self.edges_view()[i] == pre_dc.edges_view()[i]);
                assert(self.control_in@[i]@ == pre_dc.control_in@[i]@);
                assert(pre_dc.control_in@[i]@.len() == 0);
            }
        }
        let ghost before_data = self.lines@;
        let res = self.translate_program(program, code_len, n);
        proof {
            assert(lines_extend(pm, before_data));
            lemma_lines_extend_trans(pm, before_data, self.lines@);
        }
        match res {
            Ok(()) => {},
            Err(e) => {
                proof {
                    let ff = first_fault_from(program.code@, 0);
                    assert(ff is Some);
                    lemma_first_fault_some(program.code@, 0);
                    assert(!program_ok(program.address, program.code@));
                    assert(res == Err::<(), ModelError>(
                        word_fault_error(program.code@, program.address, ff->0),
                    ));
                    assert(e != ModelError::AddressSpace);
                }
                return Err(e);
            },
        }
        proof {
            lemma_no_fault(program.code@, 0);
        }
        let ghost before_sys = self.lines@;
        let ghost s0 = self.lines@.len() as int;
        let ghost ef0 = self.ecall_flow;
        let (is_openat, is_read, is_write, is_exit, is_brk, active_exit) = self.syscall_phase();
        proof {
            lemma_lines_extend_trans(pm, before_sys, self.lines@);
            assert(syscall_shape(self.lines@, s0, ef0));
            assert(self.sequentials@ =~= seq![((s0 + 13) as usize)]);
        }
        let ghost before_ctrl = self.lines@;
        self.new_comment(crate::fmt::name_bytes("control flow"));
        proof {
            lemma_lines_extend_trans(pm, before_ctrl, self.lines@);
        }
        self.pc = program.address;
        self.pc_idx = 0;
        let mut k: usize = 0;
        while k < n
            invariant
                self.wf(),
                k <= n,
                self.bad_states@.len() == 0,
                self.base_address == program.address,
                self.n_instructions == n,
                program.address + code_len <= MAX_CODE_ADDRESS,
                n == code_len / 4,
                code_len == program.code@.len(),
                addresses_ok(program.address, program.code@.len() as int),
                first_fault_from(program.code@, 0) is None,
                self.pc == program.address + 4 * k,
                self.pc_idx == k,
                lines_extend(pm, self.lines@),
                self.zero_word == 3,
                self.zero_bit == 1,
                self.division_flow == 4,
                self.register_nodes@.len() == 32,
                self.register_nodes@[10] == 19,
                self.pc_flags@.len() == n,
                forall|i: int| 0 <= i < n ==> #[trigger] self.pc_flags@[i] == 42 + i,
                forall|rr: int| 1 <= rr < 32 ==> #[trigger] self.register_nodes@[rr] == 9 + rr,
                self.memory_node == 44 + n,
                self.kernel_not == 7,
                pm.len() == 45 + n,
                lines_extend(before_ctrl, self.lines@),
                syscall_shape(self.lines@, s0, ef0),
                self.ecall_flow == ef0,
                self.sequentials@.len() >= 1,
                self.sequentials@[0] == (s0 + 13) as usize,
                n as int == n_words(program.code@),
                forall|j: int|
                    k as int <= j < n ==> list_cost(#[trigger] self.edges_view()[j]) == cost_into(
                        program.code@,
                        program.address,
                        j,
                        n as int,
                    ),
                forall|j: int|
                    0 <= j < k as int ==> 1 + cost_into(program.code@, program.address, j, n as int)
                        <= 100,
                valid_op(self.lines@, is_openat),
                valid_op(self.lines@, is_read),
                valid_op(self.lines@, is_write),
                valid_op(self.lines@, is_exit),
                valid_op(self.lines@, is_brk),
                valid_op(self.lines@, active_exit),
            decreases n - k,
        {
            let ghost fold_pre = self.lines@;
            let ghost pre_fold = *self;
            let res_fold = self.fold_address(k);
            proof {
                lemma_lines_extend_trans(pm, fold_pre, self.lines@);
            }
            let ghost post_fold = *self;
            match res_fold {
                Ok(()) => {
                    proof {
                        assert(1 + list_cost(pre_fold.edges_view()[k as int]) <= 100);
                        assert(1 + cost_into(program.code@, program.address, k as int, n as int)
                            <= 100);
                        assert forall|j: int|
                            k as int + 1 <= j < n implies list_cost(
                            #[trigger] self.edges_view()[j],
                        ) == cost_into(program.code@, program.address, j, n as int) by {
                            assert(self.edges_view()[j] == pre_fold.edges_view()[j]);
                            assert(list_cost(pre_fold.edges_view()[j]) == cost_into(
                                program.code@,
                                program.address,
                                j,
                                n as int,
                            ));
                        }
                        lemma_lines_extend_trans(before_ctrl, fold_pre, self.lines@);
                        assert forall|ii: int|
                            s0 <= ii < s0 + 14 implies self.lines@[ii] == pre_fold.lines@[ii] by {}
                        assert(syscall_shape(self.lines@, s0, ef0));
                    }
                },
                Err(e) => {
                    proof {
                        assert(1 + list_cost(pre_fold.edges_view()[k as int]) > 100);
                        assert(1 + cost_into(program.code@, program.address, k as int, n as int)
                            > 100);
                        assert(!budget_ok(program.address, program.code@));
                    }
                    return Err(e);
                },
            }
            self.pc = self.pc + INSTRUCTION_SIZE;
            self.pc_idx = self.pc_idx + 1;
            k = k + 1;
            proof {
                assert(self.edges_view() =~= post_fold.edges_view());
            }
        }

        proof {
            assert(budget_ok(program.address, program.code@));
        }
        let ghost before_finale = self.lines@;
        let ghost pre_fin = *self;
        self.finale(is_openat, is_read, is_write, is_exit, is_brk, active_exit);
        proof {
            lemma_lines_extend_trans(pm, before_finale, self.lines@);
            lemma_preamble_shape_extend(pm, self.lines@, program.address, n as int);
            assert forall|ii: int|
                s0 <= ii < s0 + 14 implies self.lines@[ii] == pre_fin.lines@[ii] by {}
            assert(syscall_shape(self.lines@, s0, ef0));
            assert(self.lines@[self.lines@.len() - 21] == (Node::Not {
                nid: 80_000_000,
                value: (s0 + 2) as usize,
            }));
            assert(self.lines@[self.lines@.len() - 20] == (Node::Not {
                nid: 80_000_001,
                value: (s0 + 4) as usize,
            }));
            assert(self.lines@[self.lines@.len() - 19] == (Node::Not {
                nid: 80_000_002,
                value: (s0 + 6) as usize,
            }));
            assert(self.lines@[self.lines@.len() - 18] == (Node::Not {
                nid: 80_000_003,
                value: (s0 + 8) as usize,
            }));
            assert(self.lines@[self.lines@.len() - 17] == (Node::Not {
                nid: 80_000_004,
                value: (s0 + 10) as usize,
            }));
            assert(self.lines@[self.lines@.len() - 12] matches Node::And { left, .. } && left
                == ef0);
            assert(self.lines@[self.lines@.len() - 7] matches Node::And { left, .. } && left == (
            s0 + 11) as usize);
            let sn = pre_fin.sequentials@.len() as int;
            assert forall|rr: int|
                1 <= rr < 32 implies #[trigger] self.sequentials@[self.sequentials@.len() - 33
                + rr] == (self.lines@.len() - 56 + rr) as usize by {
                assert(self.sequentials@[sn + rr - 1] == (self.lines@.len() - 56 + rr) as usize);
            }
        }
        Ok(())
    }
}

/// Translates a decoded program into its symbolic transition-system model, or
/// reports the first fault that makes translation impossible: a code segment
/// outside the identifier namespace, then the lowest-addressed word that does
/// not decode or decodes to an unsupported instruction, then an overrun of an
/// address's control-fold identifier block.
pub fn generate_model(program: &Program) -> (r: Result<Model, ModelError>)
    ensures
        (r matches Ok(m) ==> model_wf(m)),
        (r matches Ok(m) ==> program_ok(program.address, program.code@)),
        (r matches Ok(m) ==> bads_shape(m)),
        (r matches Ok(m) ==> preamble_shape(m.lines@, program.address, n_words(program.code@))),
        (r matches Ok(m) ==> bads_exact(m)),
        !addresses_ok(program.address, program.code@.len() as int) <==> r == Err::<
            Model,
            ModelError,
        >(ModelError::AddressSpace),
        addresses_ok(program.address, program.code@.len() as int) ==> match first_fault_from(
            program.code@,
            0,
        ) {
            Some(k) => r == Err::<Model, ModelError>(
                word_fault_error(program.code@, program.address, k),
            ),
            None => (r is Ok) == budget_ok(program.address, program.code@) && (r is Err
                ==> (r matches Err(e) && e is ControlBudget)),
        },
        (r is Ok) <==> (program_ok(program.address, program.code@) && budget_ok(
            program.address,
            program.code@,
        )),
{
    let mut builder = ModelBuilder::new();
    match builder.generate(program) {
        Ok(()) => Ok(builder.finalize()),
        Err(e) => Err(e),
    }
}

} // verus!
