//! General properties of the generated models, stated over the evaluator's
//! semantics. The structural half of zero-register idempotence — that an
//! instruction targeting the zero register appends no data-flow node and
//! leaves every accumulator unchanged — is the `targets_zero` clause in the
//! contract of `ModelBuilder::translate_to_model`.

use vstd::prelude::*;
use crate::graph::{Node, NodeRef, NodeType};
use crate::eval::{eval, as_bit, ValueView};

verus! {

/// Zero-register idempotence, value half: the architectural zero register is
/// modeled as the word constant zero, and such a node evaluates to zero under
/// every state assignment — so the zero register reads as zero at every step.
pub proof fn lemma_zero_register_value(lines: Seq<Node>, sv: Seq<ValueView>, z: NodeRef)
    requires
        z < lines.len(),
        lines[z as int] matches Node::Const { sort: NodeType::Word, imm: 0, .. },
    ensures
        eval(lines, sv, z as int) == ValueView::Word(0),
{
}

/// Accumulator order sensitivity: for a register written by an earlier and a
/// later instruction, the flow accumulator nests the later select outside the
/// earlier one; under a concrete activation where at most one of the two
/// gating flags is true, it reduces to exactly the value written by whichever
/// flag is true, and to the underlying accumulator when neither is — the
/// ascending nesting order does not affect the selected value.
pub proof fn lemma_flow_order_insensitive(
    lines: Seq<Node>,
    sv: Seq<ValueView>,
    k1: NodeRef,
    f1: NodeRef,
    v1: NodeRef,
    k2: NodeRef,
    f2: NodeRef,
    v2: NodeRef,
    base: NodeRef,
)
    requires
        k2 < lines.len(),
        (lines[k2 as int] matches Node::Ite { cond, left, right, .. } && cond == f2 && left == v2
            && right == k1),
        f2 < k2 && v2 < k2 && k1 < k2,
        (lines[k1 as int] matches Node::Ite { cond, left, right, .. } && cond == f1 && left == v1
            && right == base),
        f1 < k1 && v1 < k1 && base < k1,
    ensures
        as_bit(eval(lines, sv, f2 as int)) ==> eval(lines, sv, k2 as int) == eval(
            lines,
            sv,
            v2 as int,
        ),
        !as_bit(eval(lines, sv, f2 as int)) && as_bit(eval(lines, sv, f1 as int)) ==> eval(
            lines,
            sv,
            k2 as int,
        ) == eval(lines, sv, v1 as int),
        !as_bit(eval(lines, sv, f2 as int)) && !as_bit(eval(lines, sv, f1 as int)) ==> eval(
            lines,
            sv,
            k2 as int,
        ) == eval(lines, sv, base as int),
{
    assert(!as_bit(eval(lines, sv, f2 as int)) ==> eval(lines, sv, k2 as int) == eval(
        lines,
        sv,
        k1 as int,
    ));
    assert(eval(lines, sv, k1 as int) == if as_bit(eval(lines, sv, f1 as int)) {
        eval(lines, sv, v1 as int)
    } else {
        eval(lines, sv, base as int)
    });
}

/// The shape the control-flow fold gives to a flag's next expression: the
/// empty fold is the untouched zero constant, the first activation replaces
/// it, and every further activation wraps the accumulator in a select on the
/// true constant — the graph's only mechanism for logical or.
pub open spec fn fold_shape(
    lines: Seq<Node>,
    zero: NodeRef,
    one: NodeRef,
    acts: Seq<NodeRef>,
    root: NodeRef,
) -> bool
    decreases acts.len(),
{
    if acts.len() == 0 {
        root == zero
    } else if acts.len() == 1 {
        root == acts[0] && root < lines.len()
    } else {
        &&& root < lines.len()
        &&& acts.last() < root
        &&& one < root
        &&& (lines[root as int] matches Node::Ite { cond, left, right, .. } && cond == acts.last()
            && left == one && right < root && fold_shape(lines, zero, one, acts.drop_last(), right))
    }
}

/// The fold shape survives any extension of the arena.
pub proof fn lemma_fold_shape_extend(
    l1: Seq<Node>,
    l2: Seq<Node>,
    zero: NodeRef,
    one: NodeRef,
    acts: Seq<NodeRef>,
    root: NodeRef,
)
    requires
        fold_shape(l1, zero, one, acts, root),
        l1.len() <= l2.len(),
        forall|j: int| 0 <= j < l1.len() ==> l2[j] == #[trigger] l1[j],
    ensures
        fold_shape(l2, zero, one, acts, root),
    decreases acts.len(),
{
    if acts.len() >= 2 {
        assert(l2[root as int] == l1[root as int]);
        let right = l1[root as int]->Ite_right;
        lemma_fold_shape_extend(l1, l2, zero, one, acts.drop_last(), right);
    }
}

/// One-hot fold evaluation: the folded next expression of a control flag is
/// true exactly when some recorded activation is true. With activations that
/// are mutually exclusive — as one-hot flags and complementary branch guards
/// are — the fold therefore activates exactly the flags one activation asks
/// for, which is what preserves the one-hot encoding step by step.
pub proof fn lemma_fold_or(
    lines: Seq<Node>,
    sv: Seq<ValueView>,
    zero: NodeRef,
    one: NodeRef,
    acts: Seq<NodeRef>,
    root: NodeRef,
)
    requires
        zero < lines.len(),
        (lines[zero as int] matches Node::Const { sort: NodeType::Bit, imm: 0, .. }),
        one < lines.len(),
        (lines[one as int] matches Node::Const { sort: NodeType::Bit, imm: 1, .. }),
        fold_shape(lines, zero, one, acts, root),
    ensures
        as_bit(eval(lines, sv, root as int)) <==> (exists|i: int|
            0 <= i < acts.len() && as_bit(eval(lines, sv, #[trigger] acts[i] as int))),
    decreases acts.len(),
{
    if acts.len() == 0 {
        assert(eval(lines, sv, root as int) == ValueView::Bit(false));
    } else if acts.len() == 1 {
        if as_bit(eval(lines, sv, root as int)) {
            assert(as_bit(eval(lines, sv, acts[0] as int)));
        }
    } else {
        let right = lines[root as int]->Ite_right;
        lemma_fold_or(lines, sv, zero, one, acts.drop_last(), right);
        let last = acts.last();
        if as_bit(eval(lines, sv, last as int)) {
            assert(eval(lines, sv, root as int) == eval(lines, sv, one as int));
            assert(as_bit(eval(lines, sv, acts[acts.len() - 1] as int)));
        } else {
            assert(eval(lines, sv, root as int) == eval(lines, sv, right as int));
            if as_bit(eval(lines, sv, root as int)) {
                let i = choose|i: int|
                    0 <= i < acts.drop_last().len() && as_bit(
                        eval(lines, sv, #[trigger] acts.drop_last()[i] as int),
                    );
                assert(acts.drop_last()[i] == acts[i]);
                assert(as_bit(eval(lines, sv, acts[i] as int)));
            }
            if exists|i: int|
                0 <= i < acts.len() && as_bit(eval(lines, sv, #[trigger] acts[i] as int)) {
                let i = choose|i: int|
                    0 <= i < acts.len() && as_bit(eval(lines, sv, #[trigger] acts[i] as int));
                if i < acts.len() - 1 {
                    assert(acts.drop_last()[i] == acts[i]);
                    assert(as_bit(eval(lines, sv, acts.drop_last()[i] as int)));
                }
            }
        }
    }
}

} // verus!
