//! A concrete single-step evaluator for generated models: computes the value
//! of every node under an assignment to the state nodes, builds the initial
//! assignment from the `init` values, and advances all states by one step
//! through their `next` relations.

use vstd::prelude::*;
use crate::graph::{Model, Node, NodeRef, NodeType, lines_wf, refs_ok, node_ok, model_wf};

verus! {

/// A concrete value of one of the three sorts; a memory is the journal of the
/// writes made to it, later writes shadowing earlier ones, unwritten cells
/// reading as zero.
#[derive(Debug, Clone, PartialEq, Eq)]
pub enum Value {
    Bit(bool),
    Word(u64),
    Mem(Vec<(u64, u64)>),
}

/// The mathematical shadow of a `Value`: the write journal as a sequence.
pub enum ValueView {
    Bit(bool),
    Word(u64),
    Mem(Seq<(u64, u64)>),
}

impl View for Value {
    type V = ValueView;

    open spec fn view(&self) -> ValueView {
        match self {
            Value::Bit(b) => ValueView::Bit(*b),
            Value::Word(w) => ValueView::Word(*w),
            Value::Mem(pairs) => ValueView::Mem(pairs@),
        }
    }
}

/// The views of a sequence of values.
pub open spec fn views(s: Seq<Value>) -> Seq<ValueView> {
    s.map_values(|v: Value| v@)
}

/// The boolean a value carries; a value of another sort reads as false.
pub open spec fn as_bit(v: ValueView) -> bool {
    match v {
        ValueView::Bit(b) => b,
        _ => false,
    }
}

/// The word a value carries; a value of another sort reads as zero.
pub open spec fn as_word(v: ValueView) -> u64 {
    match v {
        ValueView::Word(w) => w,
        _ => 0,
    }
}

/// The write journal a value carries; a value of another sort reads as empty.
pub open spec fn as_mem(v: ValueView) -> Seq<(u64, u64)> {
    match v {
        ValueView::Mem(m) => m,
        _ => Seq::<(u64, u64)>::empty(),
    }
}

/// The last value written to an address, or zero where none was.
pub open spec fn mem_get(pairs: Seq<(u64, u64)>, addr: u64) -> u64
    decreases pairs.len(),
{
    if pairs.len() == 0 {
        0
    } else if pairs.last().0 == addr {
        pairs.last().1
    } else {
        mem_get(pairs.drop_last(), addr)
    }
}

/// The default value of a sort: false, zero, or the empty memory.
pub open spec fn default_value(sort: NodeType) -> ValueView {
    match sort {
        NodeType::Bit => ValueView::Bit(false),
        NodeType::Word => ValueView::Word(0),
        NodeType::Memory => ValueView::Mem(Seq::<(u64, u64)>::empty()),
    }
}

/// Unsigned remainder as the output grammar defines it: a remainder by zero
/// leaves the dividend unchanged.
pub open spec fn word_rem(l: u64, r: u64) -> u64 {
    if r == 0 {
        l
    } else {
        (l % r) as u64
    }
}

/// The value of node `i` under the state assignment `sv` (indexed like the
/// node arena; only positions holding state nodes are read). Operators follow
/// the word-level semantics of the output grammar: additions and subtractions
/// wrap, a remainder by zero leaves the dividend, equality compares words, and
/// a select picks by its condition.
pub open spec fn eval(lines: Seq<Node>, sv: Seq<ValueView>, i: int) -> ValueView
    decreases i,
{
    if i < 0 || i >= lines.len() {
        ValueView::Word(0)
    } else {
        match lines[i] {
            Node::Const { sort, imm, .. } => match sort {
                NodeType::Bit => ValueView::Bit(imm != 0),
                NodeType::Word => ValueView::Word(imm),
                NodeType::Memory => ValueView::Mem(Seq::<(u64, u64)>::empty()),
            },
            Node::Read { memory, address, .. } => if memory < i && address < i {
                ValueView::Word(
                    mem_get(
                        as_mem(eval(lines, sv, memory as int)),
                        as_word(eval(lines, sv, address as int)),
                    ),
                )
            } else {
                ValueView::Word(0)
            },
            Node::Write { memory, address, value, .. } => if memory < i && address < i && value
                < i {
                ValueView::Mem(
                    as_mem(eval(lines, sv, memory as int)).push(
                        (
                            as_word(eval(lines, sv, address as int)),
                            as_word(eval(lines, sv, value as int)),
                        ),
                    ),
                )
            } else {
                ValueView::Word(0)
            },
            Node::Add { left, right, .. } => if left < i && right < i {
                ValueView::Word(
                    as_word(eval(lines, sv, left as int)).wrapping_add(
                        as_word(eval(lines, sv, right as int)),
                    ),
                )
            } else {
                ValueView::Word(0)
            },
            Node::Sub { left, right, .. } => if left < i && right < i {
                ValueView::Word(
                    as_word(eval(lines, sv, left as int)).wrapping_sub(
                        as_word(eval(lines, sv, right as int)),
                    ),
                )
            } else {
                ValueView::Word(0)
            },
            Node::Rem { left, right, .. } => if left < i && right < i {
                ValueView::Word(
                    word_rem(
                        as_word(eval(lines, sv, left as int)),
                        as_word(eval(lines, sv, right as int)),
                    ),
                )
            } else {
                ValueView::Word(0)
            },
            Node::Ite { cond, left, right, .. } => if cond < i && left < i && right < i {
                if as_bit(eval(lines, sv, cond as int)) {
                    eval(lines, sv, left as int)
                } else {
                    eval(lines, sv, right as int)
                }
            } else {
                ValueView::Word(0)
            },
            Node::Eq { left, right, .. } => if left < i && right < i {
                ValueView::Bit(
                    as_word(eval(lines, sv, left as int)) == as_word(eval(lines, sv, right as int)),
                )
            } else {
                ValueView::Word(0)
            },
            Node::And { left, right, .. } => if left < i && right < i {
                ValueView::Bit(
                    as_bit(eval(lines, sv, left as int)) && as_bit(eval(lines, sv, right as int)),
                )
            } else {
                ValueView::Word(0)
            },
            Node::Not { value, .. } => if value < i {
                ValueView::Bit(!as_bit(eval(lines, sv, value as int)))
            } else {
                ValueView::Word(0)
            },
            Node::State { .. } => sv[i],
            Node::Next { .. } => ValueView::Word(0),
            Node::Bad { .. } => ValueView::Word(0),
            Node::Comment(_) => ValueView::Word(0),
        }
    }
}

/// The initial value of node `i`: a constant's value, a state's declared
/// initial value (the default of its sort where none was declared), and the
/// default word elsewhere.
pub open spec fn einit(lines: Seq<Node>, i: int) -> ValueView
    decreases i,
{
    if i < 0 || i >= lines.len() {
        ValueView::Word(0)
    } else {
        match lines[i] {
            Node::Const { sort, imm, .. } => match sort {
                NodeType::Bit => ValueView::Bit(imm != 0),
                NodeType::Word => ValueView::Word(imm),
                NodeType::Memory => ValueView::Mem(Seq::<(u64, u64)>::empty()),
            },
            Node::State { sort, init, .. } => match init {
                Some(r) => if r < i {
                    einit(lines, r as int)
                } else {
                    default_value(sort)
                },
                None => default_value(sort),
            },
            _ => ValueView::Word(0),
        }
    }
}

/// A deep copy of a value.
fn value_copy(v: &Value) -> (r: Value)
    ensures
        r@ == v@,
{
    match v {
        Value::Bit(b) => Value::Bit(*b),
        Value::Word(w) => Value::Word(*w),
        Value::Mem(pairs) => {
            let mut out: Vec<(u64, u64)> = Vec::new();
            let len = pairs.len();
            let mut j: usize = 0;
            while j < len
                invariant
                    j <= len,
                    len == pairs@.len(),
                    out@ == pairs@.subrange(0, j as int),
                decreases len - j,
            {
                out.push(pairs[j]);
                proof {
                    assert(out@ =~= pairs@.subrange(0, j + 1));
                }
                j = j + 1;
            }
            proof {
                assert(out@ =~= pairs@);
            }
            Value::Mem(out)
        },
    }
}

/// Reads the boolean a value carries.
pub fn get_bit(v: &Value) -> (r: bool)
    ensures
        r == as_bit(v@),
{
    match v {
        Value::Bit(b) => *b,
        _ => false,
    }
}

/// Reads the word a value carries.
pub fn get_word(v: &Value) -> (r: u64)
    ensures
        r == as_word(v@),
{
    match v {
        Value::Word(w) => *w,
        _ => 0,
    }
}

/// The last value written to an address, or zero where none was.
fn mem_lookup(pairs: &Vec<(u64, u64)>, addr: u64) -> (r: u64)
    ensures
        r == mem_get(pairs@, addr),
{
    let len = pairs.len();
    proof {
        assert(pairs@.subrange(0, len as int) =~= pairs@);
    }
    let mut j: usize = len;
    while j > 0
        invariant
            j <= len,
            len == pairs@.len(),
            mem_get(pairs@, addr) == mem_get(pairs@.subrange(0, j as int), addr),
        decreases j,
    {
        let ghost pre = pairs@.subrange(0, j as int);
        j = j - 1;
        let (a, v) = pairs[j];
        proof {
            assert(pre.last() == pairs@[j as int]);
            assert(pre.drop_last() =~= pairs@.subrange(0, j as int));
        }
        if a == addr {
            return v;
        }
    }
    proof {
        assert(pairs@.subrange(0, 0) =~= Seq::<(u64, u64)>::empty());
    }
    0
}

/// Computes the value of every node under the given state assignment, in one
/// pass over the arena.
pub fn eval_all(m: &Model, sv: &Vec<Value>) -> (r: Vec<Value>)
    requires
        lines_wf(m.lines@),
        sv@.len() == m.lines@.len(),
    ensures
        r@.len() == m.lines@.len(),
        forall|i: int| 0 <= i < r@.len() ==> #[trigger] r@[i]@ == eval(m.lines@, views(sv@), i),
{
    let len = m.lines.len();
    let mut vals: Vec<Value> = Vec::new();
    let mut i: usize = 0;
    while i < len
        invariant
            i <= len,
            len == m.lines@.len(),
            sv@.len() == m.lines@.len(),
            lines_wf(m.lines@),
            vals@.len() == i as int,
            forall|j: int| 0 <= j < i as int ==> #[trigger] vals@[j]@ == eval(m.lines@, views(sv@), j),
        decreases len - i,
    {
        proof {
            assert(refs_ok(m.lines@, i as int));
            assert(node_ok(m.lines@.subrange(0, i as int), m.lines@[i as int]));
        }
        let v: Value = match &m.lines[i] {
            Node::Const { sort, imm, .. } => match sort {
                NodeType::Bit => Value::Bit(*imm != 0),
                NodeType::Word => Value::Word(*imm),
                NodeType::Memory => Value::Mem(Vec::new()),
            },
            Node::Read { memory, address, .. } => {
                let addr = get_word(&vals[*address]);
                let w = match &vals[*memory] {
                    Value::Mem(pairs) => mem_lookup(pairs, addr),
                    _ => 0,
                };
                proof {
                    assert(vals@[*memory as int]@ == eval(m.lines@, views(sv@), *memory as int));
                }
                Value::Word(w)
            },
            Node::Write { memory, address, value, .. } => {
                let addr = get_word(&vals[*address]);
                let val = get_word(&vals[*value]);
                let mem = value_copy(&vals[*memory]);
                match mem {
                    Value::Mem(mut pairs) => {
                        pairs.push((addr, val));
                        Value::Mem(pairs)
                    },
                    _ => {
                        let mut pairs: Vec<(u64, u64)> = Vec::new();
                        pairs.push((addr, val));
                        Value::Mem(pairs)
                    },
                }
            },
            Node::Add { left, right, .. } => Value::Word(
                get_word(&vals[*left]).wrapping_add(get_word(&vals[*right])),
            ),
            Node::Sub { left, right, .. } => Value::Word(
                get_word(&vals[*left]).wrapping_sub(get_word(&vals[*right])),
            ),
            Node::Rem { left, right, .. } => {
                let l = get_word(&vals[*left]);
                let r = get_word(&vals[*right]);
                if r == 0 {
                    Value::Word(l)
                } else {
                    Value::Word(l % r)
                }
            },
            Node::Ite { cond, left, right, .. } => {
                if get_bit(&vals[*cond]) {
                    value_copy(&vals[*left])
                } else {
                    value_copy(&vals[*right])
                }
            },
            Node::Eq { left, right, .. } => Value::Bit(
                get_word(&vals[*left]) == get_word(&vals[*right]),
            ),
            Node::And { left, right, .. } => Value::Bit(
                get_bit(&vals[*left]) && get_bit(&vals[*right]),
            ),
            Node::Not { value, .. } => Value::Bit(!get_bit(&vals[*value])),
            Node::State { .. } => value_copy(&sv[i]),
            Node::Next { .. } => Value::Word(0),
            Node::Bad { .. } => Value::Word(0),
            Node::Comment(_) => Value::Word(0),
        };
        proof {
            assert(views(sv@).len() == sv@.len());
            assert(views(sv@)[i as int] == sv@[i as int]@);
            assert(v@ == eval(m.lines@, views(sv@), i as int));
        }
        vals.push(v);
        i = i + 1;
    }
    vals
}

/// Builds the initial state assignment of a model from the declared initial
/// values, in one pass over the arena.
pub fn init_state(m: &Model) -> (r: Vec<Value>)
    requires
        lines_wf(m.lines@),
    ensures
        r@.len() == m.lines@.len(),
        forall|i: int| 0 <= i < r@.len() ==> #[trigger] r@[i]@ == einit(m.lines@, i),
{
    let len = m.lines.len();
    let mut vals: Vec<Value> = Vec::new();
    let mut i: usize = 0;
    while i < len
        invariant
            i <= len,
            len == m.lines@.len(),
            lines_wf(m.lines@),
            vals@.len() == i as int,
            forall|j: int| 0 <= j < i as int ==> #[trigger] vals@[j]@ == einit(m.lines@, j),
        decreases len - i,
    {
        proof {
            assert(refs_ok(m.lines@, i as int));
            assert(node_ok(m.lines@.subrange(0, i as int), m.lines@[i as int]));
        }
        let v: Value = match &m.lines[i] {
            Node::Const { sort, imm, .. } => match sort {
                NodeType::Bit => Value::Bit(*imm != 0),
                NodeType::Word => Value::Word(*imm),
                NodeType::Memory => Value::Mem(Vec::new()),
            },
            Node::State { sort, init, .. } => match init {
                Some(rr) => value_copy(&vals[*rr]),
                None => match sort {
                    NodeType::Bit => Value::Bit(false),
                    NodeType::Word => Value::Word(0),
                    NodeType::Memory => Value::Mem(Vec::new()),
                },
            },
            _ => Value::Word(0),
        };
        proof {
            assert(v@ == einit(m.lines@, i as int));
        }
        vals.push(v);
        i = i + 1;
    }
    vals
}

/// The state assignment after one step: each `Next` node, in order, replaces
/// its state's entry with the value of its `next` expression under the old
/// assignment.
pub open spec fn step(lines: Seq<Node>, seqs: Seq<NodeRef>, sv: Seq<ValueView>) -> Seq<ValueView>
    decreases seqs.len(),
{
    if seqs.len() == 0 {
        sv
    } else {
        let prev = step(lines, seqs.drop_last(), sv);
        let s = seqs.last();
        if s < lines.len() {
            match lines[s as int] {
                Node::Next { state, next, .. } => prev.update(
                    state as int,
                    eval(lines, sv, next as int),
                ),
                _ => prev,
            }
        } else {
            prev
        }
    }
}

/// Advances every state of the model by one step, evaluating all `next`
/// relations against the old assignment simultaneously.
pub fn step_model(m: &Model, sv: &Vec<Value>) -> (r: Vec<Value>)
    requires
        model_wf(*m),
        sv@.len() == m.lines@.len(),
    ensures
        views(r@) == step(m.lines@, m.sequentials@, views(sv@)),
{
    let vals = eval_all(m, sv);
    let mut new_sv: Vec<Value> = Vec::new();
    let svlen = sv.len();
    let mut i: usize = 0;
    while i < svlen
        invariant
            i <= svlen,
            svlen == sv@.len(),
            new_sv@.len() == i as int,
            forall|j: int| 0 <= j < i as int ==> #[trigger] new_sv@[j]@ == sv@[j]@,
        decreases svlen - i,
    {
        let v = value_copy(&sv[i]);
        new_sv.push(v);
        i = i + 1;
    }
    proof {
        assert(views(new_sv@) =~= views(sv@));
    }
    let nseq = m.sequentials.len();
    let mut s: usize = 0;
    while s < nseq
        invariant
            s <= nseq,
            nseq == m.sequentials@.len(),
            model_wf(*m),
            sv@.len() == m.lines@.len(),
            vals@.len() == m.lines@.len(),
            forall|j: int|
                0 <= j < vals@.len() ==> #[trigger] vals@[j]@ == eval(m.lines@, views(sv@), j),
            views(new_sv@) == step(m.lines@, m.sequentials@.subrange(0, s as int), views(sv@)),
            new_sv@.len() == sv@.len(),
        decreases nseq - s,
    {
        let ghost pre_seqs = m.sequentials@.subrange(0, s as int);
        let nref = m.sequentials[s];
        proof {
            assert(m.lines@[m.sequentials@[s as int] as int] is Next);
            assert(m.sequentials@.subrange(0, s as int + 1).drop_last() =~= pre_seqs);
            assert(m.sequentials@.subrange(0, s as int + 1).last() == m.sequentials@[s as int]);
            assert(refs_ok(m.lines@, nref as int));
            assert(node_ok(m.lines@.subrange(0, nref as int), m.lines@[nref as int]));
        }
        match &m.lines[nref] {
            Node::Next { state, next, .. } => {
                let v = value_copy(&vals[*next]);
                new_sv.set(*state, v);
                proof {
                    assert(views(new_sv@) =~= step(
                        m.lines@,
                        m.sequentials@.subrange(0, s as int + 1),
                        views(sv@),
                    ));
                }
            },
            _ => {},
        }
        s = s + 1;
    }
    proof {
        assert(m.sequentials@.subrange(0, m.sequentials@.len() as int) =~= m.sequentials@);
    }
    new_sv
}

} // verus!
