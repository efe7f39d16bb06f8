//! Which variables a program defines, and when its instructions fit them.

use crate::ir::{InstructionView, Operation, ProgramView, Variable};
use vstd::prelude::*;

verus! {

/// The instruction that carries out `operation` on the variables `inputs`.
pub open spec fn step(inputs: Seq<int>, operation: Operation<Seq<u8>>) -> InstructionView {
    InstructionView { inputs, operation }
}

/// The types of the variables that `code` defines, in the order of their numbers.
pub open spec fn defined(code: Seq<InstructionView>) -> Seq<Variable>
    decreases code.len(),
{
    if code.len() == 0 {
        seq![]
    } else {
        defined(code.drop_last()) + code.last().operation.gives()
    }
}

/// Whether an instruction reads as many variables as its operation takes, each
/// of them one of `vars` and of the type the operation wants there.
pub open spec fn fits(instruction: InstructionView, vars: Seq<Variable>) -> bool {
    &&& instruction.inputs.len() == instruction.operation.takes().len()
    &&& forall|k: int|
        0 <= k < instruction.inputs.len() ==> {
            &&& 0 <= #[trigger] instruction.inputs[k] < vars.len()
            &&& vars[instruction.inputs[k]] == instruction.operation.takes()[k]
        }
}

/// Whether every instruction of `code` fits the variables defined before it.
pub open spec fn well_typed(code: Seq<InstructionView>) -> bool {
    forall|i: int| 0 <= i < code.len() ==> fits(#[trigger] code[i], defined(code.take(i)))
}

/// Whether the variable `v` of `code` is the previous output of a transaction
/// input.
pub open spec fn spent(code: Seq<InstructionView>, v: int) -> bool {
    exists|i: int|
        0 <= i < code.len() && (#[trigger] code[i]).operation is AddTxInput && code[i].inputs.len()
            > 1 && code[i].inputs[1] == v
}

/// Whether `v` is an output that `code` knows and does not spend.
pub open spec fn unspent(code: Seq<InstructionView>, v: int) -> bool {
    &&& 0 <= v < defined(code).len()
    &&& defined(code)[v] == Variable::Txo
    &&& !spent(code, v)
}

impl ProgramView {
    /// This program with `more` behind it.
    pub open spec fn then_code(self, more: Seq<InstructionView>) -> ProgramView {
        ProgramView { context: self.context, code: self.code + more }
    }

    /// Whether `v` is a variable of type `t`.
    pub open spec fn holds(self, v: int, t: Variable) -> bool {
        &&& 0 <= v < defined(self.code).len()
        &&& defined(self.code)[v] == t
    }

    /// Whether the program has a connection, or its context one to load.
    pub open spec fn can_connect(self) -> bool {
        self.context.num_connections > 0 || exists|v: int| self.holds(v, Variable::Connection)
    }

    /// Whether some output is left to spend.
    pub open spec fn can_fund(self) -> bool {
        exists|v: int| unspent(self.code, v)
    }
}

/// What one more instruction defines comes behind what was defined.
pub proof fn lemma_defined_push(code: Seq<InstructionView>, instruction: InstructionView)
    ensures
        defined(code.push(instruction)) == defined(code) + instruction.operation.gives(),
{
    assert(code.push(instruction).drop_last() =~= code);
}

/// An instruction that fits what a well-typed program defines can follow it.
pub proof fn lemma_well_typed_push(code: Seq<InstructionView>, instruction: InstructionView)
    requires
        well_typed(code),
        fits(instruction, defined(code)),
    ensures
        well_typed(code.push(instruction)),
{
    let longer = code.push(instruction);
    assert forall|i: int| 0 <= i < longer.len() implies fits(
        #[trigger] longer[i],
        defined(longer.take(i)),
    ) by {
        assert(longer.take(i) =~= code.take(i));
        if i == code.len() {
            assert(code.take(i) =~= code);
        } else {
            assert(longer[i] == code[i]);
        }
    }
}

/// Code that follows leaves the variables of the code before it as they were.
pub proof fn lemma_defined_prefix(code: Seq<InstructionView>, more: Seq<InstructionView>)
    ensures
        defined(code).is_prefix_of(defined(code + more)),
    decreases more.len(),
{
    if more.len() == 0 {
        assert(code + more =~= code);
    } else {
        lemma_defined_prefix(code, more.drop_last());
        assert(code + more =~= (code + more.drop_last()).push(more.last()));
        lemma_defined_push(code + more.drop_last(), more.last());
    }
}

/// The instruction of `code` that defines variable `v`.
pub open spec fn producer(code: Seq<InstructionView>, v: int) -> Option<int>
    decreases code.len(),
{
    if code.len() == 0 {
        None
    } else if defined(code.drop_last()).len() <= v < defined(code).len() {
        Some(code.len() - 1)
    } else {
        producer(code.drop_last(), v)
    }
}

/// A variable has a producer exactly if it is defined.
pub proof fn lemma_producer_defined(code: Seq<InstructionView>, v: int)
    ensures
        producer(code, v) is Some <==> 0 <= v < defined(code).len(),
        producer(code, v) matches Some(p) ==> 0 <= p < code.len(),
    decreases code.len(),
{
    if code.len() > 0 {
        lemma_producer_defined(code.drop_last(), v);
    }
}

/// The producer of a variable is the one instruction whose variables it is among.
pub proof fn law_producer_defines(code: Seq<InstructionView>, v: int)
    requires
        0 <= v < defined(code).len(),
    ensures
        producer(code, v) matches Some(p) && 0 <= p < code.len() && defined(code.take(p)).len() <= v
            < defined(code.take(p + 1)).len() && defined(code)[v] == code[p].operation.gives()[v
            - defined(code.take(p)).len()],
    decreases code.len(),
{
    let shorter = code.drop_last();
    let n = code.len() as int;
    if defined(shorter).len() <= v {
        assert(code.take(n - 1) =~= shorter);
        assert(code.take(n) =~= code);
    } else {
        law_producer_defines(shorter, v);
        let p = producer(shorter, v)->0;
        assert(code.take(p) =~= shorter.take(p));
        assert(code.take(p + 1) =~= shorter.take(p + 1));
    }
}

/// In a well-typed program a variable is defined before it is read: the producer
/// of each input comes before the instruction, and gives the type it wants.
pub proof fn law_inputs_are_defined_before(code: Seq<InstructionView>, i: int, k: int)
    requires
        well_typed(code),
        0 <= i < code.len(),
        0 <= k < code[i].inputs.len(),
    ensures
        producer(code, code[i].inputs[k]) matches Some(p) && 0 <= p < i,
        defined(code)[code[i].inputs[k]] == code[i].operation.takes()[k],
{
    let v = code[i].inputs[k];
    let before = code.take(i);
    assert(fits(code[i], defined(before)));
    assert(before + code.skip(i) =~= code);
    lemma_defined_prefix(before, code.skip(i));
    assert(defined(code).take(defined(before).len() as int)[v] == defined(before)[v]);
    law_producer_defines(code, v);
    let p = producer(code, v)->0;
    if p >= i {
        assert(code.take(p) =~= before + code.subrange(i, p));
        lemma_defined_prefix(before, code.subrange(i, p));
    }
}

/// The outputs that the transaction inputs of `code` spend, in order.
pub open spec fn spends(code: Seq<InstructionView>) -> Seq<int>
    decreases code.len(),
{
    if code.len() == 0 {
        seq![]
    } else {
        let last = code.last();
        if last.operation is AddTxInput && last.inputs.len() > 1 {
            spends(code.drop_last()).push(last.inputs[1])
        } else {
            spends(code.drop_last())
        }
    }
}

/// What code spends is what its parts spend.
pub proof fn lemma_spends_concat(a: Seq<InstructionView>, b: Seq<InstructionView>)
    ensures
        spends(a + b) == spends(a) + spends(b),
    decreases b.len(),
{
    if b.len() == 0 {
        assert(a + b =~= a);
        assert(spends(a) + spends(b) =~= spends(a));
    } else {
        assert((a + b).drop_last() =~= a + b.drop_last());
        lemma_spends_concat(a, b.drop_last());
        assert(spends(a + b) =~= spends(a) + spends(b));
    }
}

/// An output is spent exactly if it is among what is spent.
pub proof fn lemma_spent_iff(code: Seq<InstructionView>, v: int)
    ensures
        spent(code, v) <==> spends(code).contains(v),
    decreases code.len(),
{
    if code.len() > 0 {
        let shorter = code.drop_last();
        let last = code.last();
        lemma_spent_iff(shorter, v);
        if spent(shorter, v) {
            let i = choose|i: int|
                0 <= i < shorter.len() && (#[trigger] shorter[i]).operation is AddTxInput
                    && shorter[i].inputs.len() > 1 && shorter[i].inputs[1] == v;
            assert(code[i].operation is AddTxInput);
            let k = choose|k: int| 0 <= k < spends(shorter).len() && spends(shorter)[k] == v;
            assert(spends(code)[k] == v);
        }
        if last.operation is AddTxInput && last.inputs.len() > 1 && last.inputs[1] == v {
            assert(code[code.len() - 1].operation is AddTxInput);
            assert(spends(code)[spends(code).len() - 1] == v);
        }
        if spent(code, v) {
            let i = choose|i: int|
                0 <= i < code.len() && (#[trigger] code[i]).operation is AddTxInput
                    && code[i].inputs.len() > 1 && code[i].inputs[1] == v;
            if i < shorter.len() {
                assert(shorter[i].operation is AddTxInput);
            }
        }
        if spends(code).contains(v) {
            let k = choose|k: int| 0 <= k < spends(code).len() && spends(code)[k] == v;
            if k < spends(shorter).len() {
                assert(spends(shorter)[k] == v);
            }
        }
    }
}

/// Code that spends `funding` and then only outputs that it makes itself takes
/// `funding` from the outputs that were left to spend, and no other.
pub proof fn lemma_only_funding_is_spent(
    code: Seq<InstructionView>,
    more: Seq<InstructionView>,
    funding: int,
    own: int,
    v: int,
)
    requires
        spends(more) == seq![funding, own],
        own >= defined(code).len(),
        0 <= v < defined(code).len(),
    ensures
        unspent(code + more, v) <==> unspent(code, v) && v != funding,
{
    lemma_spends_concat(code, more);
    lemma_spent_iff(code, v);
    lemma_spent_iff(code + more, v);
    lemma_defined_prefix(code, more);
    assert(defined(code + more).take(defined(code).len() as int)[v] == defined(code)[v]);
    let both = spends(code) + spends(more);
    if spends(code).contains(v) {
        let k = choose|k: int| 0 <= k < spends(code).len() && spends(code)[k] == v;
        assert(both[k] == v);
    }
    if v == funding {
        assert(both[spends(code).len() as int] == v);
    }
    if both.contains(v) {
        let k = choose|k: int| 0 <= k < both.len() && both[k] == v;
        if k < spends(code).len() {
            assert(spends(code)[k] == v);
        }
    }
}

/// Code that spends two outputs has spent the second.
pub proof fn lemma_second_is_spent(
    code: Seq<InstructionView>,
    more: Seq<InstructionView>,
    first: int,
    second: int,
)
    requires
        spends(more) == seq![first, second],
    ensures
        spent(code + more, second),
{
    lemma_spends_concat(code, more);
    lemma_spent_iff(code + more, second);
    assert((spends(code) + spends(more))[spends(code).len() as int + 1] == second);
}

/// Whether a program can pay for a spend, and whether it can reach a node: it has an output
/// that no transaction input spends; it has a connection, or its context numbers one.
pub proof fn law_funds_and_connections(program: ProgramView)
    ensures
        program.can_fund() <==> exists|v: int|
            0 <= v < defined(program.code).len() && #[trigger] defined(program.code)[v]
                == Variable::Txo && !spends(program.code).contains(v),
        program.can_connect() <==> program.context.num_connections != 0 || defined(
            program.code,
        ).contains(Variable::Connection),
{
    let vars = defined(program.code);
    if program.can_fund() {
        let v = choose|v: int| unspent(program.code, v);
        lemma_spent_iff(program.code, v);
        assert(vars[v] == Variable::Txo);
    }
    if exists|v: int|
        0 <= v < vars.len() && #[trigger] vars[v] == Variable::Txo && !spends(
            program.code,
        ).contains(v) {
        let v = choose|v: int|
            0 <= v < vars.len() && #[trigger] vars[v] == Variable::Txo && !spends(
                program.code,
            ).contains(v);
        lemma_spent_iff(program.code, v);
        assert(unspent(program.code, v));
    }
    if vars.contains(Variable::Connection) {
        let v = choose|v: int| 0 <= v < vars.len() && vars[v] == Variable::Connection;
        assert(program.holds(v, Variable::Connection));
    }
    if exists|v: int| program.holds(v, Variable::Connection) {
        let v = choose|v: int| program.holds(v, Variable::Connection);
        assert(vars[v] == Variable::Connection);
    }
}

} // verus!
