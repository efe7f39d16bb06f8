//! Code that builds transactions with one input and one output.

use crate::builder::{IndexedVariable, ProgramBuilder};
use crate::ir::{InstructionView, Operation, Variable};
use crate::typing::{defined, lemma_spends_concat, spends, step};
use vstd::prelude::*;

verus! {

/// The start of a transaction that spends `funding`, up to the list of its
/// outputs. `n` is the number of the first variable it defines; the transaction
/// under construction is `n + 2`, its inputs are `n + 5` and its outputs `n + 6`.
pub open spec fn open_tx_code(n: int, funding: int) -> Seq<InstructionView> {
    seq![
        step(seq![], Operation::LoadTxVersion(2)),
        step(seq![], Operation::LoadLockTime(0)),
        step(seq![n, n + 1], Operation::BeginBuildTx),
        step(seq![], Operation::BeginBuildTxInputs),
        step(seq![], Operation::LoadSequence(0xfffffffe)),
        step(seq![n + 3, funding, n + 4], Operation::AddTxInput),
        step(seq![n + 3], Operation::EndBuildTxInputs),
        step(seq![n + 5], Operation::BeginBuildTxOutputs),
    ]
}

/// The types of the variables that [`open_tx_code`] defines.
pub open spec fn open_tx_vars() -> Seq<Variable> {
    seq![
        Variable::TxVersion,
        Variable::LockTime,
        Variable::MutTx,
        Variable::MutTxInputs,
        Variable::Sequence,
        Variable::ConstTxInputs,
        Variable::MutTxOutputs,
    ]
}

/// The end of the transaction that [`open_tx_code`] started at variable `start`:
/// one output of `amount` to `scripts`. `n` is the number of the first variable
/// it defines; the finished transaction is `n + 2`.
pub open spec fn close_tx_code(n: int, start: int, scripts: int, amount: u64) -> Seq<
    InstructionView,
> {
    seq![
        step(seq![], Operation::LoadAmount(amount)),
        step(seq![start + 6, scripts, n], Operation::AddTxOutput),
        step(seq![start + 6], Operation::EndBuildTxOutputs),
        step(seq![start + 2, start + 5, n + 1], Operation::EndBuildTx),
    ]
}

/// The types of the variables that [`close_tx_code`] defines.
pub open spec fn close_tx_vars() -> Seq<Variable> {
    seq![Variable::Amount, Variable::ConstTxOutputs, Variable::ConstTx]
}

/// A transaction that spends `funding` and pays `amount` to `scripts`. `n` is the
/// number of the first variable it defines; the transaction is `n + 9`.
pub open spec fn single_output_tx_code(n: int, funding: int, scripts: int, amount: u64) -> Seq<
    InstructionView,
> {
    open_tx_code(n, funding) + close_tx_code(n + 7, n, scripts, amount)
}

/// A transaction that spends `funding` and pays `amount` to an anchor. `n` is the
/// number of the first variable it defines; the transaction is `n + 10`.
pub open spec fn child_tx_code(n: int, funding: int, amount: u64) -> Seq<InstructionView> {
    open_tx_code(n, funding) + seq![step(seq![], Operation::BuildPayToAnchor)] + close_tx_code(
        n + 8,
        n,
        n + 7,
        amount,
    )
}

/// A transaction under construction whose outputs are still to come.
pub struct OpenTx {
    pub tx: IndexedVariable,
    pub inputs: IndexedVariable,
    pub outputs: IndexedVariable,
}

impl OpenTx {
    /// The number of the first variable of the code that started it.
    pub open spec fn start(self) -> int {
        self.tx.index - 2
    }

    /// Whether this is the transaction that [`open_tx_code`] started at variable
    /// `start`, and `vars` holds its variables.
    pub open spec fn started_at(self, start: int, vars: Seq<Variable>) -> bool {
        &&& 0 <= start
        &&& start + 7 <= vars.len()
        &&& self.tx.index == start + 2 && vars[start + 2] == Variable::MutTx
        &&& self.inputs.index == start + 5 && vars[start + 5] == Variable::ConstTxInputs
        &&& self.outputs.index == start + 6 && vars[start + 6] == Variable::MutTxOutputs
    }
}

/// Starts a transaction that spends the output `funding_txo_index`.
pub(crate) fn open_tx(builder: &mut ProgramBuilder, funding_txo_index: usize) -> (r: OpenTx)
    requires
        old(builder).wf(),
        old(builder)@.holds(funding_txo_index as int, Variable::Txo),
    ensures
        final(builder).wf(),
        final(builder)@ == old(builder)@.then_code(
            open_tx_code(defined(old(builder)@.code).len() as int, funding_txo_index as int),
        ),
        defined(final(builder)@.code) == defined(old(builder)@.code) + open_tx_vars(),
        r.started_at(defined(old(builder)@.code).len() as int, defined(final(builder)@.code)),
{
    let tx_version_var = builder.force_append_expect_output(vec![], Operation::LoadTxVersion(2));
    let tx_lock_time_var = builder.force_append_expect_output(vec![], Operation::LoadLockTime(0));
    let tx = builder.force_append_expect_output(
        vec![tx_version_var.index, tx_lock_time_var.index],
        Operation::BeginBuildTx,
    );
    let mut_inputs_var = builder.force_append_expect_output(vec![], Operation::BeginBuildTxInputs);
    let sequence_var = builder.force_append_expect_output(
        vec![],
        Operation::LoadSequence(0xfffffffe),
    );
    builder.force_append(
        vec![mut_inputs_var.index, funding_txo_index, sequence_var.index],
        Operation::AddTxInput,
    );
    let inputs = builder.force_append_expect_output(
        vec![mut_inputs_var.index],
        Operation::EndBuildTxInputs,
    );
    let outputs = builder.force_append_expect_output(
        vec![inputs.index],
        Operation::BeginBuildTxOutputs,
    );
    proof {
        let n = defined(old(builder)@.code).len() as int;
        assert(builder@.code =~~= old(builder)@.code + open_tx_code(n, funding_txo_index as int));
        assert(defined(builder@.code) =~= defined(old(builder)@.code) + open_tx_vars());
    }
    OpenTx { tx, inputs, outputs }
}

/// Finishes a transaction with one output of `amount` to `scripts_index`.
pub(crate) fn close_tx(
    builder: &mut ProgramBuilder,
    open: &OpenTx,
    scripts_index: usize,
    amount: u64,
) -> (r: IndexedVariable)
    requires
        old(builder).wf(),
        open.started_at(open.start(), defined(old(builder)@.code)),
        old(builder)@.holds(scripts_index as int, Variable::Scripts),
    ensures
        final(builder).wf(),
        final(builder)@ == old(builder)@.then_code(
            close_tx_code(
                defined(old(builder)@.code).len() as int,
                open.start(),
                scripts_index as int,
                amount,
            ),
        ),
        defined(final(builder)@.code) == defined(old(builder)@.code) + close_tx_vars(),
        r.index == defined(old(builder)@.code).len() + 2,
        r.var == Variable::ConstTx,
{
    let amount_var = builder.force_append_expect_output(vec![], Operation::LoadAmount(amount));
    builder.force_append(
        vec![open.outputs.index, scripts_index, amount_var.index],
        Operation::AddTxOutput,
    );
    let outputs_var = builder.force_append_expect_output(
        vec![open.outputs.index],
        Operation::EndBuildTxOutputs,
    );
    let r = builder.force_append_expect_output(
        vec![open.tx.index, open.inputs.index, outputs_var.index],
        Operation::EndBuildTx,
    );
    proof {
        let n = defined(old(builder)@.code).len() as int;
        assert(builder@.code =~~= old(builder)@.code + close_tx_code(
            n,
            open.start(),
            scripts_index as int,
            amount,
        ));
        assert(defined(builder@.code) =~= defined(old(builder)@.code) + close_tx_vars());
    }
    r
}

/// Builds a transaction that spends `funding_txo_index` and pays `amount` to
/// `scripts_index`.
pub fn build_single_output_tx(
    builder: &mut ProgramBuilder,
    funding_txo_index: usize,
    scripts_index: usize,
    amount: u64,
) -> (r: IndexedVariable)
    requires
        old(builder).wf(),
        old(builder)@.holds(funding_txo_index as int, Variable::Txo),
        old(builder)@.holds(scripts_index as int, Variable::Scripts),
    ensures
        final(builder).wf(),
        final(builder)@ == old(builder)@.then_code(
            single_output_tx_code(
                defined(old(builder)@.code).len() as int,
                funding_txo_index as int,
                scripts_index as int,
                amount,
            ),
        ),
        defined(final(builder)@.code) == defined(old(builder)@.code) + open_tx_vars()
            + close_tx_vars(),
        r.index == defined(old(builder)@.code).len() + 9,
        r.var == Variable::ConstTx,
{
    let ghost n = defined(builder@.code).len() as int;
    let open = open_tx(builder, funding_txo_index);
    let r = close_tx(builder, &open, scripts_index, amount);
    assert(builder@.code =~= old(builder)@.code + single_output_tx_code(
        n,
        funding_txo_index as int,
        scripts_index as int,
        amount,
    ));
    r
}

/// Builds a transaction that spends `funding_txo` and pays `amount` to an anchor.
pub fn build_child_tx(builder: &mut ProgramBuilder, funding_txo: IndexedVariable, amount: u64) -> (r:
    IndexedVariable)
    requires
        old(builder).wf(),
        old(builder)@.holds(funding_txo.index as int, Variable::Txo),
    ensures
        final(builder).wf(),
        final(builder)@ == old(builder)@.then_code(
            child_tx_code(
                defined(old(builder)@.code).len() as int,
                funding_txo.index as int,
                amount,
            ),
        ),
        defined(final(builder)@.code) == defined(old(builder)@.code) + open_tx_vars().push(
            Variable::Scripts,
        ) + close_tx_vars(),
        r.index == defined(old(builder)@.code).len() + 10,
        r.var == Variable::ConstTx,
{
    let ghost n = defined(builder@.code).len() as int;
    let open = open_tx(builder, funding_txo.index);
    let scripts_var = builder.force_append_expect_output(vec![], Operation::BuildPayToAnchor);
    let r = close_tx(builder, &open, scripts_var.index, amount);
    assert(builder@.code =~~= old(builder)@.code + child_tx_code(
        n,
        funding_txo.index as int,
        amount,
    ));
    assert(defined(builder@.code) =~= defined(old(builder)@.code) + open_tx_vars().push(
        Variable::Scripts,
    ) + close_tx_vars());
    r
}

/// The start of a transaction spends its funding, and its end spends nothing.
pub proof fn lemma_tx_spends(n: int, funding: int, start: int, scripts: int, amount: u64)
    ensures
        spends(open_tx_code(n, funding)) == seq![funding],
        spends(close_tx_code(n, start, scripts, amount)) == Seq::<int>::empty(),
{
    let open = open_tx_code(n, funding);
    let close = close_tx_code(n, start, scripts, amount);
    reveal_with_fuel(spends, 9);
    assert(open.drop_last().drop_last().drop_last().drop_last().drop_last().drop_last().drop_last().drop_last()
        =~= seq![]);
    assert(open.drop_last().drop_last().last().operation is AddTxInput);
    assert(spends(open) =~= seq![funding]);
    assert(close.drop_last().drop_last().drop_last().drop_last() =~= seq![]);
    assert(spends(close) =~= seq![]);
}

/// A transaction with one output spends its funding and nothing else.
pub proof fn lemma_single_output_tx_spends(n: int, funding: int, scripts: int, amount: u64)
    ensures
        spends(single_output_tx_code(n, funding, scripts, amount)) == seq![funding],
{
    lemma_tx_spends(n, funding, n, scripts, amount);
    lemma_tx_spends(n + 7, funding, n, scripts, amount);
    lemma_spends_concat(open_tx_code(n, funding), close_tx_code(n + 7, n, scripts, amount));
    assert(seq![funding] + Seq::<int>::empty() =~= seq![funding]);
}

/// A child spends its funding and nothing else.
pub proof fn lemma_child_tx_spends(n: int, funding: int, amount: u64)
    ensures
        spends(child_tx_code(n, funding, amount)) == seq![funding],
{
    let open = open_tx_code(n, funding);
    let anchor = seq![step(seq![], Operation::<Seq<u8>>::BuildPayToAnchor)];
    lemma_tx_spends(n, funding, n, n + 7, amount);
    lemma_tx_spends(n + 8, funding, n, n + 7, amount);
    lemma_no_spend(anchor);
    lemma_spends_concat(open, anchor);
    lemma_spends_concat(open + anchor, close_tx_code(n + 8, n, n + 7, amount));
    assert(seq![funding] + Seq::<int>::empty() =~= seq![funding]);
}

/// Code without transaction inputs spends nothing.
pub proof fn lemma_no_spend(code: Seq<InstructionView>)
    requires
        forall|i: int| 0 <= i < code.len() ==> !((#[trigger] code[i]).operation is AddTxInput),
    ensures
        spends(code) == Seq::<int>::empty(),
    decreases code.len(),
{
    if code.len() > 0 {
        lemma_no_spend(code.drop_last());
    }
}

} // verus!
