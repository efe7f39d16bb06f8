//! What the code of the generators does when it is run.

use super::address::{
    entries_code, law_one_relayable_record_is_enough, law_relayable_records_keep_their_order,
    law_what_can_be_relayed, relayable, relays_some, AddrRelayGenerator, AddrRelayPlan,
    AddrRelayV2Generator, RelayKind,
};
use super::getaddr::{asks_for_addresses, getaddr_code, GetAddrGenerator};
use super::taproot::{
    annex_code, annex_view, annexed, relay_code, script_parent_code, KeyPathPlan, ScriptPathPlan,
    TaprootKeyPathGenerator, TaprootScriptPathGenerator,
};
use super::taproot_tree::{
    deep_nodes, hidden_code, leaf_code, leaf_views, leaves_code, HiddenNode, LeafView,
    TaprootTreeSpendGenerator, TreeSpendPlan,
};
use super::tx::{child_tx_code, close_tx_code, open_tx_code, single_output_tx_code};
use super::{Generator, GeneratorError, GeneratorResult};
use crate::builder::ConnectionChoice;
use crate::ir::{AddrNetwork, AddrRecord, InstructionView, Operation, ProgramView};
use crate::meaning::{
    law_values_have_their_types, lemma_run_concat, lemma_run_take, meaning, Machine, Message,
    Scripts, TaprootSpend, TreeNode, Tx, TxIn, TxOut, Txo, TxoSource, Value,
};
use crate::tapscript::DEFAULT_LEAF_VERSION;
use crate::typing::{defined, step, well_typed};
use vstd::prelude::*;

verus! {

/// A transaction of version 2 without a lock time that spends `txo`, signals
/// replacement, and has one output.
pub open spec fn simple_tx(txo: Txo, scripts: Scripts, amount: u64) -> Tx {
    Tx {
        version: 2,
        lock_time: 0,
        inputs: seq![TxIn { txo, sequence: 0xfffffffe }],
        outputs: seq![TxOut { scripts, amount }],
    }
}

/// The first output of a transaction, to be spent with an annex or without.
pub open spec fn output_of(tx: Tx, annex: Option<Seq<u8>>) -> Txo {
    Txo { source: TxoSource::FirstOf(Box::new(tx)), annex }
}

/// What the start of a transaction does.
proof fn lemma_open_tx(m: Machine, n: int, funding: int)
    requires
        n == m.vars.len(),
        0 <= funding < n,
    ensures
        ({
            let inputs = seq![TxIn { txo: m.vars[funding]->Txo_0, sequence: 0xfffffffe }];
            m.run(open_tx_code(n, funding)) == (Machine {
                vars: m.vars + seq![
                    Value::TxVersion(2),
                    Value::LockTime(0),
                    Value::TxHead { version: 2, lock_time: 0 },
                    Value::Inputs(inputs),
                    Value::Sequence(0xfffffffe),
                    Value::Inputs(inputs),
                    Value::Outputs(seq![]),
                ],
                sent: m.sent,
            })
        }),
{
    let code = open_tx_code(n, funding);
    let inputs = seq![TxIn { txo: m.vars[funding]->Txo_0, sequence: 0xfffffffe }];
    lemma_run_take(m, code, 0);
    lemma_run_take(m, code, 1);
    lemma_run_take(m, code, 2);
    lemma_run_take(m, code, 3);
    lemma_run_take(m, code, 4);
    lemma_run_take(m, code, 5);
    lemma_run_take(m, code, 6);
    lemma_run_take(m, code, 7);
    let m5 = m.run(code.take(5));
    assert(m5.vars =~= m.vars + seq![
        Value::TxVersion(2),
        Value::LockTime(0),
        Value::TxHead { version: 2, lock_time: 0 },
        Value::Inputs(seq![]),
        Value::Sequence(0xfffffffe),
    ]);
    let m6 = m.run(code.take(6));
    assert(Seq::<TxIn>::empty().push(inputs[0]) =~= inputs);
    assert(m6.vars =~= m.vars + seq![
        Value::TxVersion(2),
        Value::LockTime(0),
        Value::TxHead { version: 2, lock_time: 0 },
        Value::Inputs(inputs),
        Value::Sequence(0xfffffffe),
    ]);
    assert(m.run(code).vars =~= m.vars + seq![
        Value::TxVersion(2),
        Value::LockTime(0),
        Value::TxHead { version: 2, lock_time: 0 },
        Value::Inputs(inputs),
        Value::Sequence(0xfffffffe),
        Value::Inputs(inputs),
        Value::Outputs(seq![]),
    ]);
}

/// What the end of a transaction does.
proof fn lemma_close_tx(m: Machine, n: int, start: int, scripts: int, amount: u64)
    requires
        n == m.vars.len(),
        0 <= start,
        start + 7 <= n,
        0 <= scripts < n,
        m.vars[start + 2] is TxHead,
        m.vars[start + 5] is Inputs,
        m.vars[start + 6] == Value::Outputs(seq![]),
        m.vars[scripts] is Scripts,
    ensures
        ({
            let outputs = seq![TxOut { scripts: m.vars[scripts]->Scripts_0, amount }];
            m.run(close_tx_code(n, start, scripts, amount)) == (Machine {
                vars: m.vars.update(start + 6, Value::Outputs(outputs)) + seq![
                    Value::Amount(amount),
                    Value::Outputs(outputs),
                    Value::Tx(
                        Tx {
                            version: m.vars[start + 2]->version,
                            lock_time: m.vars[start + 2]->lock_time,
                            inputs: m.vars[start + 5]->Inputs_0,
                            outputs,
                        },
                    ),
                ],
                sent: m.sent,
            })
        }),
{
    let code = close_tx_code(n, start, scripts, amount);
    let outputs = seq![TxOut { scripts: m.vars[scripts]->Scripts_0, amount }];
    lemma_run_take(m, code, 0);
    lemma_run_take(m, code, 1);
    lemma_run_take(m, code, 2);
    lemma_run_take(m, code, 3);
    assert(Seq::<TxOut>::empty().push(outputs[0]) =~= outputs);
    let m2 = m.run(code.take(2));
    assert(m2.vars =~= m.vars.update(start + 6, Value::Outputs(outputs)) + seq![
        Value::Amount(amount),
    ]);
    assert(m.run(code).vars =~= m.vars.update(start + 6, Value::Outputs(outputs)) + seq![
        Value::Amount(amount),
        Value::Outputs(outputs),
        Value::Tx(
            Tx {
                version: m.vars[start + 2]->version,
                lock_time: m.vars[start + 2]->lock_time,
                inputs: m.vars[start + 5]->Inputs_0,
                outputs,
            },
        ),
    ]);
}

/// What a transaction to given scripts does.
proof fn lemma_single_output_tx(m: Machine, n: int, funding: int, scripts: int, amount: u64)
    requires
        n == m.vars.len(),
        0 <= funding < n,
        0 <= scripts < n,
        m.vars[scripts] is Scripts,
    ensures
        ({
            let after = m.run(single_output_tx_code(n, funding, scripts, amount));
            &&& after.keeps(m)
            &&& after.vars.len() == n + 10
            &&& after.vars[n + 9] == Value::Tx(
                simple_tx(m.vars[funding]->Txo_0, m.vars[scripts]->Scripts_0, amount),
            )
            &&& after.sent == m.sent
        }),
{
    lemma_run_concat(m, open_tx_code(n, funding), close_tx_code(n + 7, n, scripts, amount));
    lemma_open_tx(m, n, funding);
    let opened = m.run(open_tx_code(n, funding));
    lemma_close_tx(opened, n + 7, n, scripts, amount);
}

/// What a transaction to an anchor does.
proof fn lemma_child_tx(m: Machine, n: int, funding: int, amount: u64)
    requires
        n == m.vars.len(),
        0 <= funding < n,
    ensures
        ({
            let after = m.run(child_tx_code(n, funding, amount));
            &&& after.keeps(m)
            &&& after.vars.len() == n + 11
            &&& after.vars[n + 10] == Value::Tx(
                simple_tx(m.vars[funding]->Txo_0, Scripts::Anchor, amount),
            )
            &&& after.sent == m.sent
        }),
{
    let open = open_tx_code(n, funding);
    let anchor = seq![step(seq![], Operation::<Seq<u8>>::BuildPayToAnchor)];
    let close = close_tx_code(n + 8, n, n + 7, amount);
    lemma_run_concat(m, open + anchor, close);
    lemma_run_concat(m, open, anchor);
    lemma_open_tx(m, n, funding);
    let opened = m.run(open);
    lemma_run_take(opened, anchor, 0);
    let ready = opened.run(anchor);
    assert(ready.vars =~= opened.vars.push(Value::Scripts(Scripts::Anchor)));
    lemma_close_tx(ready, n + 8, n, n + 7, amount);
}

/// What relaying a parent and its child does.
proof fn lemma_relay(m: Machine, n: int, connection: ConnectionChoice, parent: int, child: int)
    requires
        n == m.vars.len(),
        0 <= parent < n,
        0 <= child < n,
        connection matches ConnectionChoice::Known(v) ==> v < n,
    ensures
        ({
            let after = m.run(relay_code(n, connection, parent, child));
            &&& after.keeps(m)
            &&& after.sent == m.sent + seq![
                Message::Tx {
                    connection: m.connection(connection),
                    tx: m.vars[parent]->Tx_0,
                },
                Message::Tx { connection: m.connection(connection), tx: m.vars[child]->Tx_0 },
            ]
        }),
{
    let sends = seq![
        step(seq![connection.variable(n), parent], Operation::<Seq<u8>>::SendTx),
        step(seq![connection.variable(n), child], Operation::<Seq<u8>>::SendTx),
    ];
    lemma_run_concat(m, connection.code(), sends);
    lemma_connect(m, n, connection);
    let connected = m.run(connection.code());
    lemma_run_take(connected, sends, 0);
    lemma_run_take(connected, sends, 1);
    assert(connected.run(sends).sent =~= m.sent + seq![
        Message::Tx { connection: m.connection(connection), tx: m.vars[parent]->Tx_0 },
        Message::Tx { connection: m.connection(connection), tx: m.vars[child]->Tx_0 },
    ]);
}

/// What choosing a connection does.
proof fn lemma_connect(m: Machine, n: int, connection: ConnectionChoice)
    requires
        n == m.vars.len(),
        connection matches ConnectionChoice::Known(v) ==> v < n,
    ensures
        ({
            let after = m.run(connection.code());
            &&& after.keeps(m)
            &&& after.vars.len() == n + connection.loads().len()
            &&& 0 <= connection.variable(n) < after.vars.len()
            &&& after.vars[connection.variable(n)]->Connection_0 == m.connection(connection)
            &&& after.sent == m.sent
        }),
{
    match connection {
        ConnectionChoice::Known(_) => {},
        ConnectionChoice::Load(_) => {
            lemma_run_take(m, connection.code(), 0);
        },
    }
}

/// What a key path spend does: it sends two transactions on one connection. The first
/// spends the funding and pays 50,000 to a Taproot output without scripts; the second
/// spends that output and pays less to an anchor. Nothing else is sent, and the
/// variables of the program keep their values.
pub proof fn law_key_path_sends_parent_and_child(plan: KeyPathPlan, program: ProgramView)
    requires
        well_typed(program.code),
        plan.drawn_from(program),
    ensures
        ({
            let before = meaning(program.code);
            let after = meaning(
                program.then_code(plan.code(defined(program.code).len() as int)).code,
            );
            let parent = simple_tx(
                before.vars[plan.funding_txo as int]->Txo_0,
                Scripts::Taproot(
                    TaprootSpend { secret_key: plan.secret_key, nodes: seq![], selected: None },
                ),
                50_000,
            );
            let child = simple_tx(output_of(parent, None), Scripts::Anchor, plan.child_amount);
            let connection = before.connection(plan.connection);
            &&& after.sent == before.sent + seq![
                Message::Tx { connection, tx: parent },
                Message::Tx { connection, tx: child },
            ]
            &&& after.keeps(before)
            &&& 5_000 <= plan.child_amount < 20_000
        }),
{
    let n = defined(program.code).len() as int;
    let m = meaning(program.code);
    let funding = plan.funding_txo as int;
    law_values_have_their_types(program.code);
    lemma_run_concat(Machine { vars: seq![], sent: seq![] }, program.code, plan.code(n));
    let p1 = open_tx_code(n, funding);
    let p2 = seq![
        step(seq![], Operation::BuildTaprootKeypair { secret_key: plan.secret_key }),
        step(seq![], Operation::BeginTaprootTree),
        step(seq![n + 8, n + 7], Operation::EndTaprootTree { selected_leaf_index: None }),
        step(seq![n + 9], Operation::BuildPayToTaproot),
    ];
    let p3 = close_tx_code(n + 11, n, n + 10, 50_000);
    let p4 = seq![step(seq![n + 13], Operation::TakeTxo)];
    let p5 = child_tx_code(n + 15, n + 14, plan.child_amount);
    let p6 = relay_code(n + 26, plan.connection, n + 13, n + 25);
    lemma_run_concat(m, p1 + p2 + p3 + p4 + p5, p6);
    lemma_run_concat(m, p1 + p2 + p3 + p4, p5);
    lemma_run_concat(m, p1 + p2 + p3, p4);
    lemma_run_concat(m, p1 + p2, p3);
    lemma_run_concat(m, p1, p2);
    lemma_open_tx(m, n, funding);
    let m1 = m.run(p1);
    lemma_run_take(m1, p2, 0);
    lemma_run_take(m1, p2, 1);
    lemma_run_take(m1, p2, 2);
    lemma_run_take(m1, p2, 3);
    let m2 = m1.run(p2);
    let spend = TaprootSpend { secret_key: plan.secret_key, nodes: seq![], selected: None };
    assert(m2.vars =~= m1.vars + seq![
        Value::Keypair(plan.secret_key),
        Value::Tree(seq![]),
        Value::Spend(spend),
        Value::Scripts(Scripts::Taproot(spend)),
    ]);
    lemma_close_tx(m2, n + 11, n, n + 10, 50_000);
    let m3 = m2.run(p3);
    lemma_run_take(m3, p4, 0);
    let m4 = m3.run(p4);
    lemma_child_tx(m4, n + 15, n + 14, plan.child_amount);
    let m5 = m4.run(p5);
    assert(m5.vars[n + 13] == m4.vars[n + 13]);
    lemma_relay(m5, n + 26, plan.connection, n + 13, n + 25);
}

/// What giving an output an annex does.
proof fn lemma_annex(m: Machine, n: int, txo: int, annex: Option<Seq<u8>>)
    requires
        n == m.vars.len(),
        0 <= txo < n,
        m.vars[txo] is Txo,
        m.vars[txo]->Txo_0.annex is None,
    ensures
        ({
            let after = m.run(annex_code(n, txo, annex));
            &&& after.keeps(m)
            &&& after.vars.len() == n + (if annex is Some {
                2int
            } else {
                0
            })
            &&& after.vars[annexed(n, txo, annex)] == Value::Txo(
                Txo { source: m.vars[txo]->Txo_0.source, annex },
            )
            &&& after.sent == m.sent
        }),
{
    let code = annex_code(n, txo, annex);
    if annex is Some {
        lemma_run_take(m, code, 0);
        lemma_run_take(m, code, 1);
    }
}

/// What the parent of a script path spend does.
proof fn lemma_script_parent(
    m: Machine,
    n: int,
    funding: int,
    secret_key: [u8; 32],
    script: Seq<u8>,
    depth: u8,
)
    requires
        n == m.vars.len(),
        0 <= funding < n,
    ensures
        ({
            let after = m.run(script_parent_code(n, funding, secret_key, script, depth));
            let leaf = TreeNode::Leaf { script, version: DEFAULT_LEAF_VERSION, depth };
            let parent = simple_tx(
                m.vars[funding]->Txo_0,
                Scripts::Taproot(
                    TaprootSpend { secret_key, nodes: seq![leaf], selected: Some(0) },
                ),
                60_000,
            );
            &&& after.keeps(m)
            &&& after.vars.len() == n + 17
            &&& after.vars[n + 15] == Value::Tx(parent)
            &&& after.vars[n + 16] == Value::Txo(output_of(parent, None))
            &&& after.sent == m.sent
        }),
{
    let p1 = open_tx_code(n, funding);
    let p2 = seq![
        step(seq![], Operation::BuildTaprootKeypair { secret_key }),
        step(seq![], Operation::BeginTaprootTree),
        step(seq![], Operation::LoadBytes(script)),
        step(seq![], Operation::LoadTaprootLeafVersion(DEFAULT_LEAF_VERSION)),
        step(seq![n + 8, n + 9, n + 10], Operation::AddTapLeaf { depth }),
        step(seq![n + 8, n + 7], Operation::EndTaprootTree { selected_leaf_index: Some(0) }),
        step(seq![n + 11], Operation::BuildPayToTaproot),
    ];
    let p3 = close_tx_code(n + 13, n, n + 12, 60_000);
    let p4 = seq![step(seq![n + 15], Operation::TakeTxo)];
    lemma_run_concat(m, p1 + p2 + p3, p4);
    lemma_run_concat(m, p1 + p2, p3);
    lemma_run_concat(m, p1, p2);
    lemma_open_tx(m, n, funding);
    let m1 = m.run(p1);
    let leaf = TreeNode::Leaf { script, version: DEFAULT_LEAF_VERSION, depth };
    let spend = TaprootSpend { secret_key, nodes: seq![leaf], selected: Some(0) };
    lemma_run_take(m1, p2, 0);
    lemma_run_take(m1, p2, 1);
    lemma_run_take(m1, p2, 2);
    lemma_run_take(m1, p2, 3);
    lemma_run_take(m1, p2, 4);
    lemma_run_take(m1, p2, 5);
    lemma_run_take(m1, p2, 6);
    assert(m1.run(p2.take(4)).vars =~= m1.vars + seq![
        Value::Keypair(secret_key),
        Value::Tree(seq![]),
        Value::Bytes(script),
        Value::LeafVersion(DEFAULT_LEAF_VERSION),
    ]);
    assert(Seq::<TreeNode>::empty().push(leaf) =~= seq![leaf]);
    assert(m1.run(p2.take(5)).vars =~= m1.vars + seq![
        Value::Keypair(secret_key),
        Value::Tree(seq![leaf]),
        Value::Bytes(script),
        Value::LeafVersion(DEFAULT_LEAF_VERSION),
    ]);
    let m2 = m1.run(p2);
    assert(m2.vars =~= m1.vars + seq![
        Value::Keypair(secret_key),
        Value::Tree(seq![leaf]),
        Value::Bytes(script),
        Value::LeafVersion(DEFAULT_LEAF_VERSION),
        Value::Spend(spend),
        Value::Scripts(Scripts::Taproot(spend)),
    ]);
    lemma_close_tx(m2, n + 13, n, n + 12, 60_000);
    let m3 = m2.run(p3);
    lemma_run_take(m3, p4, 0);
}

/// What a script path spend does: it sends two transactions on one connection. The
/// first spends the funding and pays 60,000 to a Taproot output whose tree is the one
/// drawn leaf, which is selected; the second spends that output, with the drawn annex
/// if there is one, and pays less to an anchor. Nothing else is sent, and the
/// variables of the program keep their values.
pub proof fn law_script_path_sends_parent_and_child(plan: ScriptPathPlan, program: ProgramView)
    requires
        well_typed(program.code),
        plan.drawn_from(program),
    ensures
        ({
            let before = meaning(program.code);
            let after = meaning(
                program.then_code(plan.code(defined(program.code).len() as int)).code,
            );
            let leaf = TreeNode::Leaf { script: plan.script@, version: 0xc0, depth: plan.depth };
            let parent = simple_tx(
                before.vars[plan.funding_txo as int]->Txo_0,
                Scripts::Taproot(
                    TaprootSpend {
                        secret_key: plan.secret_key,
                        nodes: seq![leaf],
                        selected: Some(0),
                    },
                ),
                60_000,
            );
            let annex = match plan.annex {
                Some(annex) => Some(annex@),
                None => None,
            };
            let child = simple_tx(output_of(parent, annex), Scripts::Anchor, plan.child_amount);
            let connection = before.connection(plan.connection);
            &&& after.sent == before.sent + seq![
                Message::Tx { connection, tx: parent },
                Message::Tx { connection, tx: child },
            ]
            &&& after.keeps(before)
            &&& 5_000 <= plan.child_amount < 20_000
        }),
{
    let n = defined(program.code).len() as int;
    let m = meaning(program.code);
    let funding = plan.funding_txo as int;
    let annex = annex_view(plan.annex);
    let child = plan.child_start(n);
    law_values_have_their_types(program.code);
    lemma_run_concat(Machine { vars: seq![], sent: seq![] }, program.code, plan.code(n));
    let p1 = script_parent_code(n, funding, plan.secret_key, plan.script@, plan.depth);
    let p2 = annex_code(n + 17, n + 16, annex);
    let p3 = child_tx_code(child, plan.spent_txo(n), plan.child_amount);
    let p4 = relay_code(child + 11, plan.connection, n + 15, child + 10);
    lemma_run_concat(m, p1 + p2 + p3, p4);
    lemma_run_concat(m, p1 + p2, p3);
    lemma_run_concat(m, p1, p2);
    lemma_script_parent(m, n, funding, plan.secret_key, plan.script@, plan.depth);
    let m1 = m.run(p1);
    lemma_annex(m1, n + 17, n + 16, annex);
    let m2 = m1.run(p2);
    lemma_child_tx(m2, child, plan.spent_txo(n), plan.child_amount);
    let m3 = m2.run(p3);
    assert(m3.vars[n + 15] == m1.vars[n + 15]) by {
        assert(m3.vars[n + 15] == m2.vars[n + 15]);
    }
    assert(m3.keeps(m)) by {
        assert forall|v: int| 0 <= v < m.vars.len() implies #[trigger] m3.vars[v] == m.vars[v] by {
            assert(m3.vars[v] == m2.vars[v]);
            assert(m2.vars[v] == m1.vars[v]);
        }
    }
    lemma_relay(m3, child + 11, plan.connection, n + 15, child + 10);
    let m4 = m3.run(p4);
    assert(m4.keeps(m)) by {
        assert forall|v: int| 0 <= v < m.vars.len() implies #[trigger] m4.vars[v] == m.vars[v] by {
            assert(m4.vars[v] == m3.vars[v]);
        }
    }
}

/// The nodes of a list of hidden nodes.
pub open spec fn hidden_nodes(nodes: Seq<HiddenNode>) -> Seq<TreeNode> {
    nodes.map_values(|node: HiddenNode| TreeNode::Hidden { depth: node.depth, hash: node.hash })
}

/// The nodes of drawn leaves, in order: each leaf behind the hidden nodes that were
/// drawn before it.
pub open spec fn drawn_nodes(leaves: Seq<LeafView>) -> Seq<TreeNode>
    decreases leaves.len(),
{
    if leaves.len() == 0 {
        seq![]
    } else {
        let leaf = leaves.last();
        drawn_nodes(leaves.drop_last()) + hidden_nodes(leaf.hidden) + seq![
            TreeNode::Leaf { script: leaf.script, version: leaf.version, depth: leaf.depth },
        ]
    }
}

/// Whether `after` differs from `m` only in that the tree `tree` got `nodes`, and in
/// `more` new variables.
spec fn grew(m: Machine, after: Machine, tree: int, nodes: Seq<TreeNode>, more: int) -> bool {
    &&& after.vars.len() == m.vars.len() + more
    &&& after.vars[tree] == Value::Tree(m.vars[tree]->Tree_0 + nodes)
    &&& forall|v: int|
        0 <= v < m.vars.len() && v != tree ==> #[trigger] after.vars[v] == m.vars[v]
    &&& after.sent == m.sent
}

/// What adding hidden nodes does.
proof fn lemma_hidden(m: Machine, tree: int, nodes: Seq<HiddenNode>)
    requires
        0 <= tree < m.vars.len(),
        m.vars[tree] is Tree,
    ensures
        grew(m, m.run(hidden_code(tree, nodes)), tree, hidden_nodes(nodes), 0),
    decreases nodes.len(),
{
    let code = hidden_code(tree, nodes);
    if nodes.len() > 0 {
        let shorter = nodes.drop_last();
        lemma_hidden(m, tree, shorter);
        assert(code.drop_last() =~= hidden_code(tree, shorter));
        assert(hidden_nodes(nodes) =~= hidden_nodes(shorter).push(hidden_nodes(nodes).last()));
        let before = m.run(hidden_code(tree, shorter));
        assert((m.vars[tree]->Tree_0 + hidden_nodes(shorter)).push(hidden_nodes(nodes).last())
            =~= m.vars[tree]->Tree_0 + hidden_nodes(nodes));
    } else {
        assert(hidden_nodes(nodes) =~= seq![]);
        assert(m.vars[tree]->Tree_0 + hidden_nodes(nodes) =~= m.vars[tree]->Tree_0);
    }
}

/// What adding a leaf does.
proof fn lemma_leaf(m: Machine, tree: int, n: int, leaf: LeafView)
    requires
        n == m.vars.len(),
        0 <= tree < n,
        m.vars[tree] is Tree,
    ensures
        grew(
            m,
            m.run(leaf_code(tree, n, leaf)),
            tree,
            hidden_nodes(leaf.hidden) + seq![
                TreeNode::Leaf { script: leaf.script, version: leaf.version, depth: leaf.depth },
            ],
            2,
        ),
{
    let node = TreeNode::Leaf { script: leaf.script, version: leaf.version, depth: leaf.depth };
    let adds = seq![
        step(seq![], Operation::LoadBytes(leaf.script)),
        step(seq![], Operation::LoadTaprootLeafVersion(leaf.version)),
        step(seq![tree, n, n + 1], Operation::AddTapLeaf { depth: leaf.depth }),
    ];
    lemma_run_concat(m, hidden_code(tree, leaf.hidden), adds);
    lemma_hidden(m, tree, leaf.hidden);
    let m1 = m.run(hidden_code(tree, leaf.hidden));
    lemma_run_take(m1, adds, 0);
    lemma_run_take(m1, adds, 1);
    lemma_run_take(m1, adds, 2);
    let m2 = m1.run(adds.take(2));
    assert(m2.vars =~= m1.vars + seq![Value::Bytes(leaf.script), Value::LeafVersion(leaf.version)]);
    assert((m.vars[tree]->Tree_0 + hidden_nodes(leaf.hidden)).push(node) =~= m.vars[tree]->Tree_0
        + (hidden_nodes(leaf.hidden) + seq![node]));
}

/// What adding leaves does.
proof fn lemma_leaves(m: Machine, tree: int, n: int, leaves: Seq<LeafView>)
    requires
        n == m.vars.len(),
        0 <= tree < n,
        m.vars[tree] is Tree,
    ensures
        grew(
            m,
            m.run(leaves_code(tree, n, leaves)),
            tree,
            drawn_nodes(leaves),
            2 * leaves.len() as int,
        ),
    decreases leaves.len(),
{
    if leaves.len() > 0 {
        let shorter = leaves.drop_last();
        let leaf = leaves.last();
        lemma_leaves(m, tree, n, shorter);
        let m1 = m.run(leaves_code(tree, n, shorter));
        let at = n + 2 * (leaves.len() - 1);
        lemma_run_concat(m, leaves_code(tree, n, shorter), leaf_code(tree, at, leaf));
        lemma_leaf(m1, tree, at, leaf);
        let m2 = m1.run(leaf_code(tree, at, leaf));
        let more = hidden_nodes(leaf.hidden) + seq![
            TreeNode::Leaf { script: leaf.script, version: leaf.version, depth: leaf.depth },
        ];
        assert(m.vars[tree]->Tree_0 + drawn_nodes(shorter) + more =~= m.vars[tree]->Tree_0
            + drawn_nodes(leaves));
        assert forall|v: int| 0 <= v < m.vars.len() && v != tree implies #[trigger] m2.vars[v]
            == m.vars[v] by {
            assert(m2.vars[v] == m1.vars[v]);
        }
    } else {
        assert(m.vars[tree]->Tree_0 + drawn_nodes(leaves) =~= m.vars[tree]->Tree_0);
    }
}

/// What building the tree of a tree spend does.
proof fn lemma_tree(m: Machine, n: int, plan: TreeSpendPlan)
    requires
        n == m.vars.len(),
    ensures
        ({
            let after = m.run(plan.tree_code(n));
            let spend = TaprootSpend {
                secret_key: plan.secret_key,
                nodes: drawn_nodes(leaf_views(plan.leaves@)) + hidden_nodes(
                    deep_nodes(plan.deep_node),
                ),
                selected: Some(1),
            };
            &&& after.keeps(m)
            &&& after.vars.len() == plan.keypair(n) + 3
            &&& after.vars[plan.keypair(n) + 2] == Value::Scripts(Scripts::Taproot(spend))
            &&& after.sent == m.sent
        }),
{
    let key = plan.keypair(n);
    let leaves = leaf_views(plan.leaves@);
    let deep = deep_nodes(plan.deep_node);
    let t0 = seq![step(seq![], Operation::<Seq<u8>>::BeginTaprootTree)];
    let t1 = leaves_code(n, n + 1, leaves);
    let t2 = hidden_code(n, deep);
    let t3 = seq![
        step(seq![], Operation::BuildTaprootKeypair { secret_key: plan.secret_key }),
        step(seq![n, key], Operation::EndTaprootTree { selected_leaf_index: Some(1) }),
        step(seq![key + 1], Operation::BuildPayToTaproot),
    ];
    lemma_run_concat(m, t0 + t1 + t2, t3);
    lemma_run_concat(m, t0 + t1, t2);
    lemma_run_concat(m, t0, t1);
    lemma_run_take(m, t0, 0);
    let m0 = m.run(t0);
    assert(m0.vars =~= m.vars.push(Value::Tree(seq![])));
    lemma_leaves(m0, n, n + 1, leaves);
    let m1 = m0.run(t1);
    lemma_hidden(m1, n, deep);
    let m2 = m1.run(t2);
    let nodes = drawn_nodes(leaves) + hidden_nodes(deep);
    assert(Seq::<TreeNode>::empty() + drawn_nodes(leaves) =~= drawn_nodes(leaves));
    assert(m2.vars[n] == Value::Tree(nodes));
    lemma_run_take(m2, t3, 0);
    lemma_run_take(m2, t3, 1);
    lemma_run_take(m2, t3, 2);
    let m3 = m2.run(t3);
    assert forall|v: int| 0 <= v < m.vars.len() implies #[trigger] m3.vars[v] == m.vars[v] by {
        assert(m3.vars[v] == m2.vars[v]);
        assert(m2.vars[v] == m1.vars[v]);
        assert(m1.vars[v] == m0.vars[v]);
    }
}

/// What a tree spend does: it sends two transactions on one connection. The first
/// spends the funding and pays 79,500 to a Taproot output whose tree holds the drawn
/// leaves and hidden nodes and has its second leaf selected; the second spends that
/// output, with the drawn annex if there is one, and pays 79,000 to an anchor. Nothing
/// else is sent, and the variables of the program keep their values.
pub proof fn law_tree_spend_sends_parent_and_child(plan: TreeSpendPlan, program: ProgramView)
    requires
        well_typed(program.code),
        plan.drawn_from(program),
    ensures
        ({
            let before = meaning(program.code);
            let after = meaning(
                program.then_code(plan.code(defined(program.code).len() as int)).code,
            );
            let deep = match plan.deep_node {
                Some(node) => seq![TreeNode::Hidden { depth: node.depth, hash: node.hash }],
                None => seq![],
            };
            let parent = simple_tx(
                before.vars[plan.funding_txo as int]->Txo_0,
                Scripts::Taproot(
                    TaprootSpend {
                        secret_key: plan.secret_key,
                        nodes: drawn_nodes(leaf_views(plan.leaves@)) + deep,
                        selected: Some(1),
                    },
                ),
                79_500,
            );
            let annex = match plan.annex {
                Some(annex) => Some(annex@),
                None => None,
            };
            let child = simple_tx(output_of(parent, annex), Scripts::Anchor, 79_000);
            let connection = before.connection(plan.connection);
            &&& after.sent == before.sent + seq![
                Message::Tx { connection, tx: parent },
                Message::Tx { connection, tx: child },
            ]
            &&& after.keeps(before)
        }),
{
    let n = defined(program.code).len() as int;
    let m = meaning(program.code);
    let funding = plan.funding_txo as int;
    let annex = annex_view(plan.annex);
    let key = plan.keypair(n);
    let parent = plan.parent(n);
    let scripts = plan.child_scripts(n);
    let deep = match plan.deep_node {
        Some(node) => seq![TreeNode::Hidden { depth: node.depth, hash: node.hash }],
        None => seq![],
    };
    assert(hidden_nodes(deep_nodes(plan.deep_node)) =~= deep);
    law_values_have_their_types(program.code);
    lemma_run_concat(Machine { vars: seq![], sent: seq![] }, program.code, plan.code(n));
    let p0 = plan.tree_code(n);
    let p1 = single_output_tx_code(key + 3, funding, key + 2, 79_500);
    let p2 = seq![step(seq![parent], Operation::TakeTxo)];
    let p3 = annex_code(parent + 2, parent + 1, annex);
    let p4 = seq![step(seq![], Operation::<Seq<u8>>::BuildPayToAnchor)];
    let p5 = single_output_tx_code(scripts + 1, plan.spent_txo(n), scripts, 79_000);
    let p6 = relay_code(plan.child(n) + 1, plan.connection, parent, plan.child(n));
    lemma_run_concat(m, p0 + p1 + p2 + p3 + p4 + p5, p6);
    lemma_run_concat(m, p0 + p1 + p2 + p3 + p4, p5);
    lemma_run_concat(m, p0 + p1 + p2 + p3, p4);
    lemma_run_concat(m, p0 + p1 + p2, p3);
    lemma_run_concat(m, p0 + p1, p2);
    lemma_run_concat(m, p0, p1);
    lemma_tree(m, n, plan);
    let m0 = m.run(p0);
    assert(m0.vars[funding] == m.vars[funding]);
    lemma_single_output_tx(m0, key + 3, funding, key + 2, 79_500);
    let m1 = m0.run(p1);
    lemma_run_take(m1, p2, 0);
    let m2 = m1.run(p2);
    assert(m2.vars[parent] == m1.vars[parent]);
    lemma_annex(m2, parent + 2, parent + 1, annex);
    let m3 = m2.run(p3);
    lemma_run_take(m3, p4, 0);
    let m4 = m3.run(p4);
    assert(m4.vars[plan.spent_txo(n)] == m3.vars[plan.spent_txo(n)]);
    lemma_single_output_tx(m4, scripts + 1, plan.spent_txo(n), scripts, 79_000);
    let m5 = m4.run(p5);
    assert(m5.vars[parent] == m1.vars[parent]) by {
        assert(m5.vars[parent] == m4.vars[parent]);
        assert(m4.vars[parent] == m3.vars[parent]);
        assert(m3.vars[parent] == m2.vars[parent]);
    }
    assert forall|v: int| 0 <= v < m.vars.len() implies #[trigger] m5.vars[v] == m.vars[v] by {
        assert(m5.vars[v] == m4.vars[v]);
        assert(m4.vars[v] == m3.vars[v]);
        assert(m3.vars[v] == m2.vars[v]);
        assert(m2.vars[v] == m1.vars[v]);
        assert(m1.vars[v] == m0.vars[v]);
    }
    lemma_relay(m5, plan.child(n) + 1, plan.connection, parent, plan.child(n));
    let m6 = m5.run(p6);
    assert forall|v: int| 0 <= v < m.vars.len() implies #[trigger] m6.vars[v] == m.vars[v] by {
        assert(m6.vars[v] == m5.vars[v]);
    }
}

/// What asking for addresses does: it sends one request on the connection, and nothing
/// else.
pub proof fn law_getaddr_sends_one_request(program: ProgramView, connection: ConnectionChoice)
    requires
        well_typed(program.code),
        connection.usable_in(program),
    ensures
        ({
            let before = meaning(program.code);
            let after = meaning(
                program.then_code(
                    getaddr_code(defined(program.code).len() as int, connection),
                ).code,
            );
            &&& after.sent == before.sent.push(
                Message::GetAddr { connection: before.connection(connection) },
            )
            &&& after.keeps(before)
        }),
{
    let n = defined(program.code).len() as int;
    let m = meaning(program.code);
    law_values_have_their_types(program.code);
    let ask = seq![step(seq![connection.variable(n)], Operation::<Seq<u8>>::SendGetAddr)];
    lemma_run_concat(
        Machine { vars: seq![], sent: seq![] },
        program.code,
        getaddr_code(n, connection),
    );
    lemma_run_concat(m, connection.code(), ask);
    lemma_connect(m, n, connection);
    lemma_run_take(m.run(connection.code()), ask, 0);
}

/// What putting records into a list does.
proof fn lemma_entries_effect(
    m: Machine,
    kind: RelayKind,
    list: int,
    records: Seq<AddrRecord<Seq<u8>>>,
    order: Seq<usize>,
)
    requires
        m.vars.len() == list + 1,
        0 <= list,
        m.vars[list] == Value::Addrs(seq![]),
    ensures
        ({
            let after = m.run(entries_code(kind, list, records, order));
            &&& after.vars.len() == list + 1 + order.len()
            &&& after.vars[list] == Value::Addrs(order.map_values(|k: usize| records[k as int]))
            &&& forall|v: int| 0 <= v < list ==> #[trigger] after.vars[v] == m.vars[v]
            &&& after.sent == m.sent
        }),
    decreases order.len(),
{
    if order.len() > 0 {
        let shorter = order.drop_last();
        let record = records[order.last() as int];
        lemma_entries_effect(m, kind, list, records, shorter);
        let m1 = m.run(entries_code(kind, list, records, shorter));
        let adds = seq![
            step(seq![], Operation::LoadAddr(record)),
            step(seq![list, list + order.len()], kind.put()),
        ];
        lemma_run_concat(m, entries_code(kind, list, records, shorter), adds);
        lemma_run_take(m1, adds, 0);
        lemma_run_take(m1, adds, 1);
        assert(shorter.map_values(|k: usize| records[k as int]).push(record) =~= order.map_values(
            |k: usize| records[k as int],
        ));
    } else {
        assert(order.map_values(|k: usize| records[k as int]) =~= seq![]);
    }
}

/// What an address relay does: it sends one message on the connection, of the asked
/// kind, with the drawn records in the drawn order. Nothing else is sent, and the
/// variables of the program keep their values.
pub proof fn law_relay_sends_the_drawn_records(
    kind: RelayKind,
    plan: AddrRelayPlan,
    program: ProgramView,
    records: Seq<AddrRecord<Seq<u8>>>,
)
    requires
        well_typed(program.code),
        plan.drawn_from(program, records.len()),
    ensures
        ({
            let before = meaning(program.code);
            let after = meaning(
                program.then_code(
                    plan.code(kind, defined(program.code).len() as int, records),
                ).code,
            );
            let connection = before.connection(plan.connection);
            let relayed = plan.order@.map_values(|k: usize| records[k as int]);
            &&& kind == RelayKind::Addr ==> after.sent == before.sent.push(
                Message::Addr { connection, records: relayed },
            )
            &&& kind == RelayKind::AddrV2 ==> after.sent == before.sent.push(
                Message::AddrV2 { connection, records: relayed },
            )
            &&& after.keeps(before)
            &&& 1 <= relayed.len() <= 16
        }),
{
    let n = defined(program.code).len() as int;
    let m = meaning(program.code);
    law_values_have_their_types(program.code);
    let list = n + plan.connection.loads().len();
    let done = list + 1 + plan.order@.len();
    let p0 = plan.connection.code();
    let p1 = seq![step(seq![], kind.begin::<Seq<u8>>())];
    let p2 = entries_code(kind, list, records, plan.order@);
    let p3 = seq![
        step(seq![list], kind.end::<Seq<u8>>()),
        step(seq![plan.connection.variable(n), done], kind.send::<Seq<u8>>()),
    ];
    lemma_run_concat(
        Machine { vars: seq![], sent: seq![] },
        program.code,
        plan.code(kind, n, records),
    );
    lemma_run_concat(m, p0 + p1 + p2, p3);
    lemma_run_concat(m, p0 + p1, p2);
    lemma_run_concat(m, p0, p1);
    lemma_connect(m, n, plan.connection);
    let m0 = m.run(p0);
    lemma_run_take(m0, p1, 0);
    let m1 = m0.run(p1);
    lemma_entries_effect(m1, kind, list, records, plan.order@);
    let m2 = m1.run(p2);
    lemma_run_take(m2, p3, 0);
    lemma_run_take(m2, p3, 1);
    let m3 = m2.run(p3);
    assert(m2.vars[plan.connection.variable(n)] == m0.vars[plan.connection.variable(n)]) by {
        assert(m2.vars[plan.connection.variable(n)] == m1.vars[plan.connection.variable(n)]);
    }
    assert forall|v: int| 0 <= v < m.vars.len() implies #[trigger] m3.vars[v] == m.vars[v] by {
        assert(m3.vars[v] == m2.vars[v]);
        assert(m2.vars[v] == m1.vars[v]);
        assert(m1.vars[v] == m0.vars[v]);
    }
}

/// A program asks for addresses exactly if it sends a request for them when it is run.
pub proof fn law_asking_is_sending(code: Seq<InstructionView>)
    ensures
        asks_for_addresses(code) <==> exists|k: int|
            0 <= k < meaning(code).sent.len() && (#[trigger] meaning(code).sent[k]) is GetAddr,
    decreases code.len(),
{
    if code.len() > 0 {
        let shorter = code.drop_last();
        let before = meaning(shorter);
        let after = meaning(code);
        law_asking_is_sending(shorter);
        assert(after == before.obey(code.last()));
        assert(after.sent.len() >= before.sent.len());
        assert forall|k: int| 0 <= k < before.sent.len() implies #[trigger] after.sent[k]
            == before.sent[k] by {}
        if asks_for_addresses(shorter) {
            let i = choose|i: int|
                0 <= i < shorter.len() && (#[trigger] shorter[i]).operation is SendGetAddr;
            assert(code[i].operation is SendGetAddr);
            let k = choose|k: int|
                0 <= k < before.sent.len() && (#[trigger] before.sent[k]) is GetAddr;
            assert(after.sent[k] is GetAddr);
        }
        if code.last().operation is SendGetAddr {
            assert(code[code.len() - 1].operation is SendGetAddr);
            assert(after.sent[before.sent.len() as int] is GetAddr);
        }
        if asks_for_addresses(code) {
            let i = choose|i: int|
                0 <= i < code.len() && (#[trigger] code[i]).operation is SendGetAddr;
            if i < shorter.len() {
                assert(shorter[i].operation is SendGetAddr);
            }
        }
        if exists|k: int| 0 <= k < after.sent.len() && (#[trigger] after.sent[k]) is GetAddr {
            let k = choose|k: int|
                0 <= k < after.sent.len() && (#[trigger] after.sent[k]) is GetAddr;
            if k < before.sent.len() {
                assert(before.sent[k] is GetAddr);
            }
        }
    }
}

/// Whether a record can be relayed by a message of the kind: `addr` relays `V1` records,
/// `addrv2` all `V2` records but those of Tor v2.
pub open spec fn suits(kind: RelayKind, record: AddrRecord<Seq<u8>>) -> bool {
    match record {
        AddrRecord::V1 { .. } => kind == RelayKind::Addr,
        AddrRecord::V2 { network, .. } => kind == RelayKind::AddrV2 && network
            != AddrNetwork::TorV2,
    }
}

/// What comes of an address relay generator: it fails in the context exactly if none of its
/// records suits the message; else it sends one message, with one to sixteen of the records
/// that suit it.
pub proof fn law_address_relay(
    kind: RelayKind,
    records: Seq<AddrRecord<Seq<u8>>>,
    before: ProgramView,
    after: ProgramView,
    result: GeneratorResult,
)
    requires
        well_typed(before.code),
        relays_some(kind, records, before, after, result),
    ensures
        result is Err <==> forall|i: int|
            0 <= i < records.len() ==> !suits(kind, #[trigger] records[i]),
        result is Err ==> result == Err::<(), GeneratorError>(
            GeneratorError::InvalidContext(before.context),
        ),
        result is Ok ==> exists|connection: usize, relayed: Seq<AddrRecord<Seq<u8>>>|
            {
                &&& meaning(after.code).sent == #[trigger] meaning(before.code).sent.push(
                    relay_message(kind, connection, relayed),
                )
                &&& 1 <= relayed.len() <= 16
                &&& forall|k: int|
                    0 <= k < relayed.len() ==> suits(kind, #[trigger] relayed[k])
                        && records.contains(relayed[k])
            },
        result is Ok ==> after.context == before.context,
{
    let usable = relayable(kind, records);
    if exists|i: int| 0 <= i < records.len() && suits(kind, #[trigger] records[i]) {
        let i = choose|i: int| 0 <= i < records.len() && suits(kind, #[trigger] records[i]);
        law_one_relayable_record_is_enough(kind, records, i);
    }
    if usable.len() > 0 {
        lemma_relayable_suits(kind, records, 0);
        let plan = choose|plan: AddrRelayPlan|
            #[trigger] plan.drawn_from(before, usable.len()) && after == before.then_code(
                plan.code(kind, defined(before.code).len() as int, usable),
            );
        law_relay_sends_the_drawn_records(kind, plan, before, usable);
        let relayed = plan.order@.map_values(|k: usize| usable[k as int]);
        let connection = meaning(before.code).connection(plan.connection);
        assert forall|k: int| 0 <= k < relayed.len() implies suits(kind, #[trigger] relayed[k])
            && records.contains(relayed[k]) by {
            assert(plan.order@[k] < usable.len());
            lemma_relayable_suits(kind, records, plan.order@[k] as int);
        }
        assert(meaning(after.code).sent == meaning(before.code).sent.push(
            relay_message(kind, connection, relayed),
        ));
    }
}

/// The message that relays records.
pub open spec fn relay_message(
    kind: RelayKind,
    connection: usize,
    records: Seq<AddrRecord<Seq<u8>>>,
) -> Message {
    match kind {
        RelayKind::Addr => Message::Addr { connection, records },
        RelayKind::AddrV2 => Message::AddrV2 { connection, records },
    }
}

/// What can be relayed is among the records and suits the message.
proof fn lemma_relayable_suits(kind: RelayKind, records: Seq<AddrRecord<Seq<u8>>>, i: int)
    requires
        0 <= i < relayable(kind, records).len(),
    ensures
        suits(kind, relayable(kind, records)[i]),
        records.contains(relayable(kind, records)[i]),
    decreases records.len(),
{
    if records.len() == 0 {
        reveal(Seq::filter);
        assert(false);
    }
    let shorter = records.drop_last();
    let last = seq![records.last()];
    assert(records =~= shorter + last);
    law_relayable_records_keep_their_order(kind, shorter, last);
    law_what_can_be_relayed(records.last());
    let found = relayable(kind, records)[i];
    if i < relayable(kind, shorter).len() {
        lemma_relayable_suits(kind, shorter, i);
        let k = choose|k: int| 0 <= k < shorter.len() && shorter[k] == found;
        assert(records[k] == found);
    } else {
        assert(found == relayable(kind, last)[i - relayable(kind, shorter).len()]);
        assert(records[records.len() - 1] == found);
    }
}

/// When a generator can be asked: always where there is a connection to send on; without
/// one, where there is nothing to send. A request for addresses can always be asked for.
pub proof fn law_generators_are_ready(
    program: ProgramView,
    addr: AddrRelayGenerator,
    addr_v2: AddrRelayV2Generator,
)
    ensures
        GetAddrGenerator.ready(program),
        program.can_connect() || !program.can_fund() ==> TaprootKeyPathGenerator.ready(program)
            && TaprootScriptPathGenerator.ready(program) && TaprootTreeSpendGenerator.ready(
            program,
        ),
        program.can_connect() ==> addr.ready(program) && addr_v2.ready(program),
        (forall|i: int|
            0 <= i < addr.records().len() ==> !suits(RelayKind::Addr, #[trigger] addr.records()[i]))
            ==> addr.ready(program),
        (forall|i: int|
            0 <= i < addr_v2.records().len() ==> !suits(
                RelayKind::AddrV2,
                #[trigger] addr_v2.records()[i],
            )) ==> addr_v2.ready(program),
{
    if relayable(RelayKind::Addr, addr.records()).len() > 0 {
        lemma_relayable_suits(RelayKind::Addr, addr.records(), 0);
        let found = relayable(RelayKind::Addr, addr.records())[0];
        let i = choose|i: int| 0 <= i < addr.records().len() && addr.records()[i] == found;
        assert(suits(RelayKind::Addr, addr.records()[i]));
    }
    if relayable(RelayKind::AddrV2, addr_v2.records()).len() > 0 {
        lemma_relayable_suits(RelayKind::AddrV2, addr_v2.records(), 0);
        let found = relayable(RelayKind::AddrV2, addr_v2.records())[0];
        let i = choose|i: int| 0 <= i < addr_v2.records().len() && addr_v2.records()[i] == found;
        assert(suits(RelayKind::AddrV2, addr_v2.records()[i]));
    }
}

} // verus!
