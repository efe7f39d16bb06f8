//! What a program does when it is run: the values of its variables and the messages
//! it sends.

use crate::builder::ConnectionChoice;
use crate::ir::{AddrRecord, InstructionView, Operation, Variable};
use crate::typing::{defined, fits, well_typed};
use vstd::prelude::*;

verus! {

/// A node of a Taproot tree.
#[verifier::ext_equal]
pub enum TreeNode {
    Leaf { script: Seq<u8>, version: u8, depth: u8 },
    Hidden { depth: u8, hash: [u8; 32] },
}

/// A finished Taproot tree: how an output that pays to it is spent.
#[verifier::ext_equal]
pub struct TaprootSpend {
    pub secret_key: [u8; 32],
    pub nodes: Seq<TreeNode>,
    pub selected: Option<u8>,
}

/// What an output pays to.
#[verifier::ext_equal]
pub enum Scripts {
    Anchor,
    Taproot(TaprootSpend),
}

/// An output of a transaction.
#[verifier::ext_equal]
pub struct TxOut {
    pub scripts: Scripts,
    pub amount: u64,
}

/// Where an output to spend comes from.
#[verifier::ext_equal]
pub enum TxoSource {
    /// It exists before the program runs.
    Given { txid: [u8; 32], vout: u32, value: u64 },
    /// It is the first output of a transaction.
    FirstOf(Box<Tx>),
}

/// An output to spend, and the annex to spend it with.
#[verifier::ext_equal]
pub struct Txo {
    pub source: TxoSource,
    pub annex: Option<Seq<u8>>,
}

/// An input of a transaction.
#[verifier::ext_equal]
pub struct TxIn {
    pub txo: Txo,
    pub sequence: u32,
}

/// A transaction.
#[verifier::ext_equal]
pub struct Tx {
    pub version: u32,
    pub lock_time: u32,
    pub inputs: Seq<TxIn>,
    pub outputs: Seq<TxOut>,
}

/// The value of a variable.
#[verifier::ext_equal]
pub enum Value {
    Bytes(Seq<u8>),
    Connection(usize),
    TxVersion(u32),
    LockTime(u32),
    Sequence(u32),
    Amount(u64),
    Txo(Txo),
    Scripts(Scripts),
    TxHead { version: u32, lock_time: u32 },
    Tx(Tx),
    Inputs(Seq<TxIn>),
    Outputs(Seq<TxOut>),
    Keypair([u8; 32]),
    LeafVersion(u8),
    Annex(Seq<u8>),
    Tree(Seq<TreeNode>),
    Spend(TaprootSpend),
    Addr(AddrRecord<Seq<u8>>),
    Addrs(Seq<AddrRecord<Seq<u8>>>),
}

/// A message to a node.
#[verifier::ext_equal]
pub enum Message {
    Tx { connection: usize, tx: Tx },
    Addr { connection: usize, records: Seq<AddrRecord<Seq<u8>>> },
    AddrV2 { connection: usize, records: Seq<AddrRecord<Seq<u8>>> },
    GetAddr { connection: usize },
}

/// A program that is being run: the values of its variables, and what it has sent.
#[verifier::ext_equal]
pub struct Machine {
    pub vars: Seq<Value>,
    pub sent: Seq<Message>,
}

impl Machine {
    /// With one more variable.
    pub open spec fn define(self, value: Value) -> Machine {
        Machine { vars: self.vars.push(value), sent: self.sent }
    }

    /// With another value for a variable.
    pub open spec fn assign(self, v: int, value: Value) -> Machine {
        Machine { vars: self.vars.update(v, value), sent: self.sent }
    }

    /// With one more message sent.
    pub open spec fn send(self, message: Message) -> Machine {
        Machine { vars: self.vars, sent: self.sent.push(message) }
    }

    /// The value of the variable that is input `k` of an instruction.
    pub open spec fn input(self, instruction: InstructionView, k: int) -> Value {
        self.vars[instruction.inputs[k]]
    }

    /// After one instruction.
    pub open spec fn obey(self, i: InstructionView) -> Machine {
        match i.operation {
            Operation::LoadBytes(bytes) => self.define(Value::Bytes(bytes)),
            Operation::LoadConnection(n) => self.define(Value::Connection(n)),
            Operation::LoadTxVersion(version) => self.define(Value::TxVersion(version)),
            Operation::LoadLockTime(time) => self.define(Value::LockTime(time)),
            Operation::LoadSequence(sequence) => self.define(Value::Sequence(sequence)),
            Operation::LoadAmount(amount) => self.define(Value::Amount(amount)),
            Operation::LoadTxo { txid, vout, value } => self.define(
                Value::Txo(Txo { source: TxoSource::Given { txid, vout, value }, annex: None }),
            ),
            Operation::BeginBuildTx => self.define(
                Value::TxHead {
                    version: self.input(i, 0)->TxVersion_0,
                    lock_time: self.input(i, 1)->LockTime_0,
                },
            ),
            Operation::EndBuildTx => self.define(
                Value::Tx(
                    Tx {
                        version: self.input(i, 0)->version,
                        lock_time: self.input(i, 0)->lock_time,
                        inputs: self.input(i, 1)->Inputs_0,
                        outputs: self.input(i, 2)->Outputs_0,
                    },
                ),
            ),
            Operation::BeginBuildTxInputs => self.define(Value::Inputs(seq![])),
            Operation::AddTxInput => self.assign(
                i.inputs[0],
                Value::Inputs(
                    self.input(i, 0)->Inputs_0.push(
                        TxIn {
                            txo: self.input(i, 1)->Txo_0,
                            sequence: self.input(i, 2)->Sequence_0,
                        },
                    ),
                ),
            ),
            Operation::EndBuildTxInputs => self.define(Value::Inputs(self.input(i, 0)->Inputs_0)),
            Operation::BeginBuildTxOutputs => self.define(Value::Outputs(seq![])),
            Operation::AddTxOutput => self.assign(
                i.inputs[0],
                Value::Outputs(
                    self.input(i, 0)->Outputs_0.push(
                        TxOut {
                            scripts: self.input(i, 1)->Scripts_0,
                            amount: self.input(i, 2)->Amount_0,
                        },
                    ),
                ),
            ),
            Operation::EndBuildTxOutputs => self.define(
                Value::Outputs(self.input(i, 0)->Outputs_0),
            ),
            Operation::TakeTxo => self.define(
                Value::Txo(
                    Txo {
                        source: TxoSource::FirstOf(Box::new(self.input(i, 0)->Tx_0)),
                        annex: None,
                    },
                ),
            ),
            Operation::BuildPayToAnchor => self.define(Value::Scripts(Scripts::Anchor)),
            Operation::BuildPayToTaproot => self.define(
                Value::Scripts(Scripts::Taproot(self.input(i, 0)->Spend_0)),
            ),
            Operation::BuildTaprootKeypair { secret_key } => self.define(
                Value::Keypair(secret_key),
            ),
            Operation::LoadTaprootLeafVersion(version) => self.define(Value::LeafVersion(version)),
            Operation::LoadTaprootAnnex { annex } => self.define(Value::Annex(annex)),
            Operation::TaprootTxoUseAnnex => self.define(
                Value::Txo(
                    Txo {
                        source: self.input(i, 0)->Txo_0.source,
                        annex: Some(self.input(i, 1)->Annex_0),
                    },
                ),
            ),
            Operation::BeginTaprootTree => self.define(Value::Tree(seq![])),
            Operation::AddTapLeaf { depth } => self.assign(
                i.inputs[0],
                Value::Tree(
                    self.input(i, 0)->Tree_0.push(
                        TreeNode::Leaf {
                            script: self.input(i, 1)->Bytes_0,
                            version: self.input(i, 2)->LeafVersion_0,
                            depth,
                        },
                    ),
                ),
            ),
            Operation::AddTaprootHiddenNode { depth, hash } => self.assign(
                i.inputs[0],
                Value::Tree(self.input(i, 0)->Tree_0.push(TreeNode::Hidden { depth, hash })),
            ),
            Operation::EndTaprootTree { selected_leaf_index } => self.define(
                Value::Spend(
                    TaprootSpend {
                        secret_key: self.input(i, 1)->Keypair_0,
                        nodes: self.input(i, 0)->Tree_0,
                        selected: selected_leaf_index,
                    },
                ),
            ),
            Operation::LoadAddr(record) => self.define(Value::Addr(record)),
            Operation::BeginBuildAddrList => self.define(Value::Addrs(seq![])),
            Operation::BeginBuildAddrListV2 => self.define(Value::Addrs(seq![])),
            Operation::AddAddr => self.assign(
                i.inputs[0],
                Value::Addrs(self.input(i, 0)->Addrs_0.push(self.input(i, 1)->Addr_0)),
            ),
            Operation::AddAddrV2 => self.assign(
                i.inputs[0],
                Value::Addrs(self.input(i, 0)->Addrs_0.push(self.input(i, 1)->Addr_0)),
            ),
            Operation::EndBuildAddrList => self.define(Value::Addrs(self.input(i, 0)->Addrs_0)),
            Operation::EndBuildAddrListV2 => self.define(Value::Addrs(self.input(i, 0)->Addrs_0)),
            Operation::SendTx => self.send(
                Message::Tx {
                    connection: self.input(i, 0)->Connection_0,
                    tx: self.input(i, 1)->Tx_0,
                },
            ),
            Operation::SendAddr => self.send(
                Message::Addr {
                    connection: self.input(i, 0)->Connection_0,
                    records: self.input(i, 1)->Addrs_0,
                },
            ),
            Operation::SendAddrV2 => self.send(
                Message::AddrV2 {
                    connection: self.input(i, 0)->Connection_0,
                    records: self.input(i, 1)->Addrs_0,
                },
            ),
            Operation::SendGetAddr => self.send(
                Message::GetAddr { connection: self.input(i, 0)->Connection_0 },
            ),
        }
    }

    /// After some code.
    pub open spec fn run(self, code: Seq<InstructionView>) -> Machine
        decreases code.len(),
    {
        if code.len() == 0 {
            self
        } else {
            self.run(code.drop_last()).obey(code.last())
        }
    }

    /// The connection that a choice stands for.
    pub open spec fn connection(self, choice: ConnectionChoice) -> usize {
        match choice {
            ConnectionChoice::Known(v) => self.vars[v as int]->Connection_0,
            ConnectionChoice::Load(n) => n,
        }
    }

    /// Whether this machine knows all that `earlier` knew: the variables of `earlier`
    /// have kept their values.
    pub open spec fn keeps(self, earlier: Machine) -> bool {
        &&& self.vars.len() >= earlier.vars.len()
        &&& forall|v: int| 0 <= v < earlier.vars.len() ==> #[trigger] self.vars[v] == earlier.vars[v]
    }
}

/// What a program comes to when it is run from its start.
pub open spec fn meaning(code: Seq<InstructionView>) -> Machine {
    Machine { vars: seq![], sent: seq![] }.run(code)
}

/// To run code and then more is to run both.
pub proof fn lemma_run_concat(m: Machine, a: Seq<InstructionView>, b: Seq<InstructionView>)
    ensures
        m.run(a + b) == m.run(a).run(b),
    decreases b.len(),
{
    if b.len() == 0 {
        assert(a + b =~= a);
    } else {
        assert((a + b).drop_last() =~= a + b.drop_last());
        lemma_run_concat(m, a, b.drop_last());
    }
}

/// To run one more instruction.
pub proof fn lemma_run_take(m: Machine, code: Seq<InstructionView>, i: int)
    requires
        0 <= i < code.len(),
    ensures
        m.run(code.take(0)) == m,
        m.run(code.take(i + 1)) == m.run(code.take(i)).obey(code[i]),
        i + 1 == code.len() ==> m.run(code) == m.run(code.take(i + 1)),
{
    assert(code.take(i + 1).drop_last() =~= code.take(i));
    if i + 1 == code.len() {
        assert(code.take(i + 1) =~= code);
    }
}

/// Whether a value is one of a variable of type `t`.
pub open spec fn has_type(value: Value, t: Variable) -> bool {
    match t {
        Variable::Bytes => value is Bytes,
        Variable::Connection => value is Connection,
        Variable::TxVersion => value is TxVersion,
        Variable::LockTime => value is LockTime,
        Variable::Sequence => value is Sequence,
        Variable::Amount => value is Amount,
        Variable::Txo => value is Txo,
        Variable::Scripts => value is Scripts,
        Variable::MutTx => value is TxHead,
        Variable::ConstTx => value is Tx,
        Variable::MutTxInputs => value is Inputs,
        Variable::ConstTxInputs => value is Inputs,
        Variable::MutTxOutputs => value is Outputs,
        Variable::ConstTxOutputs => value is Outputs,
        Variable::TaprootKeypair => value is Keypair,
        Variable::TaprootLeafVersion => value is LeafVersion,
        Variable::TaprootAnnex => value is Annex,
        Variable::MutTaprootTree => value is Tree,
        Variable::TaprootSpendInfo => value is Spend,
        Variable::Addr => value is Addr,
        Variable::MutAddrList => value is Addrs,
        Variable::ConstAddrList => value is Addrs,
        Variable::MutAddrListV2 => value is Addrs,
        Variable::ConstAddrListV2 => value is Addrs,
    }
}

/// Whether the values of a machine are of the types `vars`.
pub open spec fn values_have_types(m: Machine, vars: Seq<Variable>) -> bool {
    &&& m.vars.len() == vars.len()
    &&& forall|v: int| 0 <= v < vars.len() ==> has_type(#[trigger] m.vars[v], vars[v])
}

/// An instruction that fits defines values of the types that its operation gives.
proof fn lemma_obey_keeps_types(m: Machine, i: InstructionView, vars: Seq<Variable>)
    requires
        values_have_types(m, vars),
        fits(i, vars),
    ensures
        values_have_types(m.obey(i), vars + i.operation.gives()),
{
    let takes = i.operation.takes();
    if takes.len() > 0 {
        assert(vars[i.inputs[0]] == takes[0]);
        assert(has_type(m.vars[i.inputs[0]], takes[0]));
    }
}

/// In a well-typed program every variable has a value of its type.
pub proof fn law_values_have_their_types(code: Seq<InstructionView>)
    requires
        well_typed(code),
    ensures
        values_have_types(meaning(code), defined(code)),
    decreases code.len(),
{
    if code.len() > 0 {
        let shorter = code.drop_last();
        assert forall|i: int| 0 <= i < shorter.len() implies fits(
            #[trigger] shorter[i],
            defined(shorter.take(i)),
        ) by {
            assert(code[i] == shorter[i]);
            assert(code.take(i) =~= shorter.take(i));
        }
        law_values_have_their_types(shorter);
        assert(fits(code[code.len() - 1], defined(code.take(code.len() - 1))));
        assert(code.take(code.len() - 1) =~= shorter);
        lemma_obey_keeps_types(meaning(shorter), code.last(), defined(shorter));
    }
}

} // verus!
