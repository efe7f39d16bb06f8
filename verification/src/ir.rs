//! The intermediate representation of a test program.
//!
//! A program is a list of instructions. An instruction carries out one
//! [`Operation`]; it reads variables that earlier instructions defined and
//! defines the variables its operation gives. Variables are numbered in the
//! order in which they are defined.

use vstd::prelude::*;

verus! {

/// The type of a variable.
#[derive(Clone, Copy, Debug, PartialEq, Eq, Structural, Hash)]
pub enum Variable {
    Bytes,
    Connection,
    TxVersion,
    LockTime,
    Sequence,
    Amount,
    Txo,
    Scripts,
    MutTx,
    ConstTx,
    MutTxInputs,
    ConstTxInputs,
    MutTxOutputs,
    ConstTxOutputs,
    TaprootKeypair,
    TaprootLeafVersion,
    TaprootAnnex,
    MutTaprootTree,
    TaprootSpendInfo,
    Addr,
    MutAddrList,
    ConstAddrList,
    MutAddrListV2,
    ConstAddrListV2,
}

/// The network of an `addrv2` address.
#[derive(Clone, Copy, Debug, PartialEq, Eq, Structural, Hash)]
pub enum AddrNetwork {
    IPv4,
    IPv6,
    TorV2,
    TorV3,
    I2P,
    Cjdns,
    Yggdrasil,
    Unknown(u8),
}

/// A peer address as `addr` (`V1`) or `addrv2` (`V2`) relays it.
///
/// `B` is the type of the byte strings in it: `Vec<u8>` in a program, `Seq<u8>`
/// in the model of one.
#[derive(Clone, Debug, PartialEq, Eq, Hash)]
pub enum AddrRecord<B = Vec<u8>> {
    V1 { time: u32, services: u64, ip: [u8; 16], port: u16 },
    V2 { time: u32, services: u64, network: AddrNetwork, payload: B, port: u16 },
}

/// What an instruction does.
///
/// `B` is the type of the byte strings in it: `Vec<u8>` in a program, `Seq<u8>`
/// in the model of one.
#[derive(Clone, Debug, PartialEq, Eq, Hash)]
pub enum Operation<B = Vec<u8>> {
    LoadBytes(B),
    LoadConnection(usize),
    LoadTxVersion(u32),
    LoadLockTime(u32),
    LoadSequence(u32),
    LoadAmount(u64),
    /// An output that exists before the program runs.
    LoadTxo { txid: [u8; 32], vout: u32, value: u64 },
    BeginBuildTx,
    EndBuildTx,
    BeginBuildTxInputs,
    AddTxInput,
    EndBuildTxInputs,
    BeginBuildTxOutputs,
    AddTxOutput,
    EndBuildTxOutputs,
    /// The first output of a transaction.
    TakeTxo,
    BuildPayToAnchor,
    BuildPayToTaproot,
    BuildTaprootKeypair { secret_key: [u8; 32] },
    LoadTaprootLeafVersion(u8),
    LoadTaprootAnnex { annex: B },
    TaprootTxoUseAnnex,
    BeginTaprootTree,
    AddTapLeaf { depth: u8 },
    AddTaprootHiddenNode { depth: u8, hash: [u8; 32] },
    EndTaprootTree { selected_leaf_index: Option<u8> },
    LoadAddr(AddrRecord<B>),
    BeginBuildAddrList,
    AddAddr,
    EndBuildAddrList,
    BeginBuildAddrListV2,
    AddAddrV2,
    EndBuildAddrListV2,
    SendTx,
    SendAddr,
    SendAddrV2,
    SendGetAddr,
}

impl View for AddrRecord {
    type V = AddrRecord<Seq<u8>>;

    open spec fn view(&self) -> AddrRecord<Seq<u8>> {
        match *self {
            AddrRecord::V1 { time, services, ip, port } => AddrRecord::V1 {
                time,
                services,
                ip,
                port,
            },
            AddrRecord::V2 { time, services, network, payload, port } => AddrRecord::V2 {
                time,
                services,
                network,
                payload: payload@,
                port,
            },
        }
    }
}

impl AddrRecord {
    /// A record equal to this one.
    pub fn duplicate(&self) -> (r: AddrRecord)
        ensures
            r@ == self@,
    {
        match self {
            AddrRecord::V1 { time, services, ip, port } => AddrRecord::V1 {
                time: *time,
                services: *services,
                ip: *ip,
                port: *port,
            },
            AddrRecord::V2 { time, services, network, payload, port } => {
                let copy = duplicate_bytes(payload);
                AddrRecord::V2 {
                    time: *time,
                    services: *services,
                    network: *network,
                    payload: copy,
                    port: *port,
                }
            },
        }
    }
}

/// A byte string equal to `bytes`.
pub(crate) fn duplicate_bytes(bytes: &Vec<u8>) -> (r: Vec<u8>)
    ensures
        r@ == bytes@,
{
    let r = bytes.clone();
    assert(r@ =~= bytes@);
    r
}

impl<B> Operation<B> {
    /// The types of the variables the operation reads, in order.
    pub open spec fn takes(self) -> Seq<Variable> {
        match self {
            Operation::BeginBuildTx => seq![Variable::TxVersion, Variable::LockTime],
            Operation::EndBuildTx => seq![
                Variable::MutTx,
                Variable::ConstTxInputs,
                Variable::ConstTxOutputs,
            ],
            Operation::AddTxInput => seq![
                Variable::MutTxInputs,
                Variable::Txo,
                Variable::Sequence,
            ],
            Operation::EndBuildTxInputs => seq![Variable::MutTxInputs],
            Operation::BeginBuildTxOutputs => seq![Variable::ConstTxInputs],
            Operation::AddTxOutput => seq![
                Variable::MutTxOutputs,
                Variable::Scripts,
                Variable::Amount,
            ],
            Operation::EndBuildTxOutputs => seq![Variable::MutTxOutputs],
            Operation::TakeTxo => seq![Variable::ConstTx],
            Operation::BuildPayToTaproot => seq![Variable::TaprootSpendInfo],
            Operation::TaprootTxoUseAnnex => seq![Variable::Txo, Variable::TaprootAnnex],
            Operation::AddTapLeaf { .. } => seq![
                Variable::MutTaprootTree,
                Variable::Bytes,
                Variable::TaprootLeafVersion,
            ],
            Operation::AddTaprootHiddenNode { .. } => seq![Variable::MutTaprootTree],
            Operation::EndTaprootTree { .. } => seq![
                Variable::MutTaprootTree,
                Variable::TaprootKeypair,
            ],
            Operation::AddAddr => seq![Variable::MutAddrList, Variable::Addr],
            Operation::EndBuildAddrList => seq![Variable::MutAddrList],
            Operation::AddAddrV2 => seq![Variable::MutAddrListV2, Variable::Addr],
            Operation::EndBuildAddrListV2 => seq![Variable::MutAddrListV2],
            Operation::SendTx => seq![Variable::Connection, Variable::ConstTx],
            Operation::SendAddr => seq![Variable::Connection, Variable::ConstAddrList],
            Operation::SendAddrV2 => seq![Variable::Connection, Variable::ConstAddrListV2],
            Operation::SendGetAddr => seq![Variable::Connection],
            _ => seq![],
        }
    }

    /// The types of the variables the operation defines, in order.
    pub open spec fn gives(self) -> Seq<Variable> {
        match self {
            Operation::LoadBytes(_) => seq![Variable::Bytes],
            Operation::LoadConnection(_) => seq![Variable::Connection],
            Operation::LoadTxVersion(_) => seq![Variable::TxVersion],
            Operation::LoadLockTime(_) => seq![Variable::LockTime],
            Operation::LoadSequence(_) => seq![Variable::Sequence],
            Operation::LoadAmount(_) => seq![Variable::Amount],
            Operation::LoadTxo { .. } => seq![Variable::Txo],
            Operation::BeginBuildTx => seq![Variable::MutTx],
            Operation::EndBuildTx => seq![Variable::ConstTx],
            Operation::BeginBuildTxInputs => seq![Variable::MutTxInputs],
            Operation::EndBuildTxInputs => seq![Variable::ConstTxInputs],
            Operation::BeginBuildTxOutputs => seq![Variable::MutTxOutputs],
            Operation::EndBuildTxOutputs => seq![Variable::ConstTxOutputs],
            Operation::TakeTxo => seq![Variable::Txo],
            Operation::BuildPayToAnchor => seq![Variable::Scripts],
            Operation::BuildPayToTaproot => seq![Variable::Scripts],
            Operation::BuildTaprootKeypair { .. } => seq![Variable::TaprootKeypair],
            Operation::LoadTaprootLeafVersion(_) => seq![Variable::TaprootLeafVersion],
            Operation::LoadTaprootAnnex { .. } => seq![Variable::TaprootAnnex],
            Operation::TaprootTxoUseAnnex => seq![Variable::Txo],
            Operation::BeginTaprootTree => seq![Variable::MutTaprootTree],
            Operation::EndTaprootTree { .. } => seq![Variable::TaprootSpendInfo],
            Operation::LoadAddr(_) => seq![Variable::Addr],
            Operation::BeginBuildAddrList => seq![Variable::MutAddrList],
            Operation::EndBuildAddrList => seq![Variable::ConstAddrList],
            Operation::BeginBuildAddrListV2 => seq![Variable::MutAddrListV2],
            Operation::EndBuildAddrListV2 => seq![Variable::ConstAddrListV2],
            _ => seq![],
        }
    }
}

impl View for Operation {
    type V = Operation<Seq<u8>>;

    open spec fn view(&self) -> Operation<Seq<u8>> {
        match *self {
            Operation::LoadBytes(bytes) => Operation::LoadBytes(bytes@),
            Operation::LoadConnection(n) => Operation::LoadConnection(n),
            Operation::LoadTxVersion(v) => Operation::LoadTxVersion(v),
            Operation::LoadLockTime(t) => Operation::LoadLockTime(t),
            Operation::LoadSequence(s) => Operation::LoadSequence(s),
            Operation::LoadAmount(a) => Operation::LoadAmount(a),
            Operation::LoadTxo { txid, vout, value } => Operation::LoadTxo { txid, vout, value },
            Operation::BeginBuildTx => Operation::BeginBuildTx,
            Operation::EndBuildTx => Operation::EndBuildTx,
            Operation::BeginBuildTxInputs => Operation::BeginBuildTxInputs,
            Operation::AddTxInput => Operation::AddTxInput,
            Operation::EndBuildTxInputs => Operation::EndBuildTxInputs,
            Operation::BeginBuildTxOutputs => Operation::BeginBuildTxOutputs,
            Operation::AddTxOutput => Operation::AddTxOutput,
            Operation::EndBuildTxOutputs => Operation::EndBuildTxOutputs,
            Operation::TakeTxo => Operation::TakeTxo,
            Operation::BuildPayToAnchor => Operation::BuildPayToAnchor,
            Operation::BuildPayToTaproot => Operation::BuildPayToTaproot,
            Operation::BuildTaprootKeypair { secret_key } => Operation::BuildTaprootKeypair {
                secret_key,
            },
            Operation::LoadTaprootLeafVersion(v) => Operation::LoadTaprootLeafVersion(v),
            Operation::LoadTaprootAnnex { annex } => Operation::LoadTaprootAnnex { annex: annex@ },
            Operation::TaprootTxoUseAnnex => Operation::TaprootTxoUseAnnex,
            Operation::BeginTaprootTree => Operation::BeginTaprootTree,
            Operation::AddTapLeaf { depth } => Operation::AddTapLeaf { depth },
            Operation::AddTaprootHiddenNode { depth, hash } => Operation::AddTaprootHiddenNode {
                depth,
                hash,
            },
            Operation::EndTaprootTree { selected_leaf_index } => Operation::EndTaprootTree {
                selected_leaf_index,
            },
            Operation::LoadAddr(addr) => Operation::LoadAddr(addr@),
            Operation::BeginBuildAddrList => Operation::BeginBuildAddrList,
            Operation::AddAddr => Operation::AddAddr,
            Operation::EndBuildAddrList => Operation::EndBuildAddrList,
            Operation::BeginBuildAddrListV2 => Operation::BeginBuildAddrListV2,
            Operation::AddAddrV2 => Operation::AddAddrV2,
            Operation::EndBuildAddrListV2 => Operation::EndBuildAddrListV2,
            Operation::SendTx => Operation::SendTx,
            Operation::SendAddr => Operation::SendAddr,
            Operation::SendAddrV2 => Operation::SendAddrV2,
            Operation::SendGetAddr => Operation::SendGetAddr,
        }
    }
}

impl Operation {
    /// The types of the variables the operation reads, in order.
    pub fn input_variables(&self) -> (r: Vec<Variable>)
        ensures
            r@ == self@.takes(),
    {
        match self {
            Operation::BeginBuildTx => vec![Variable::TxVersion, Variable::LockTime],
            Operation::EndBuildTx => vec![
                Variable::MutTx,
                Variable::ConstTxInputs,
                Variable::ConstTxOutputs,
            ],
            Operation::AddTxInput => vec![
                Variable::MutTxInputs,
                Variable::Txo,
                Variable::Sequence,
            ],
            Operation::EndBuildTxInputs => vec![Variable::MutTxInputs],
            Operation::BeginBuildTxOutputs => vec![Variable::ConstTxInputs],
            Operation::AddTxOutput => vec![
                Variable::MutTxOutputs,
                Variable::Scripts,
                Variable::Amount,
            ],
            Operation::EndBuildTxOutputs => vec![Variable::MutTxOutputs],
            Operation::TakeTxo => vec![Variable::ConstTx],
            Operation::BuildPayToTaproot => vec![Variable::TaprootSpendInfo],
            Operation::TaprootTxoUseAnnex => vec![Variable::Txo, Variable::TaprootAnnex],
            Operation::AddTapLeaf { .. } => vec![
                Variable::MutTaprootTree,
                Variable::Bytes,
                Variable::TaprootLeafVersion,
            ],
            Operation::AddTaprootHiddenNode { .. } => vec![Variable::MutTaprootTree],
            Operation::EndTaprootTree { .. } => vec![
                Variable::MutTaprootTree,
                Variable::TaprootKeypair,
            ],
            Operation::AddAddr => vec![Variable::MutAddrList, Variable::Addr],
            Operation::EndBuildAddrList => vec![Variable::MutAddrList],
            Operation::AddAddrV2 => vec![Variable::MutAddrListV2, Variable::Addr],
            Operation::EndBuildAddrListV2 => vec![Variable::MutAddrListV2],
            Operation::SendTx => vec![Variable::Connection, Variable::ConstTx],
            Operation::SendAddr => vec![Variable::Connection, Variable::ConstAddrList],
            Operation::SendAddrV2 => vec![Variable::Connection, Variable::ConstAddrListV2],
            Operation::SendGetAddr => vec![Variable::Connection],
            _ => vec![],
        }
    }

    /// The types of the variables the operation defines, in order.
    pub fn output_variables(&self) -> (r: Vec<Variable>)
        ensures
            r@ == self@.gives(),
    {
        match self {
            Operation::LoadBytes(_) => vec![Variable::Bytes],
            Operation::LoadConnection(_) => vec![Variable::Connection],
            Operation::LoadTxVersion(_) => vec![Variable::TxVersion],
            Operation::LoadLockTime(_) => vec![Variable::LockTime],
            Operation::LoadSequence(_) => vec![Variable::Sequence],
            Operation::LoadAmount(_) => vec![Variable::Amount],
            Operation::LoadTxo { .. } => vec![Variable::Txo],
            Operation::BeginBuildTx => vec![Variable::MutTx],
            Operation::EndBuildTx => vec![Variable::ConstTx],
            Operation::BeginBuildTxInputs => vec![Variable::MutTxInputs],
            Operation::EndBuildTxInputs => vec![Variable::ConstTxInputs],
            Operation::BeginBuildTxOutputs => vec![Variable::MutTxOutputs],
            Operation::EndBuildTxOutputs => vec![Variable::ConstTxOutputs],
            Operation::TakeTxo => vec![Variable::Txo],
            Operation::BuildPayToAnchor => vec![Variable::Scripts],
            Operation::BuildPayToTaproot => vec![Variable::Scripts],
            Operation::BuildTaprootKeypair { .. } => vec![Variable::TaprootKeypair],
            Operation::LoadTaprootLeafVersion(_) => vec![Variable::TaprootLeafVersion],
            Operation::LoadTaprootAnnex { .. } => vec![Variable::TaprootAnnex],
            Operation::TaprootTxoUseAnnex => vec![Variable::Txo],
            Operation::BeginTaprootTree => vec![Variable::MutTaprootTree],
            Operation::EndTaprootTree { .. } => vec![Variable::TaprootSpendInfo],
            Operation::LoadAddr(_) => vec![Variable::Addr],
            Operation::BeginBuildAddrList => vec![Variable::MutAddrList],
            Operation::EndBuildAddrList => vec![Variable::ConstAddrList],
            Operation::BeginBuildAddrListV2 => vec![Variable::MutAddrListV2],
            Operation::EndBuildAddrListV2 => vec![Variable::ConstAddrListV2],
            _ => vec![],
        }
    }

    /// How many variables the operation defines.
    pub fn num_outputs(&self) -> (r: usize)
        ensures
            r == self@.gives().len(),
    {
        self.output_variables().len()
    }
}

/// The surroundings a program is written for.
#[derive(Clone, Copy, Debug, PartialEq, Eq, Structural, Hash)]
pub struct ProgramContext {
    pub num_nodes: usize,
    pub num_connections: usize,
    pub timestamp: u64,
}

/// One step of a program: an operation and the variables it reads.
#[derive(Clone, Debug, PartialEq, Eq, Hash)]
pub struct Instruction {
    pub inputs: Vec<usize>,
    pub operation: Operation,
}

/// A test program.
#[derive(Clone, Debug, PartialEq, Eq, Hash)]
pub struct Program {
    pub instructions: Vec<Instruction>,
    pub context: ProgramContext,
}

/// The model of an [`Instruction`].
#[verifier::ext_equal]
pub struct InstructionView {
    pub inputs: Seq<int>,
    pub operation: Operation<Seq<u8>>,
}

/// The model of a [`Program`], and of a program under construction.
#[verifier::ext_equal]
pub struct ProgramView {
    pub context: ProgramContext,
    pub code: Seq<InstructionView>,
}

impl View for Instruction {
    type V = InstructionView;

    open spec fn view(&self) -> InstructionView {
        InstructionView {
            inputs: self.inputs@.map_values(|i: usize| i as int),
            operation: self.operation@,
        }
    }
}

/// The models of a list of instructions.
pub open spec fn listing(instructions: Seq<Instruction>) -> Seq<InstructionView> {
    instructions.map_values(|i: Instruction| i@)
}

impl View for Program {
    type V = ProgramView;

    open spec fn view(&self) -> ProgramView {
        ProgramView { context: self.context, code: listing(self.instructions@) }
    }
}

/// Records with the same model are the same record: nothing of a record is lost in its
/// model.
pub proof fn law_records_have_models_of_their_own(a: AddrRecord, b: AddrRecord)
    ensures
        a@ == b@ <==> match (a, b) {
            (
                AddrRecord::V1 { time, services, ip, port },
                AddrRecord::V1 { time: t, services: s, ip: i, port: p },
            ) => time == t && services == s && ip == i && port == p,
            (
                AddrRecord::V2 { time, services, network, payload, port },
                AddrRecord::V2 { time: t, services: s, network: n, payload: bytes, port: p },
            ) => time == t && services == s && network == n && payload@ == bytes@ && port == p,
            _ => false,
        },
{
}

/// Operations with the same model do the same: nothing of an operation is lost in its
/// model.
pub proof fn law_operations_have_models_of_their_own(a: Operation, b: Operation)
    ensures
        a@ == b@ <==> match (a, b) {
            (Operation::LoadBytes(x), Operation::LoadBytes(y)) => x@ == y@,
            (
                Operation::LoadTaprootAnnex { annex: x },
                Operation::LoadTaprootAnnex { annex: y },
            ) => x@ == y@,
            (Operation::LoadAddr(x), Operation::LoadAddr(y)) => x@ == y@,
            (Operation::LoadBytes(_), _) => false,
            (Operation::LoadTaprootAnnex { .. }, _) => false,
            (Operation::LoadAddr(_), _) => false,
            _ => a == b,
        },
{
}

/// Instructions with the same model do the same to the same variables.
pub proof fn law_instructions_have_models_of_their_own(a: Instruction, b: Instruction)
    ensures
        a@ == b@ <==> a.inputs@ == b.inputs@ && a.operation@ == b.operation@,
{
    if a@ == b@ {
        assert(a@.inputs.len() == b@.inputs.len());
        assert forall|k: int| 0 <= k < a.inputs@.len() implies a.inputs@[k] == b.inputs@[k] by {
            assert(a@.inputs[k] == a.inputs@[k]);
            assert(b@.inputs[k] == b.inputs@[k]);
        }
        assert(a.inputs@ =~= b.inputs@);
    }
}

} // verus!
