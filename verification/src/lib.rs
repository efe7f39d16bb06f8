//! Verified core of a Bitcoin node fuzzer.
//!
//! The crate holds the intermediate representation of test programs, the
//! generators and mutators that write it, the inputs a fuzzing campaign keeps,
//! and the bookkeeping of benchmark campaigns.

pub mod bench;
pub mod builder;
pub mod generators;
pub mod input;
pub mod ir;
pub mod meaning;
pub mod mutators;
pub mod random;
pub mod tapscript;
pub mod typing;

pub use bench::command::{BenchmarkCommand, BenchmarkCommands, BenchmarkTask};
pub use bench::stats::BenchStatsStage;
pub use builder::{ConnectionChoice, IndexedVariable, ProgramBuilder};
pub use generators::address::{AddrRelayGenerator, AddrRelayV2Generator};
pub use generators::getaddr::GetAddrGenerator;
pub use generators::taproot::{TaprootKeyPathGenerator, TaprootScriptPathGenerator};
pub use generators::taproot_tree::TaprootTreeSpendGenerator;
pub use generators::{Generator, GeneratorError, GeneratorResult};
pub use input::{IrInput, MutationStage, MutationTraceEntry};
pub use ir::{
    AddrNetwork, AddrRecord, Instruction, Operation, Program, ProgramContext, Variable,
};
pub use mutators::taproot::TaprootScriptMutator;
pub use mutators::{Mutator, MutatorError, MutatorResult};
