//! Mutators: each changes a program in place.

pub mod taproot;

use crate::ir::Program;
use rand::rngs::StdRng;
use vstd::prelude::*;

verus! {

/// Why a mutator did not mutate.
#[derive(Clone, Copy, Debug, PartialEq, Eq, Structural)]
pub enum MutatorError {
    /// The program has nothing the mutator could change.
    NoMutationsAvailable,
    /// The mutation would have broken the program.
    CreatedInvalidProgram,
}

pub type MutatorResult = Result<(), MutatorError>;

/// Something that changes a program at random.
pub trait Mutator {
    /// Changes the program. A mutator keeps the context, and where it fails it
    /// leaves the program as it was.
    fn mutate(&mut self, program: &mut Program, rng: &mut StdRng) -> (r: MutatorResult)
        ensures
            final(program)@.context == old(program)@.context,
            r is Err ==> final(program)@ == old(program)@,
    ;

    /// The mutator's name.
    fn name(&self) -> (r: &'static str);
}

} // verus!
