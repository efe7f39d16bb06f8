//! Generators: each appends one coherent piece of code to a program.

pub mod address;
pub mod effects;
pub mod getaddr;
pub mod taproot;
pub mod taproot_tree;
pub mod tx;

use crate::builder::ProgramBuilder;
use crate::ir::{ProgramContext, ProgramView};
use rand::rngs::StdRng;
use vstd::prelude::*;

verus! {

/// Why a generator appended nothing.
#[derive(Clone, Copy, Debug, PartialEq, Eq, Structural)]
pub enum GeneratorError {
    /// The program lacks variables to build on.
    MissingVariables,
    /// The generator cannot work in this context.
    InvalidContext(ProgramContext),
}

pub type GeneratorResult = Result<(), GeneratorError>;

/// Something that extends a program at random.
pub trait Generator {
    /// Whether the generator can be asked to extend `program`.
    spec fn ready(&self, program: ProgramView) -> bool;

    /// Extends the program. A generator only appends, it keeps the program well
    /// typed, and where it fails it leaves the program as it was.
    fn generate(&self, builder: &mut ProgramBuilder, rng: &mut StdRng) -> (r: GeneratorResult)
        requires
            old(builder).wf(),
            self.ready(old(builder)@),
        ensures
            final(builder).wf(),
            final(builder)@.context == old(builder)@.context,
            old(builder)@.code.is_prefix_of(final(builder)@.code),
            r is Err ==> final(builder)@ == old(builder)@,
    ;

    /// The generator's name.
    fn name(&self) -> (r: &'static str);
}

} // verus!
