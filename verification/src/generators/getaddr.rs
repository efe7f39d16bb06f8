//! A generator of address requests.

use super::{Generator, GeneratorError, GeneratorResult};
use crate::builder::{ConnectionChoice, ProgramBuilder};
use crate::ir::{listing, Instruction, InstructionView, Operation, ProgramView};
use crate::typing::{defined, step};
use rand::rngs::StdRng;
use vstd::prelude::*;

verus! {

/// Generates a single `getaddr` to a random connection.
///
/// A node disconnects peers that ask for addresses more than once, so a program
/// gets at most one.
#[derive(Clone, Copy, Debug)]
pub struct GetAddrGenerator;

impl Default for GetAddrGenerator {
    fn default() -> (r: Self)
        ensures
            r == GetAddrGenerator,
    {
        GetAddrGenerator
    }
}

/// Whether `code` asks for addresses.
pub open spec fn asks_for_addresses(code: Seq<InstructionView>) -> bool {
    exists|i: int| 0 <= i < code.len() && (#[trigger] code[i]).operation is SendGetAddr
}

/// Whether `instructions` ask for addresses.
pub fn has_getaddr(instructions: &[Instruction]) -> (r: bool)
    ensures
        r == asks_for_addresses(listing(instructions@)),
{
    let ghost code = listing(instructions@);
    let mut i: usize = 0;
    while i < instructions.len()
        invariant
            i <= instructions@.len(),
            code == listing(instructions@),
            forall|j: int| 0 <= j < i ==> !((#[trigger] code[j]).operation is SendGetAddr),
        decreases instructions@.len() - i,
    {
        assert(code[i as int] == instructions@[i as int]@);
        if let Operation::SendGetAddr = instructions[i].operation {
            return true;
        }
        i += 1;
    }
    false
}

/// The code that asks for addresses on a connection. `n` is the number of the
/// first variable it may define.
pub open spec fn getaddr_code(n: int, connection: ConnectionChoice) -> Seq<InstructionView> {
    connection.code() + seq![step(seq![connection.variable(n)], Operation::SendGetAddr)]
}

impl GetAddrGenerator {
    /// Asks for addresses on a connection.
    pub fn emit(&self, builder: &mut ProgramBuilder, connection: ConnectionChoice)
        requires
            old(builder).wf(),
            connection.usable_in(old(builder)@),
        ensures
            final(builder).wf(),
            final(builder)@ == old(builder)@.then_code(
                getaddr_code(defined(old(builder)@.code).len() as int, connection),
            ),
    {
        let ghost n = defined(builder@.code).len() as int;
        let conn_var = builder.connect(connection);
        builder.force_append(vec![conn_var.index], Operation::SendGetAddr);
        assert(builder@.code =~~= old(builder)@.code + getaddr_code(n, connection));
    }
}

impl Generator for GetAddrGenerator {
    open spec fn ready(&self, program: ProgramView) -> bool {
        true
    }

    fn generate(&self, builder: &mut ProgramBuilder, rng: &mut StdRng) -> (r: GeneratorResult)
        ensures
            asks_for_addresses(old(builder)@.code) ==> r == Err::<(), GeneratorError>(
                GeneratorError::MissingVariables,
            ),
            !asks_for_addresses(old(builder)@.code) && old(builder)@.context.num_connections == 0
                ==> r == Err::<(), GeneratorError>(
                GeneratorError::InvalidContext(old(builder)@.context),
            ),
            !asks_for_addresses(old(builder)@.code) && old(builder)@.context.num_connections > 0
                ==> r is Ok && exists|connection: ConnectionChoice|
                #[trigger] connection.drawn_from(old(builder)@) && final(builder)@ == old(
                    builder,
                )@.then_code(getaddr_code(defined(old(builder)@.code).len() as int, connection)),
            r is Err ==> *final(rng) == *old(rng),
    {
        if has_getaddr(builder.instructions()) {
            return Err(GeneratorError::MissingVariables);
        }
        if builder.context().num_connections == 0 {
            return Err(GeneratorError::InvalidContext(*builder.context()));
        }
        let connection = builder.choose_connection(rng);
        self.emit(builder, connection);
        Ok(())
    }

    fn name(&self) -> (r: &'static str)
        ensures
            r@ == "GetAddrGenerator"@,
    {
        "GetAddrGenerator"
    }
}

/// How often `code` asks for addresses.
pub open spec fn address_requests(code: Seq<InstructionView>) -> nat
    decreases code.len(),
{
    if code.len() == 0 {
        0
    } else {
        address_requests(code.drop_last()) + if code.last().operation is SendGetAddr {
            1nat
        } else {
            0
        }
    }
}

/// Code that never asks for addresses asks zero times.
proof fn lemma_no_requests(code: Seq<InstructionView>)
    ensures
        asks_for_addresses(code) <==> address_requests(code) > 0,
    decreases code.len(),
{
    if code.len() > 0 {
        let shorter = code.drop_last();
        lemma_no_requests(shorter);
        if asks_for_addresses(shorter) {
            let i = choose|i: int|
                0 <= i < shorter.len() && (#[trigger] shorter[i]).operation is SendGetAddr;
            assert(code[i].operation is SendGetAddr);
        }
        if code.last().operation is SendGetAddr {
            assert(code[code.len() - 1].operation is SendGetAddr);
        }
        if asks_for_addresses(code) {
            let i = choose|i: int|
                0 <= i < code.len() && (#[trigger] code[i]).operation is SendGetAddr;
            if i < shorter.len() {
                assert(shorter[i].operation is SendGetAddr);
            }
        }
    }
}

/// A program that does not ask for addresses asks exactly once after the generator
/// has extended it, so that the generator then skips it.
pub proof fn law_getaddr_is_sent_once(
    code: Seq<InstructionView>,
    n: int,
    connection: ConnectionChoice,
)
    requires
        !asks_for_addresses(code),
    ensures
        address_requests(code + getaddr_code(n, connection)) == 1,
        asks_for_addresses(code + getaddr_code(n, connection)),
{
    let loaded = code + connection.code();
    let request = step(seq![connection.variable(n)], Operation::SendGetAddr);
    let after = code + getaddr_code(n, connection);
    lemma_no_requests(code);
    match connection {
        ConnectionChoice::Known(_) => {
            assert(loaded =~= code);
        },
        ConnectionChoice::Load(_) => {
            assert(loaded.drop_last() =~= code);
            assert(loaded.last() == connection.code()[0]);
        },
    }
    assert(address_requests(loaded) == 0);
    assert(after.drop_last() =~= loaded);
    assert(after.last() == request);
    lemma_no_requests(after);
}

} // verus!
