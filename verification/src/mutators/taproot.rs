//! Mutation of Taproot leaf scripts.

use super::{Mutator, MutatorError, MutatorResult};
use crate::ir::{
    listing, Instruction, InstructionView, Operation, Program, ProgramView, Variable,
};
use crate::random::draw_usize;
use crate::tapscript::{is_tapscript, random_tapscript};
use crate::typing::{
    defined, fits, law_inputs_are_defined_before, law_producer_defines, lemma_defined_push,
    lemma_producer_defined, producer, step, well_typed,
};
use rand::rngs::StdRng;
use vstd::prelude::*;

verus! {

/// The `LoadBytes` instruction that loads the script of the leaf that instruction
/// `i` adds, if instruction `i` adds a leaf and its script is loaded that way.
pub open spec fn script_source(code: Seq<InstructionView>, i: int) -> Option<int> {
    if code[i].operation is AddTapLeaf && code[i].inputs.len() > 1 {
        match producer(code, code[i].inputs[1]) {
            Some(p) => if code[p].operation is LoadBytes {
                Some(p)
            } else {
                None
            },
            None => None,
        }
    } else {
        None
    }
}

/// The script sources of the first `count` instructions, in order.
pub open spec fn script_sources(code: Seq<InstructionView>, count: int) -> Seq<int>
    decreases count,
{
    if count <= 0 {
        seq![]
    } else {
        match script_source(code, count - 1) {
            Some(p) => script_sources(code, count - 1).push(p),
            None => script_sources(code, count - 1),
        }
    }
}

/// For each variable, the instruction that defines it.
pub fn build_variable_producers(instructions: &[Instruction]) -> (r: Vec<usize>)
    ensures
        r@.len() == defined(listing(instructions@)).len(),
        forall|v: int|
            0 <= v < r@.len() ==> producer(listing(instructions@), v) == Some(
                #[trigger] r@[v] as int,
            ),
        forall|v: int| 0 <= v < r@.len() ==> (#[trigger] r@[v]) < instructions@.len(),
{
    let ghost code = listing(instructions@);
    let mut producers: Vec<usize> = Vec::new();
    let mut idx: usize = 0;
    while idx < instructions.len()
        invariant
            idx <= instructions@.len(),
            code == listing(instructions@),
            producers@.len() == defined(code.take(idx as int)).len(),
            forall|v: int|
                0 <= v < producers@.len() ==> producer(code.take(idx as int), v) == Some(
                    #[trigger] producers@[v] as int,
                ),
            forall|v: int| 0 <= v < producers@.len() ==> (#[trigger] producers@[v]) < idx,
        decreases instructions@.len() - idx,
    {
        let outputs = instructions[idx].operation.num_outputs();
        let ghost before = producers@;
        let mut k: usize = 0;
        while k < outputs
            invariant
                k <= outputs,
                producers@.len() == before.len() + k,
                forall|v: int|
                    0 <= v < before.len() ==> #[trigger] producers@[v] == before[v],
                forall|v: int|
                    before.len() <= v < producers@.len() ==> #[trigger] producers@[v] == idx,
            decreases outputs - k,
        {
            producers.push(idx);
            k += 1;
        }
        proof {
            let shorter = code.take(idx as int);
            let longer = code.take(idx + 1);
            assert(longer =~= shorter.push(instructions@[idx as int]@));
            assert(longer.drop_last() =~= shorter);
            lemma_defined_push(shorter, instructions@[idx as int]@);
            assert forall|v: int| 0 <= v < producers@.len() implies producer(longer, v) == Some(
                #[trigger] producers@[v] as int,
            ) by {
                if v < before.len() {
                    assert(producers@[v] == before[v]);
                }
            }
        }
        idx += 1;
    }
    assert(code.take(idx as int) =~= code);
    producers
}

/// The instructions that load the scripts of leaves, one for each leaf with a
/// loaded script, in the order of the leaves.
pub fn script_candidates(instructions: &[Instruction]) -> (r: Vec<usize>)
    ensures
        r@.map_values(|p: usize| p as int) == script_sources(
            listing(instructions@),
            instructions@.len() as int,
        ),
        forall|k: int|
            0 <= k < r@.len() ==> (#[trigger] r@[k]) < instructions@.len() && listing(
                instructions@,
            )[r@[k] as int].operation is LoadBytes,
{
    let producers = build_variable_producers(instructions);
    let ghost code = listing(instructions@);
    let mut candidates: Vec<usize> = Vec::new();
    let mut i: usize = 0;
    assert(candidates@.map_values(|p: usize| p as int) =~= script_sources(code, 0));
    while i < instructions.len()
        invariant
            i <= instructions@.len(),
            code == listing(instructions@),
            producers@.len() == defined(code).len(),
            forall|v: int|
                0 <= v < producers@.len() ==> producer(code, v) == Some(
                    #[trigger] producers@[v] as int,
                ),
            forall|v: int| 0 <= v < producers@.len() ==> (#[trigger] producers@[v]) < code.len(),
            candidates@.map_values(|p: usize| p as int) == script_sources(code, i as int),
            forall|k: int|
                0 <= k < candidates@.len() ==> (#[trigger] candidates@[k]) < code.len()
                    && code[candidates@[k] as int].operation is LoadBytes,
        decreases instructions@.len() - i,
    {
        let ghost before = candidates@;
        let instr = &instructions[i];
        assert(code[i as int] == instr@);
        if let Operation::AddTapLeaf { .. } = instr.operation {
            if instr.inputs.len() > 1 {
                let script_var = instr.inputs[1];
                assert(code[i as int].inputs[1] == script_var);
                if script_var < producers.len() {
                    let prod_idx = producers[script_var];
                    assert(code[prod_idx as int] == instructions@[prod_idx as int]@);
                    if let Operation::LoadBytes(_) = instructions[prod_idx].operation {
                        candidates.push(prod_idx);
                        assert(candidates@.map_values(|p: usize| p as int)
                            =~= before.map_values(|p: usize| p as int).push(prod_idx as int));
                    }
                } else {
                    proof {
                        lemma_producer_defined(code, script_var as int);
                    }
                }
            }
        }
        i += 1;
    }
    candidates
}

/// The program with the bytes that instruction `at` loads replaced by `script`.
pub open spec fn with_script(program: ProgramView, at: int, script: Seq<u8>) -> ProgramView {
    ProgramView {
        context: program.context,
        code: program.code.update(at, step(program.code[at].inputs, Operation::LoadBytes(script))),
    }
}

/// Replaces the bytes that instruction `at` loads. Fails where it loads none.
pub fn replace_script(program: &mut Program, at: usize, script: Vec<u8>) -> (r: MutatorResult)
    requires
        at < old(program)@.code.len(),
    ensures
        old(program)@.code[at as int].operation is LoadBytes ==> r is Ok && final(program)@
            == with_script(old(program)@, at as int, script@),
        !(old(program)@.code[at as int].operation is LoadBytes) ==> r == Err::<(), MutatorError>(
            MutatorError::CreatedInvalidProgram,
        ) && final(program)@ == old(program)@,
{
    assert(program@.code[at as int] == program.instructions@[at as int]@);
    let loads = matches!(program.instructions[at].operation, Operation::LoadBytes(_));
    if loads {
        program.instructions[at].operation = Operation::LoadBytes(script);
        assert(program@.code =~~= with_script(old(program)@, at as int, script@).code);
        Ok(())
    } else {
        Err(MutatorError::CreatedInvalidProgram)
    }
}

/// Replaces the script of a leaf, so that the same tree is exercised with other
/// kinds of leaf.
#[derive(Clone, Copy, Debug)]
pub struct TaprootScriptMutator;

impl TaprootScriptMutator {
    pub fn new() -> (r: Self)
        ensures
            r == TaprootScriptMutator,
    {
        TaprootScriptMutator
    }
}

impl Mutator for TaprootScriptMutator {
    fn mutate(&mut self, program: &mut Program, rng: &mut StdRng) -> (r: MutatorResult)
        ensures
            ({
                let sources = script_sources(
                    old(program)@.code,
                    old(program)@.code.len() as int,
                );
                if sources.len() == 0 {
                    r == Err::<(), MutatorError>(MutatorError::NoMutationsAvailable)
                } else {
                    &&& r is Ok
                    &&& exists|k: int, script: Seq<u8>|
                        0 <= k < sources.len() && is_tapscript(script) && final(program)@
                            == #[trigger] with_script(old(program)@, sources[k], script)
                }
            }),
            r is Err ==> *final(rng) == *old(rng),
    {
        let candidates = script_candidates(program.instructions.as_slice());
        let ghost sources = script_sources(program@.code, program@.code.len() as int);
        if candidates.is_empty() {
            return Err(MutatorError::NoMutationsAvailable);
        }
        let k = draw_usize(rng, 0, candidates.len());
        let script_instr_idx = candidates[k];
        assert(sources[k as int] == script_instr_idx);
        let script = random_tapscript(rng);
        let ghost given = script@;
        let r = replace_script(program, script_instr_idx, script);
        assert(program@ == with_script(old(program)@, sources[k as int], given));
        r
    }

    fn name(&self) -> (r: &'static str)
        ensures
            r@ == "TaprootScriptMutator"@,
    {
        "TaprootScriptMutator"
    }
}

/// To replace a script leaves the variables of a program as they are.
proof fn lemma_with_script_defined(program: ProgramView, at: int, script: Seq<u8>, count: int)
    requires
        0 <= at < program.code.len(),
        program.code[at].operation is LoadBytes,
        0 <= count <= program.code.len(),
    ensures
        defined(with_script(program, at, script).code.take(count)) == defined(
            program.code.take(count),
        ),
    decreases count,
{
    let after = with_script(program, at, script).code;
    if count > 0 {
        lemma_with_script_defined(program, at, script, count - 1);
        assert(after.take(count).drop_last() =~= after.take(count - 1));
        assert(program.code.take(count).drop_last() =~= program.code.take(count - 1));
    } else {
        assert(after.take(0) =~= program.code.take(0));
    }
}

/// An instruction still fits after a script is replaced.
proof fn lemma_with_script_fits(program: ProgramView, at: int, script: Seq<u8>, i: int)
    requires
        0 <= at < program.code.len(),
        program.code[at].operation is LoadBytes,
        0 <= i < program.code.len(),
        fits(program.code[i], defined(program.code.take(i))),
    ensures
        fits(
            with_script(program, at, script).code[i],
            defined(with_script(program, at, script).code.take(i)),
        ),
{
    let after = with_script(program, at, script).code;
    lemma_with_script_defined(program, at, script, i);
    if i == at {
        assert(after[i].inputs == program.code[i].inputs);
        assert(after[i].operation.takes() =~= program.code[i].operation.takes());
    } else {
        assert(after[i] == program.code[i]);
    }
}

/// To replace a script keeps a program well typed, and changes nothing but the
/// bytes that one instruction loads.
pub proof fn law_script_mutation_is_local(program: ProgramView, at: int, script: Seq<u8>)
    requires
        0 <= at < program.code.len(),
        program.code[at].operation is LoadBytes,
    ensures
        well_typed(program.code) ==> well_typed(with_script(program, at, script).code),
        defined(with_script(program, at, script).code) == defined(program.code),
        with_script(program, at, script).code.len() == program.code.len(),
        with_script(program, at, script).code[at] == step(
            program.code[at].inputs,
            Operation::LoadBytes(script),
        ),
        forall|i: int|
            0 <= i < program.code.len() && i != at ==> #[trigger] with_script(
                program,
                at,
                script,
            ).code[i] == program.code[i],
{
    let after = with_script(program, at, script).code;
    lemma_with_script_defined(program, at, script, program.code.len() as int);
    assert(after.take(after.len() as int) =~= after);
    assert(program.code.take(program.code.len() as int) =~= program.code);
    if well_typed(program.code) {
        assert forall|i: int| 0 <= i < after.len() implies fits(
            #[trigger] after[i],
            defined(after.take(i)),
        ) by {
            assert(fits(program.code[i], defined(program.code.take(i))));
            lemma_with_script_fits(program, at, script, i);
        }
    }
}

/// The candidates of a mutation are exactly the instructions that load the script
/// of a leaf.
pub proof fn law_candidates_are_leaf_scripts(code: Seq<InstructionView>, count: int, p: int)
    requires
        0 <= count <= code.len(),
    ensures
        script_sources(code, count).contains(p) <==> exists|i: int|
            0 <= i < count && #[trigger] script_source(code, i) == Some(p),
    decreases count,
{
    if count > 0 {
        let shorter = script_sources(code, count - 1);
        let all = script_sources(code, count);
        law_candidates_are_leaf_scripts(code, count - 1, p);
        if shorter.contains(p) {
            let k = choose|k: int| 0 <= k < shorter.len() && shorter[k] == p;
            assert(all[k] == p);
        }
        if script_source(code, count - 1) == Some(p) {
            assert(all[all.len() - 1] == p);
        }
        if all.contains(p) {
            let k = choose|k: int| 0 <= k < all.len() && all[k] == p;
            if k < shorter.len() {
                assert(shorter[k] == p);
            }
        }
    }
}

/// Bytes come from `LoadBytes` alone.
proof fn lemma_only_loads_give_bytes(operation: Operation<Seq<u8>>, k: int)
    requires
        0 <= k < operation.gives().len(),
        operation.gives()[k] == Variable::Bytes,
    ensures
        operation is LoadBytes,
{
    assert(operation.gives().len() == 1);
    assert(operation.gives()[0] == Variable::Bytes);
}

/// Every leaf of a well-typed program can be mutated: its script is loaded, so
/// that there is a candidate.
pub proof fn law_every_leaf_can_be_mutated(code: Seq<InstructionView>, i: int)
    requires
        well_typed(code),
        0 <= i < code.len(),
        code[i].operation is AddTapLeaf,
    ensures
        script_source(code, i) is Some,
        script_sources(code, code.len() as int).contains(script_source(code, i)->0),
{
    assert(fits(code[i], defined(code.take(i))));
    law_inputs_are_defined_before(code, i, 1);
    let v = code[i].inputs[1];
    lemma_producer_defined(code, v);
    law_producer_defines(code, v);
    let p = producer(code, v)->0;
    let k = v - defined(code.take(p)).len();
    lemma_defined_push(code.take(p), code[p]);
    assert(code.take(p + 1) =~= code.take(p).push(code[p]));
    lemma_only_loads_give_bytes(code[p].operation, k);
    assert(script_source(code, i) == Some(p));
    law_candidates_are_leaf_scripts(code, code.len() as int, p);
}

/// What can be mutated: an instruction that loads bytes, where another instruction adds a
/// leaf whose script is the variable that it defines.
pub proof fn law_mutations_are_of_leaf_scripts(code: Seq<InstructionView>, p: int)
    ensures
        script_sources(code, code.len() as int).contains(p) <==> {
            &&& 0 <= p < code.len() && code[p].operation is LoadBytes
            &&& exists|i: int|
                0 <= i < code.len() && (#[trigger] code[i]).operation is AddTapLeaf
                    && code[i].inputs.len() >= 2 && code[i].inputs[1] == defined(
                    code.take(p),
                ).len()
        },
{
    law_candidates_are_leaf_scripts(code, code.len() as int, p);
    let sources = script_sources(code, code.len() as int);
    if sources.contains(p) {
        let i = choose|i: int|
            0 <= i < code.len() && #[trigger] script_source(code, i) == Some(p);
        let v = code[i].inputs[1];
        lemma_producer_defined(code, v);
        law_producer_defines(code, v);
        lemma_defined_push(code.take(p), code[p]);
        assert(code.take(p + 1) =~= code.take(p).push(code[p]));
        assert(code[i].operation is AddTapLeaf && code[i].inputs[1] == defined(
            code.take(p),
        ).len());
    }
    if 0 <= p < code.len() && code[p].operation is LoadBytes && exists|i: int|
        0 <= i < code.len() && (#[trigger] code[i]).operation is AddTapLeaf
            && code[i].inputs.len() >= 2 && code[i].inputs[1] == defined(code.take(p)).len() {
        let i = choose|i: int|
            0 <= i < code.len() && (#[trigger] code[i]).operation is AddTapLeaf
                && code[i].inputs.len() >= 2 && code[i].inputs[1] == defined(code.take(p)).len();
        lemma_producer_of(code, p);
        assert(script_source(code, i) == Some(p));
    }
}

/// The instruction that loads bytes is the producer of the variable that it defines.
proof fn lemma_producer_of(code: Seq<InstructionView>, p: int)
    requires
        0 <= p < code.len(),
        code[p].operation is LoadBytes,
    ensures
        producer(code, defined(code.take(p)).len() as int) == Some(p),
    decreases code.len(),
{
    let shorter = code.drop_last();
    let v = defined(code.take(p)).len() as int;
    if p == code.len() - 1 {
        assert(code.take(p) =~= shorter);
    } else {
        lemma_producer_of(shorter, p);
        assert(shorter.take(p) =~= code.take(p));
        lemma_producer_defined(shorter, v);
    }
}

} // verus!
