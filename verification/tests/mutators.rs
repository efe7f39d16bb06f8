use fuzzamoto::mutators::taproot::{build_variable_producers, replace_script, script_candidates};
use fuzzamoto::{
    Generator, Instruction, Mutator, MutatorError, Operation, Program, ProgramBuilder,
    ProgramContext, TaprootScriptMutator, TaprootTreeSpendGenerator,
};
use rand::rngs::StdRng;
use rand::SeedableRng;

fn context() -> ProgramContext {
    ProgramContext { num_nodes: 1, num_connections: 8, timestamp: 1296688802 }
}

fn step(inputs: &[usize], operation: Operation) -> Instruction {
    Instruction { inputs: inputs.to_vec(), operation }
}

fn leaf_program() -> Program {
    Program {
        instructions: vec![
            step(&[], Operation::LoadTxVersion(2)),
            step(&[], Operation::BeginTaprootTree),
            step(&[], Operation::LoadBytes(vec![1, 2, 3])),
            step(&[], Operation::LoadTaprootLeafVersion(0xc0)),
            step(&[1, 2, 3], Operation::AddTapLeaf { depth: 0 }),
            step(&[1], Operation::AddTaprootHiddenNode { depth: 1, hash: [0; 32] }),
            step(&[], Operation::LoadBytes(vec![4])),
            step(&[], Operation::LoadTaprootLeafVersion(0xc2)),
            step(&[1, 4, 5], Operation::AddTapLeaf { depth: 1 }),
            step(&[], Operation::LoadBytes(vec![9, 9])),
        ],
        context: context(),
    }
}

#[test]
fn producers_skip_operations_without_outputs() {
    assert_eq!(build_variable_producers(&leaf_program().instructions), vec![0, 1, 2, 3, 6, 7, 9]);
    assert!(build_variable_producers(&[]).is_empty());
}

#[test]
fn candidates_are_the_scripts_of_leaves() {
    assert_eq!(script_candidates(&leaf_program().instructions), vec![2, 6]);
    let mut program = leaf_program();
    program.instructions[4].inputs[1] = 0;
    assert_eq!(script_candidates(&program.instructions), vec![6]);
    program.instructions[8].inputs[1] = 99;
    assert!(script_candidates(&program.instructions).is_empty());
    program.instructions[8].inputs = vec![1];
    assert!(script_candidates(&program.instructions).is_empty());
}

#[test]
fn mutation_replaces_one_leaf_script() {
    let mut hit = [false; 10];
    for seed in 0..100 {
        let mut rng = StdRng::seed_from_u64(seed);
        let before = leaf_program();
        let mut after = leaf_program();
        assert_eq!(TaprootScriptMutator::new().mutate(&mut after, &mut rng), Ok(()));
        assert_eq!(after.context, before.context);
        assert_eq!(after.instructions.len(), before.instructions.len());
        for i in 0..before.instructions.len() {
            if after.instructions[i] == before.instructions[i] {
                continue;
            }
            hit[i] = true;
            assert_eq!(after.instructions[i].inputs, before.instructions[i].inputs);
            match &after.instructions[i].operation {
                Operation::LoadBytes(script) => assert!(
                    script[..] == [0x50]
                        || script[..] == [0x51]
                        || (script.len() == 34 && script[0] == 32 && script[33] == 0xac)
                ),
                other => panic!("{other:?}"),
            }
        }
    }
    let mut expected = [false; 10];
    expected[2] = true;
    expected[6] = true;
    assert_eq!(hit, expected);
}

#[test]
fn mutation_needs_a_leaf() {
    let mut rng = StdRng::seed_from_u64(1);
    let mut program = leaf_program();
    program.instructions.truncate(4);
    let before = program.clone();
    let untouched = rng.clone();
    assert_eq!(
        TaprootScriptMutator::new().mutate(&mut program, &mut rng),
        Err(MutatorError::NoMutationsAvailable)
    );
    assert_eq!(program, before);
    assert!(rng == untouched);
}

#[test]
fn only_loaded_bytes_are_replaced() {
    let mut program = leaf_program();
    assert_eq!(replace_script(&mut program, 2, vec![0x50]), Ok(()));
    assert_eq!(program.instructions[2], step(&[], Operation::LoadBytes(vec![0x50])));
    let before = program.clone();
    assert_eq!(
        replace_script(&mut program, 3, vec![0x50]),
        Err(MutatorError::CreatedInvalidProgram)
    );
    assert_eq!(program, before);
}

#[test]
fn generated_trees_can_be_mutated() {
    let mut rng = StdRng::seed_from_u64(11);
    let mut builder = ProgramBuilder::new(context());
    builder.force_append(vec![], Operation::LoadTxo { txid: [1; 32], vout: 0, value: 90_000 });
    TaprootTreeSpendGenerator.generate(&mut builder, &mut rng).unwrap();
    let mut program = builder.build();
    let leaves = program
        .instructions
        .iter()
        .filter(|i| matches!(i.operation, Operation::AddTapLeaf { .. }))
        .count();
    assert_eq!(script_candidates(&program.instructions).len(), leaves);
    assert_eq!(TaprootScriptMutator::new().mutate(&mut program, &mut rng), Ok(()));
    assert_eq!(TaprootScriptMutator::new().name(), "TaprootScriptMutator");
}
