use fuzzamoto::input::{limit_target_bytes, MAX_COMPILED_BYTES, MAX_IR_BYTES, MAX_TRACE_ENTRIES};
use fuzzamoto::{Instruction, IrInput, MutationStage, MutationTraceEntry, Operation, Program, ProgramContext};

fn program() -> Program {
    Program {
        instructions: vec![
            Instruction { inputs: vec![], operation: Operation::LoadConnection(5) },
            Instruction { inputs: vec![0], operation: Operation::SendGetAddr },
        ],
        context: ProgramContext { num_nodes: 1, num_connections: 8, timestamp: 1296688802 },
    }
}

#[test]
fn new_input_has_no_trace() {
    let input = IrInput::new(program());
    assert_eq!(input.ir(), &program());
    assert!(input.trace().is_empty());
    assert_eq!(input.len(), 2);
}

#[test]
fn trace_records_steps_in_order() {
    let mut input = IrInput::new(program());
    input.record_trace(MutationStage::Generator, "AddrRelayGenerator".to_string(), None);
    input.record_trace(MutationStage::Mutator, "OperationMutator".to_string(), None);
    input.record_trace(MutationStage::Splice, "CombineMutator".to_string(), Some("x".to_string()));
    let expected = vec![
        MutationTraceEntry {
            stage: MutationStage::Generator,
            name: "AddrRelayGenerator".to_string(),
            detail: None,
        },
        MutationTraceEntry {
            stage: MutationStage::Mutator,
            name: "OperationMutator".to_string(),
            detail: None,
        },
        MutationTraceEntry {
            stage: MutationStage::Splice,
            name: "CombineMutator".to_string(),
            detail: Some("x".to_string()),
        },
    ];
    assert_eq!(input.trace(), &expected[..]);
    assert_eq!(input.ir(), &program());
    input.clear_trace();
    assert!(input.trace().is_empty());
    assert_eq!(input.ir(), &program());
}

#[test]
fn trace_keeps_the_latest_entries() {
    let mut input = IrInput::new(program());
    for i in 0..100 {
        input.record_trace(MutationStage::Mutator, format!("m{i}"), None);
        assert!(input.trace().len() <= MAX_TRACE_ENTRIES);
    }
    assert_eq!(input.trace().len(), 64);
    assert_eq!(input.trace()[0].name, "m36");
    assert_eq!(input.trace()[63].name, "m99");
}

#[test]
fn long_trace_is_cut_at_once() {
    let entries: Vec<MutationTraceEntry> = (0..80)
        .map(|i| MutationTraceEntry {
            stage: MutationStage::Splice,
            name: format!("s{i}"),
            detail: None,
        })
        .collect();
    let mut input = IrInput::with_trace(program(), entries);
    assert_eq!(input.trace().len(), 80);
    input.record_trace(MutationStage::Generator, "last".to_string(), None);
    assert_eq!(input.trace().len(), 64);
    assert_eq!(input.trace()[0].name, "s17");
    assert_eq!(input.trace()[63].name, "last");
}

#[test]
fn program_can_be_changed_in_place() {
    let mut input = IrInput::new(program());
    input.record_trace(MutationStage::Mutator, "m".to_string(), None);
    input.ir_mut().instructions.clear();
    assert_eq!(input.len(), 0);
    assert_eq!(input.trace().len(), 1);
}

#[test]
fn oversized_target_bytes_are_dropped() {
    assert_eq!(MAX_COMPILED_BYTES, 8 * 1024 * 1024);
    assert_eq!(MAX_IR_BYTES, 1024 * 1024);
    assert_eq!(limit_target_bytes(vec![1, 2, 3], 3), vec![1, 2, 3]);
    assert_eq!(limit_target_bytes(vec![1, 2, 3, 4], 3), Vec::<u8>::new());
    assert_eq!(limit_target_bytes(vec![7; MAX_IR_BYTES], MAX_IR_BYTES).len(), MAX_IR_BYTES);
    assert!(limit_target_bytes(vec![7; MAX_IR_BYTES + 1], MAX_IR_BYTES).is_empty());
}
