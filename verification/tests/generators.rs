use fuzzamoto::builder::ConnectionChoice;
use fuzzamoto::generators::address::{relay_records, relayable_records, AddrRelayPlan, RelayKind};
use fuzzamoto::generators::getaddr::has_getaddr;
use fuzzamoto::generators::taproot::{
    annex_if, gen_secret_key_bytes, is_nonzero_key, maybe_annex, random_leaf_depth, KeyPathPlan,
    ScriptPathPlan, KEYS_PER_CYCLE,
};
use fuzzamoto::generators::taproot_tree::{
    deep_hidden_node, final_version, hidden_nodes_if, maybe_hidden_nodes, random_hidden_nodes,
    settle_version, HiddenNode, LeafPlan, TreeSpendPlan, CHILD_VALUE, PARENT_VALUE,
};
use fuzzamoto::generators::tx::{build_child_tx, build_single_output_tx};
use fuzzamoto::random::key_of;
use fuzzamoto::tapscript::{
    annex, leaf_version, pick_strict_non_default_version, random_annex, random_leaf_version,
    random_tapscript, tapscript_for, tapscript_from, Tapscript,
};
use fuzzamoto::{
    AddrNetwork, AddrRecord, AddrRelayGenerator, AddrRelayV2Generator, Generator, GeneratorError,
    GetAddrGenerator, IndexedVariable, Instruction, Operation, ProgramBuilder, ProgramContext,
    TaprootKeyPathGenerator, TaprootScriptPathGenerator, TaprootTreeSpendGenerator, Variable,
};
use rand::rngs::StdRng;
use rand::SeedableRng;

fn context(num_connections: usize) -> ProgramContext {
    ProgramContext { num_nodes: 1, num_connections, timestamp: 1296688802 }
}

fn funded(txos: u32) -> ProgramBuilder {
    let mut builder = ProgramBuilder::new(context(8));
    for vout in 0..txos {
        builder.force_append(
            vec![],
            Operation::LoadTxo { txid: [7; 32], vout, value: 100_000 },
        );
    }
    builder
}

fn step(inputs: &[usize], operation: Operation) -> Instruction {
    Instruction { inputs: inputs.to_vec(), operation }
}

fn check_types(instructions: &[Instruction]) {
    let mut defined: Vec<Variable> = Vec::new();
    for instruction in instructions {
        let wanted = instruction.operation.input_variables();
        assert_eq!(instruction.inputs.len(), wanted.len());
        for (input, var) in instruction.inputs.iter().zip(wanted) {
            assert_eq!(defined[*input], var);
        }
        let given = instruction.operation.output_variables();
        assert_eq!(instruction.operation.num_outputs(), given.len());
        defined.extend(given);
    }
}

fn is_leaf_script(script: &[u8]) -> bool {
    script == [0x51]
        || script == [0x50]
        || (script.len() == 34 && script[0] == 32 && script[33] == 0xac)
}

fn v1(port: u16) -> AddrRecord {
    AddrRecord::V1 { time: 1, services: 9, ip: [4; 16], port }
}

fn v2(network: AddrNetwork, port: u16) -> AddrRecord {
    AddrRecord::V2 { time: 1, services: 9, network, payload: vec![1, 2, 3, 4], port }
}

fn count<F: Fn(&Operation) -> bool>(instructions: &[Instruction], f: F) -> usize {
    instructions.iter().filter(|i| f(&i.operation)).count()
}

#[test]
fn builder_numbers_variables_in_order() {
    let mut builder = ProgramBuilder::new(context(8));
    let a = builder.force_append_expect_output(vec![], Operation::LoadTxVersion(2));
    let b = builder.force_append_expect_output(vec![], Operation::LoadLockTime(0));
    let c = builder.force_append_expect_output(vec![a.index, b.index], Operation::BeginBuildTx);
    assert_eq!(a, IndexedVariable { var: Variable::TxVersion, index: 0 });
    assert_eq!(b, IndexedVariable { var: Variable::LockTime, index: 1 });
    assert_eq!(c, IndexedVariable { var: Variable::MutTx, index: 2 });
    assert_eq!(builder.context(), &context(8));
    assert_eq!(builder.instructions().len(), 3);
    let program = builder.build();
    assert_eq!(program.context, context(8));
    assert_eq!(program.instructions[2], step(&[0, 1], Operation::BeginBuildTx));
}

#[test]
fn unspent_outputs_leave_out_spent_ones() {
    let mut builder = funded(3);
    assert_eq!(builder.unspent_txos().len(), 3);
    let scripts = builder.force_append_expect_output(vec![], Operation::BuildPayToAnchor);
    build_single_output_tx(&mut builder, 1, scripts.index, 9);
    let left: Vec<usize> = builder.unspent_txos().iter().map(|v| v.index).collect();
    assert_eq!(left, vec![0, 2]);
}

#[test]
fn random_utxos_are_distinct_and_shuffled() {
    let builder = funded(4);
    let mut first_is_not_lowest = false;
    let mut sizes = [false; 5];
    for seed in 0..200 {
        let mut rng = StdRng::seed_from_u64(seed);
        let found = builder.get_random_utxos(&mut rng);
        assert!(!found.is_empty() && found.len() <= 4);
        sizes[found.len()] = true;
        let mut seen: Vec<usize> = found.iter().map(|v| v.index).collect();
        first_is_not_lowest |= seen.windows(2).any(|w| w[0] > w[1]);
        seen.sort();
        seen.dedup();
        assert_eq!(seen.len(), found.len());
        assert!(found.iter().all(|v| v.var == Variable::Txo && v.index < 4));
    }
    assert!(first_is_not_lowest);
    assert_eq!(sizes, [false, true, true, true, true]);
    let mut rng = StdRng::seed_from_u64(0);
    assert!(ProgramBuilder::new(context(8)).get_random_utxos(&mut rng).is_empty());
}

#[test]
fn connections_are_loaded_only_where_there_is_none() {
    let mut loaded = [false; 8];
    for seed in 0..200 {
        let mut rng = StdRng::seed_from_u64(seed);
        let mut builder = ProgramBuilder::new(context(8));
        let first = builder.get_or_create_random_connection(&mut rng);
        assert_eq!(first, IndexedVariable { var: Variable::Connection, index: 0 });
        match &builder.instructions()[0].operation {
            Operation::LoadConnection(n) => loaded[*n] = true,
            other => panic!("{other:?}"),
        }
        let second = builder.get_or_create_random_connection(&mut rng);
        assert_eq!(second, first);
        assert_eq!(builder.instructions().len(), 1);
    }
    assert_eq!(loaded, [true; 8]);
}

#[test]
fn single_output_tx_is_written_out() {
    let mut builder = funded(1);
    let scripts = builder.force_append_expect_output(vec![], Operation::BuildPayToAnchor);
    let tx = build_single_output_tx(&mut builder, 0, scripts.index, 79_500);
    assert_eq!(tx, IndexedVariable { var: Variable::ConstTx, index: 11 });
    let expected = vec![
        step(&[], Operation::LoadTxVersion(2)),
        step(&[], Operation::LoadLockTime(0)),
        step(&[2, 3], Operation::BeginBuildTx),
        step(&[], Operation::BeginBuildTxInputs),
        step(&[], Operation::LoadSequence(0xfffffffe)),
        step(&[5, 0, 6], Operation::AddTxInput),
        step(&[5], Operation::EndBuildTxInputs),
        step(&[7], Operation::BeginBuildTxOutputs),
        step(&[], Operation::LoadAmount(79_500)),
        step(&[8, 1, 9], Operation::AddTxOutput),
        step(&[8], Operation::EndBuildTxOutputs),
        step(&[4, 7, 10], Operation::EndBuildTx),
    ];
    assert_eq!(&builder.instructions()[2..], &expected[..]);
}

#[test]
fn child_tx_pays_to_an_anchor() {
    let mut builder = funded(1);
    let funding = IndexedVariable { var: Variable::Txo, index: 0 };
    let tx = build_child_tx(&mut builder, funding, 5_000);
    assert_eq!(tx.var, Variable::ConstTx);
    let code = builder.instructions();
    assert_eq!(code[6], step(&[4, 0, 5], Operation::AddTxInput));
    assert_eq!(code[9], step(&[], Operation::BuildPayToAnchor));
    assert_eq!(code[10], step(&[], Operation::LoadAmount(5_000)));
    assert_eq!(code[11], step(&[7, 8, 9], Operation::AddTxOutput));
    assert_eq!(code.last().unwrap().operation, Operation::EndBuildTx);
    check_types(code);
}

#[test]
fn key_path_plan_is_written_out() {
    let mut builder = funded(1);
    let mut key = [0u8; 32];
    key[31] = 3;
    let plan = KeyPathPlan {
        funding_txo: 0,
        secret_key: key,
        child_amount: 6_000,
        connection: ConnectionChoice::Load(5),
    };
    TaprootKeyPathGenerator.emit(&mut builder, plan);
    let expected = vec![
        step(&[], Operation::LoadTxVersion(2)),
        step(&[], Operation::LoadLockTime(0)),
        step(&[1, 2], Operation::BeginBuildTx),
        step(&[], Operation::BeginBuildTxInputs),
        step(&[], Operation::LoadSequence(0xfffffffe)),
        step(&[4, 0, 5], Operation::AddTxInput),
        step(&[4], Operation::EndBuildTxInputs),
        step(&[6], Operation::BeginBuildTxOutputs),
        step(&[], Operation::BuildTaprootKeypair { secret_key: key }),
        step(&[], Operation::BeginTaprootTree),
        step(&[9, 8], Operation::EndTaprootTree { selected_leaf_index: None }),
        step(&[10], Operation::BuildPayToTaproot),
        step(&[], Operation::LoadAmount(50_000)),
        step(&[7, 11, 12], Operation::AddTxOutput),
        step(&[7], Operation::EndBuildTxOutputs),
        step(&[3, 6, 13], Operation::EndBuildTx),
        step(&[14], Operation::TakeTxo),
        step(&[], Operation::LoadTxVersion(2)),
        step(&[], Operation::LoadLockTime(0)),
        step(&[16, 17], Operation::BeginBuildTx),
        step(&[], Operation::BeginBuildTxInputs),
        step(&[], Operation::LoadSequence(0xfffffffe)),
        step(&[19, 15, 20], Operation::AddTxInput),
        step(&[19], Operation::EndBuildTxInputs),
        step(&[21], Operation::BeginBuildTxOutputs),
        step(&[], Operation::BuildPayToAnchor),
        step(&[], Operation::LoadAmount(6_000)),
        step(&[22, 23, 24], Operation::AddTxOutput),
        step(&[22], Operation::EndBuildTxOutputs),
        step(&[18, 21, 25], Operation::EndBuildTx),
        step(&[], Operation::LoadConnection(5)),
        step(&[27, 14], Operation::SendTx),
        step(&[27, 26], Operation::SendTx),
    ];
    assert_eq!(&builder.instructions()[1..], &expected[..]);
    assert!(builder.unspent_txos().is_empty());
}

#[test]
fn script_path_plan_is_written_out() {
    let mut builder = funded(1);
    let connection = builder.force_append_expect_output(vec![], Operation::LoadConnection(1));
    let plan = ScriptPathPlan {
        funding_txo: 0,
        secret_key: [9; 32],
        script: vec![0x51],
        depth: 4,
        annex: Some(vec![0x50, 1]),
        child_amount: 19_999,
        connection: ConnectionChoice::Known(connection.index),
    };
    TaprootScriptPathGenerator.emit(&mut builder, plan);
    let code = builder.instructions();
    check_types(code);
    let tree = vec![
        step(&[], Operation::BuildTaprootKeypair { secret_key: [9; 32] }),
        step(&[], Operation::BeginTaprootTree),
        step(&[], Operation::LoadBytes(vec![0x51])),
        step(&[], Operation::LoadTaprootLeafVersion(0xc0)),
        step(&[10, 11, 12], Operation::AddTapLeaf { depth: 4 }),
        step(&[10, 9], Operation::EndTaprootTree { selected_leaf_index: Some(0) }),
        step(&[13], Operation::BuildPayToTaproot),
        step(&[], Operation::LoadAmount(60_000)),
    ];
    assert_eq!(&code[10..18], &tree[..]);
    let annex = vec![
        step(&[17], Operation::TakeTxo),
        step(&[], Operation::LoadTaprootAnnex { annex: vec![0x50, 1] }),
        step(&[18, 19], Operation::TaprootTxoUseAnnex),
    ];
    assert_eq!(&code[21..24], &annex[..]);
    assert_eq!(code[29], step(&[24, 20, 25], Operation::AddTxInput));
    assert_eq!(code[code.len() - 2], step(&[1, 17], Operation::SendTx));
    assert_eq!(code[code.len() - 1], step(&[1, 31], Operation::SendTx));
}

#[test]
fn tree_spend_plan_is_written_out() {
    assert_eq!(PARENT_VALUE, 79_500);
    assert_eq!(CHILD_VALUE, 79_000);
    let mut builder = funded(2);
    let plan = TreeSpendPlan {
        funding_txo: 1,
        leaves: vec![
            LeafPlan { hidden: vec![], script: vec![0x50], version: 0xc0, depth: 3 },
            LeafPlan {
                hidden: vec![HiddenNode { depth: 2, hash: [8; 32] }],
                script: vec![0x51],
                version: 0xc4,
                depth: 0,
            },
        ],
        deep_node: Some(HiddenNode { depth: 2, hash: [5; 32] }),
        secret_key: [1; 32],
        annex: None,
        connection: ConnectionChoice::Load(0),
    };
    TaprootTreeSpendGenerator.emit(&mut builder, plan);
    let code = builder.instructions();
    check_types(code);
    let tree = vec![
        step(&[], Operation::BeginTaprootTree),
        step(&[], Operation::LoadBytes(vec![0x50])),
        step(&[], Operation::LoadTaprootLeafVersion(0xc0)),
        step(&[2, 3, 4], Operation::AddTapLeaf { depth: 3 }),
        step(&[2], Operation::AddTaprootHiddenNode { depth: 2, hash: [8; 32] }),
        step(&[], Operation::LoadBytes(vec![0x51])),
        step(&[], Operation::LoadTaprootLeafVersion(0xc4)),
        step(&[2, 5, 6], Operation::AddTapLeaf { depth: 0 }),
        step(&[2], Operation::AddTaprootHiddenNode { depth: 2, hash: [5; 32] }),
        step(&[], Operation::BuildTaprootKeypair { secret_key: [1; 32] }),
        step(&[2, 7], Operation::EndTaprootTree { selected_leaf_index: Some(1) }),
        step(&[8], Operation::BuildPayToTaproot),
    ];
    assert_eq!(&code[2..14], &tree[..]);
    assert_eq!(code[19], step(&[13, 1, 14], Operation::AddTxInput));
    assert_eq!(code[22], step(&[], Operation::LoadAmount(79_500)));
    assert_eq!(code[26], step(&[19], Operation::TakeTxo));
    assert_eq!(code[27], step(&[], Operation::BuildPayToAnchor));
    assert_eq!(code[36], step(&[], Operation::LoadAmount(79_000)));
    assert_eq!(code[code.len() - 2].operation, Operation::SendTx);
    let left: Vec<usize> = builder.unspent_txos().iter().map(|v| v.index).collect();
    assert_eq!(left, vec![0]);
}

#[test]
fn taproot_generators_need_an_output() {
    let mut rng = StdRng::seed_from_u64(1);
    let mut builder = ProgramBuilder::new(context(8));
    let missing = Err(GeneratorError::MissingVariables);
    assert_eq!(TaprootKeyPathGenerator::default().generate(&mut builder, &mut rng), missing);
    assert_eq!(TaprootScriptPathGenerator::default().generate(&mut builder, &mut rng), missing);
    assert_eq!(TaprootTreeSpendGenerator::default().generate(&mut builder, &mut rng), missing);
    assert!(builder.instructions().is_empty());
}

#[test]
fn key_path_generator_draws_within_bounds() {
    for seed in 0..100 {
        let mut rng = StdRng::seed_from_u64(seed);
        let mut builder = funded(3);
        assert_eq!(TaprootKeyPathGenerator.generate(&mut builder, &mut rng), Ok(()));
        let code = builder.instructions();
        check_types(code);
        assert_eq!(code.len(), 3 + 33);
        match &code[29].operation {
            Operation::LoadAmount(amount) => assert!((5_000..20_000).contains(amount)),
            other => panic!("{other:?}"),
        }
        assert_eq!(count(code, |o| matches!(o, Operation::SendTx)), 2);
        assert_eq!(builder.unspent_txos().len(), 2);
    }
}

#[test]
fn script_path_generator_sometimes_adds_an_annex() {
    let mut with = 0;
    for seed in 0..100 {
        let mut rng = StdRng::seed_from_u64(seed);
        let mut builder = funded(1);
        assert_eq!(TaprootScriptPathGenerator.generate(&mut builder, &mut rng), Ok(()));
        let code = builder.instructions();
        check_types(code);
        with += count(code, |o| matches!(o, Operation::TaprootTxoUseAnnex));
        for instruction in code {
            match &instruction.operation {
                Operation::LoadBytes(script) => assert!(is_leaf_script(script)),
                Operation::AddTapLeaf { depth } => assert!(*depth <= 5),
                Operation::LoadTaprootAnnex { annex } => {
                    assert!(annex[0] == 0x50 && annex.len() <= 65)
                }
                _ => {}
            }
        }
    }
    assert!(with > 0 && with < 100);
}

#[test]
fn tree_spend_generator_mixes_leaves() {
    let mut leaf_counts = [0; 5];
    let mut deep = 0;
    for seed in 0..200 {
        let mut rng = StdRng::seed_from_u64(seed);
        let mut builder = funded(1);
        assert_eq!(TaprootTreeSpendGenerator.generate(&mut builder, &mut rng), Ok(()));
        let code = builder.instructions();
        check_types(code);
        let leaves = count(code, |o| matches!(o, Operation::AddTapLeaf { .. }));
        leaf_counts[leaves] += 1;
        let depths: Vec<u8> = code
            .iter()
            .filter_map(|i| match i.operation {
                Operation::AddTapLeaf { depth } => Some(depth),
                _ => None,
            })
            .collect();
        assert!(depths[0] >= 3 && depths.iter().all(|d| *d <= 5));
        let versions: Vec<u8> = code
            .iter()
            .filter_map(|i| match i.operation {
                Operation::LoadTaprootLeafVersion(v) => Some(v),
                _ => None,
            })
            .collect();
        assert!(versions.iter().any(|v| [0xc2, 0xc4, 0xc6, 0xd0].contains(v)));
        assert!(versions.iter().all(|v| [0xc0, 0xc2, 0xc4, 0xc6, 0xd0].contains(v)));
        let keypair = code
            .iter()
            .position(|i| matches!(i.operation, Operation::BuildTaprootKeypair { .. }))
            .unwrap();
        if let Operation::AddTaprootHiddenNode { depth, .. } = code[keypair - 1].operation {
            assert_eq!(depth, depths.iter().max().unwrap() - 1);
            deep += 1;
        }
    }
    assert!(leaf_counts[0] == 0 && leaf_counts[1] == 0);
    assert!(leaf_counts[2] > 0 && leaf_counts[3] > 0 && leaf_counts[4] > 0);
    assert!(deep > 0 && deep < 200);
}

#[test]
fn generators_have_names() {
    assert_eq!(TaprootKeyPathGenerator.name(), "TaprootKeyPathGenerator");
    assert_eq!(TaprootScriptPathGenerator.name(), "TaprootScriptPathGenerator");
    assert_eq!(TaprootTreeSpendGenerator.name(), "TaprootTreeSpendGenerator");
    assert_eq!(AddrRelayGenerator::default().name(), "AddrRelayGenerator");
    assert_eq!(AddrRelayV2Generator::default().name(), "AddrRelayV2Generator");
    assert_eq!(GetAddrGenerator::default().name(), "GetAddrGenerator");
}

#[test]
fn deep_hidden_node_sits_above_the_deepest_leaf() {
    assert_eq!(deep_hidden_node(5, Some([3; 32])).map(|n| (n.depth, n.hash)), Some((4, [3; 32])));
    assert_eq!(deep_hidden_node(2, Some([3; 32])).map(|n| n.depth), Some(1));
    assert!(deep_hidden_node(1, Some([3; 32])).is_none());
    assert!(deep_hidden_node(0, Some([3; 32])).is_none());
    assert!(deep_hidden_node(5, None).is_none());
}

#[test]
fn hidden_nodes_are_few_and_shallow() {
    let mut counts = [0; 3];
    let mut hashes = 0;
    for seed in 0..200 {
        let mut rng = StdRng::seed_from_u64(seed);
        let nodes = maybe_hidden_nodes(&mut rng);
        counts[nodes.len()] += 1;
        assert!(nodes.iter().all(|n| (1..=3).contains(&n.depth)));
        hashes += nodes.iter().filter(|n| n.hash != [0; 32]).count();
    }
    assert!(counts.iter().all(|c| *c > 0));
    assert!(hashes > 0);
}

#[test]
fn hidden_nodes_come_as_asked() {
    let mut rng = StdRng::seed_from_u64(5);
    for count in 0..6 {
        let nodes = random_hidden_nodes(&mut rng, count);
        assert_eq!(nodes.len(), count);
        assert!(nodes.iter().all(|n| (1..=3).contains(&n.depth)));
    }
    for _ in 0..50 {
        assert!(hidden_nodes_if(&mut rng, false).is_empty());
        assert!((1..=2).contains(&hidden_nodes_if(&mut rng, true).len()));
    }
}

#[test]
fn annexes_come_as_asked() {
    let mut rng = StdRng::seed_from_u64(6);
    let mut some = 0;
    for _ in 0..100 {
        assert!(annex_if(&mut rng, false).is_none());
        assert_eq!(annex_if(&mut rng, true).unwrap()[0], 0x50);
        some += usize::from(maybe_annex(&mut rng).is_some());
    }
    assert!(some > 0 && some < 100);
}

#[test]
fn keys_are_made_of_their_bytes() {
    let bytes: Vec<u8> = (1..=32).collect();
    assert_eq!(key_of(&bytes)[..], bytes[..]);
}

#[test]
fn tapscripts_have_three_encodings() {
    assert_eq!(Tapscript::True.encode(), vec![0x51]);
    assert_eq!(Tapscript::Success.encode(), vec![0x50]);
    let mut checksig = vec![32];
    checksig.extend([6u8; 32]);
    checksig.push(0xac);
    assert_eq!(Tapscript::CheckSig([6; 32]).encode(), checksig);
}

#[test]
fn random_tapscripts_are_of_every_kind() {
    let mut lengths = [0; 35];
    let mut keys = 0;
    for seed in 0..100 {
        let mut rng = StdRng::seed_from_u64(seed);
        let script = random_tapscript(&mut rng);
        assert!(is_leaf_script(&script));
        if script.len() == 34 && script[1..33] != [0u8; 32] {
            keys += 1;
        }
        lengths[script.len()] += 1;
    }
    assert!(lengths[1] > 0 && lengths[34] > 0);
    assert!(keys > 0);
}

#[test]
fn leaf_versions_differ_from_the_default_only_when_picked() {
    assert_eq!(leaf_version(None), (0xc0, false));
    assert_eq!(leaf_version(Some(0xc6)), (0xc6, true));
    let mut picked = Vec::new();
    let mut defaults = 0;
    for seed in 0..200 {
        let mut rng = StdRng::seed_from_u64(seed);
        match random_leaf_version(&mut rng) {
            (0xc0, false) => defaults += 1,
            (version, true) => picked.push(version),
            other => panic!("{other:?}"),
        }
        let strict = pick_strict_non_default_version(&mut rng);
        assert!([0xc2, 0xc4, 0xc6, 0xd0].contains(&strict));
    }
    assert!(defaults > 0);
    picked.sort();
    picked.dedup();
    assert_eq!(picked, vec![0xc2, 0xc4, 0xc6, 0xd0]);
}

#[test]
fn annexes_start_with_the_prefix() {
    assert_eq!(annex(vec![]), vec![0x50]);
    assert_eq!(annex(vec![1, 2]), vec![0x50, 1, 2]);
    let mut longest = 0;
    for seed in 0..300 {
        let mut rng = StdRng::seed_from_u64(seed);
        let annex = random_annex(&mut rng);
        assert_eq!(annex[0], 0x50);
        assert!(annex.len() <= 65);
        longest = longest.max(annex.len());
    }
    assert!(longest > 32);
}

#[test]
fn secret_keys_are_not_zero() {
    assert!(!is_nonzero_key(&[0; 32]));
    let mut one = [0u8; 32];
    one[17] = 1;
    assert!(is_nonzero_key(&one));
    let mut rng = StdRng::seed_from_u64(3);
    let a = gen_secret_key_bytes(&mut rng);
    let b = gen_secret_key_bytes(&mut rng);
    assert!(is_nonzero_key(&a) && is_nonzero_key(&b));
    assert_ne!(a, b);
    assert_eq!(KEYS_PER_CYCLE * 32, 1u128 << 70);
}

#[test]
fn leaf_depths_stay_in_range() {
    let mut any = [false; 6];
    let mut deep = [false; 6];
    for seed in 0..200 {
        let mut rng = StdRng::seed_from_u64(seed);
        any[random_leaf_depth(&mut rng, false) as usize] = true;
        deep[random_leaf_depth(&mut rng, true) as usize] = true;
    }
    assert_eq!(any, [true; 6]);
    assert_eq!(deep, [false, false, false, true, true, true]);
}

#[test]
fn relayable_records_depend_on_the_message() {
    let records = vec![
        v1(1),
        v2(AddrNetwork::TorV2, 2),
        v2(AddrNetwork::TorV3, 3),
        v1(4),
        v2(AddrNetwork::Unknown(9), 5),
    ];
    assert_eq!(relayable_records(RelayKind::Addr, &records), vec![v1(1), v1(4)]);
    assert_eq!(
        relayable_records(RelayKind::AddrV2, &records),
        vec![v2(AddrNetwork::TorV3, 3), v2(AddrNetwork::Unknown(9), 5)]
    );
}

#[test]
fn relay_plan_is_written_out() {
    let mut builder = ProgramBuilder::new(context(8));
    let plan = AddrRelayPlan { connection: ConnectionChoice::Load(5), order: vec![1, 0] };
    relay_records(RelayKind::Addr, &mut builder, &[v1(1), v1(2)], &plan);
    let expected = vec![
        step(&[], Operation::LoadConnection(5)),
        step(&[], Operation::BeginBuildAddrList),
        step(&[], Operation::LoadAddr(v1(2))),
        step(&[1, 2], Operation::AddAddr),
        step(&[], Operation::LoadAddr(v1(1))),
        step(&[1, 3], Operation::AddAddr),
        step(&[1], Operation::EndBuildAddrList),
        step(&[0, 4], Operation::SendAddr),
    ];
    assert_eq!(builder.instructions(), &expected[..]);

    let again = AddrRelayPlan { connection: ConnectionChoice::Known(0), order: vec![0] };
    relay_records(RelayKind::AddrV2, &mut builder, &[v2(AddrNetwork::I2P, 7)], &again);
    let expected = vec![
        step(&[], Operation::BeginBuildAddrListV2),
        step(&[], Operation::LoadAddr(v2(AddrNetwork::I2P, 7))),
        step(&[5, 6], Operation::AddAddrV2),
        step(&[5], Operation::EndBuildAddrListV2),
        step(&[0, 7], Operation::SendAddrV2),
    ];
    assert_eq!(&builder.instructions()[8..], &expected[..]);
}

#[test]
fn address_relay_needs_records_it_can_relay() {
    let mut rng = StdRng::seed_from_u64(1);
    let mut builder = ProgramBuilder::new(context(3));
    let invalid = Err(GeneratorError::InvalidContext(context(3)));
    assert_eq!(AddrRelayGenerator::default().generate(&mut builder, &mut rng), invalid);
    let only_v2 = AddrRelayGenerator::new(vec![v2(AddrNetwork::IPv6, 1)]);
    assert_eq!(only_v2.generate(&mut builder, &mut rng), invalid);
    let only_tor2 = AddrRelayV2Generator::new(vec![v2(AddrNetwork::TorV2, 1), v1(2)]);
    assert_eq!(only_tor2.generate(&mut builder, &mut rng), invalid);
    assert!(builder.instructions().is_empty());
}

#[test]
fn address_relay_sends_at_most_sixteen_records() {
    let records: Vec<AddrRecord> = (0..40).map(v1).collect();
    let generator = AddrRelayGenerator::new(records);
    let mut most = 0;
    let mut least = 100;
    let mut shuffled = false;
    for seed in 0..300 {
        let mut rng = StdRng::seed_from_u64(seed);
        let mut builder = ProgramBuilder::new(context(8));
        assert_eq!(generator.generate(&mut builder, &mut rng), Ok(()));
        let code = builder.instructions();
        check_types(code);
        let ports: Vec<u16> = code
            .iter()
            .filter_map(|i| match &i.operation {
                Operation::LoadAddr(AddrRecord::V1 { port, .. }) => Some(*port),
                _ => None,
            })
            .collect();
        let mut distinct = ports.clone();
        distinct.sort();
        shuffled |= distinct != ports;
        distinct.dedup();
        assert_eq!(distinct.len(), ports.len());
        most = most.max(ports.len());
        least = least.min(ports.len());
        assert_eq!(code.len(), 2 * ports.len() + 4);
        assert_eq!(code.last().unwrap().operation, Operation::SendAddr);
    }
    assert_eq!((least, most), (1, 16));
    assert!(shuffled);
}

#[test]
fn addrv2_relay_leaves_out_tor_v2() {
    let generator = AddrRelayV2Generator::new(vec![
        v2(AddrNetwork::TorV2, 1),
        v2(AddrNetwork::TorV3, 2),
        v2(AddrNetwork::Cjdns, 3),
    ]);
    for seed in 0..50 {
        let mut rng = StdRng::seed_from_u64(seed);
        let mut builder = ProgramBuilder::new(context(1));
        assert_eq!(generator.generate(&mut builder, &mut rng), Ok(()));
        check_types(builder.instructions());
        for instruction in builder.instructions() {
            if let Operation::LoadAddr(AddrRecord::V2 { network, .. }) = &instruction.operation {
                assert_ne!(*network, AddrNetwork::TorV2);
            }
        }
    }
}

#[test]
fn getaddr_is_sent_once() {
    let mut rng = StdRng::seed_from_u64(1);
    let mut builder = ProgramBuilder::new(context(8));
    assert!(!has_getaddr(builder.instructions()));
    assert_eq!(GetAddrGenerator.generate(&mut builder, &mut rng), Ok(()));
    assert_eq!(builder.instructions().len(), 2);
    assert_eq!(builder.instructions()[1], step(&[0], Operation::SendGetAddr));
    assert!(has_getaddr(builder.instructions()));
    assert_eq!(
        GetAddrGenerator.generate(&mut builder, &mut rng),
        Err(GeneratorError::MissingVariables)
    );
    assert_eq!(builder.instructions().len(), 2);
}

#[test]
fn getaddr_needs_a_connection() {
    let mut rng = StdRng::seed_from_u64(1);
    let mut builder = ProgramBuilder::new(context(0));
    assert_eq!(
        GetAddrGenerator.generate(&mut builder, &mut rng),
        Err(GeneratorError::InvalidContext(context(0)))
    );
    assert!(builder.instructions().is_empty());
}

#[test]
fn failing_generators_draw_nothing() {
    let untouched = StdRng::seed_from_u64(9);
    let mut rng = untouched.clone();
    let mut builder = ProgramBuilder::new(context(0));
    assert!(AddrRelayGenerator::new(vec![v2(AddrNetwork::I2P, 1)])
        .generate(&mut builder, &mut rng)
        .is_err());
    assert!(AddrRelayV2Generator::new(vec![v1(1), v2(AddrNetwork::TorV2, 2)])
        .generate(&mut builder, &mut rng)
        .is_err());
    assert!(GetAddrGenerator.generate(&mut builder, &mut rng).is_err());
    assert!(TaprootKeyPathGenerator.generate(&mut builder, &mut rng).is_err());
    assert!(TaprootScriptPathGenerator.generate(&mut builder, &mut rng).is_err());
    assert!(TaprootTreeSpendGenerator.generate(&mut builder, &mut rng).is_err());
    assert!(rng == untouched);

    let mut asked = ProgramBuilder::new(context(1));
    let connection = asked.force_append_expect_output(vec![], Operation::LoadConnection(0));
    asked.force_append(vec![connection.index], Operation::SendGetAddr);
    assert!(GetAddrGenerator.generate(&mut asked, &mut rng).is_err());
    assert!(rng == untouched);

    assert_eq!(GetAddrGenerator.generate(&mut ProgramBuilder::new(context(3)), &mut rng), Ok(()));
    assert!(rng != untouched);
}

#[test]
fn drawn_numbers_choose_the_leaf_script() {
    assert_eq!(tapscript_for(0, [6; 32]).encode(), vec![0x51]);
    assert_eq!(tapscript_for(1, [6; 32]).encode()[1..33], [6u8; 32]);
    assert_eq!(tapscript_for(2, [6; 32]).encode(), vec![0x50]);
    assert_eq!(tapscript_for(u32::MAX, [6; 32]).encode(), vec![0x50]);
    let untouched = StdRng::seed_from_u64(2);
    let mut rng = untouched.clone();
    assert_eq!(tapscript_from(&mut rng, 0).encode(), vec![0x51]);
    assert_eq!(tapscript_from(&mut rng, 2).encode(), vec![0x50]);
    assert!(rng == untouched);
    assert_eq!(tapscript_from(&mut rng, 1).encode().len(), 34);
    assert!(rng != untouched);
}

#[test]
fn versions_are_forced_on_the_last_leaf_only() {
    let strict = 0xd0;
    for last in [false, true] {
        for seen in [false, true] {
            for candidate in [(0xc0, false), (0xc2, true)] {
                let forced = last && !seen && !candidate.1;
                let expected = if forced { (strict, true) } else { candidate };
                assert_eq!(final_version(last, seen, candidate, strict), expected);
                let untouched = StdRng::seed_from_u64(4);
                let mut rng = untouched.clone();
                let settled = settle_version(&mut rng, last, seen, candidate);
                assert_eq!(rng == untouched, !forced);
                if forced {
                    assert!(settled.1 && [0xc2, 0xc4, 0xc6, 0xd0].contains(&settled.0));
                } else {
                    assert_eq!(settled, candidate);
                }
            }
        }
    }
}
