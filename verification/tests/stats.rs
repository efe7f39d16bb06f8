use fuzzamoto::bench::csv::{bench_line, parse_bench_rows, BenchRow, BENCH_HEADER};
use fuzzamoto::bench::stats::{
    count_covered, merge_map, mutation_record, CorpusKind, MutationRecord, Tick,
};
use fuzzamoto::BenchStatsStage;

const SECOND: u128 = 1_000_000_000;

#[test]
fn first_sample_is_due_at_once() {
    let mut stage = BenchStatsStage::new(3, 30 * SECOND, 100 * SECOND);
    let tick = stage.update(100 * SECOND, &[0, 4, 0, 1], 0, 600).unwrap();
    assert_eq!(
        tick,
        Tick {
            elapsed: 0,
            since_last: 60 * SECOND,
            covered: 2,
            map_len: 4,
            total_execs: 600,
            new_execs: 600,
        }
    );
    assert_eq!(stage.cpu_id(), 3);
    assert_eq!(stage.union_map(), &[0, 4, 0, 1]);
}

#[test]
fn samples_keep_their_distance() {
    let mut stage = BenchStatsStage::new(0, 30 * SECOND, 0);
    assert!(stage.is_due(0));
    assert!(stage.update(0, &[1, 0], 0, 10).is_some());
    assert!(!stage.is_due(30 * SECOND - 1));
    assert!(stage.is_due(30 * SECOND));
    assert!(stage.update(30 * SECOND - 1, &[0, 9], 0, 20).is_none());
    assert_eq!(stage.union_map(), &[1, 0]);
    let tick = stage.update(31 * SECOND, &[0, 9], 0, 25).unwrap();
    assert_eq!(tick.elapsed, 31 * SECOND);
    assert_eq!(tick.since_last, 31 * SECOND);
    assert_eq!(tick.new_execs, 15);
    assert_eq!(tick.covered, 2);
    let fewer = stage.update(90 * SECOND, &[0, 0], 0, 5).unwrap();
    assert_eq!(fewer.new_execs, 0);
    assert_eq!(fewer.total_execs, 5);
    assert_eq!(fewer.covered, 2);
    assert_eq!(stage.union_map(), &[1, 9]);
}

#[test]
fn maps_of_another_size_start_over() {
    let mut union = vec![9, 9];
    merge_map(&mut union, &[1, 2, 3]);
    assert_eq!(union, vec![1, 2, 3]);
    merge_map(&mut union, &[3, 1, 3]);
    assert_eq!(union, vec![3, 2, 3]);
    merge_map(&mut union, &[]);
    assert!(union.is_empty());
}

#[test]
fn union_does_not_depend_on_order() {
    let (a, b) = ([0, 5, 9], [7, 1, 9]);
    let mut ab = vec![0; 3];
    merge_map(&mut ab, &a);
    merge_map(&mut ab, &b);
    let mut ba = vec![0; 3];
    merge_map(&mut ba, &b);
    merge_map(&mut ba, &a);
    assert_eq!(ab, ba);
    assert_eq!(ab, vec![7, 5, 9]);
    merge_map(&mut ab, &a);
    assert_eq!(ab, ba);
}

#[test]
fn covered_places_differ_from_the_initial_value() {
    assert_eq!(count_covered(&vec![0, 1, 2, 0], 0), 2);
    assert_eq!(count_covered(&vec![1, 1, 2, 0], 1), 2);
    assert_eq!(count_covered(&vec![], 0), 0);
}

#[test]
fn header_is_written_once() {
    let mut stage = BenchStatsStage::new(0, SECOND, 0);
    assert_eq!(stage.pending_header(), Some(BENCH_HEADER));
    assert_eq!(
        BENCH_HEADER,
        "elapsed_s,execs,execs_per_sec,coverage_pct,corpus_size,crashes"
    );
    stage.header_written();
    assert_eq!(stage.pending_header(), None);
}

#[test]
fn entries_are_recorded_once() {
    let mut stage = BenchStatsStage::new(0, SECOND, 0);
    assert_eq!(stage.new_corpus_entries(4), (0, 4));
    assert_eq!(stage.new_solutions(0), (0, 0));
    stage.mutations_recorded(4, 0);
    assert_eq!(stage.new_corpus_entries(4), (4, 4));
    assert_eq!(stage.new_corpus_entries(7), (4, 7));
    assert_eq!(stage.new_solutions(2), (0, 2));
    assert_eq!(stage.new_corpus_entries(3), (3, 3));
    stage.mutations_recorded(3, 2);
    assert_eq!(stage.new_corpus_entries(5), (3, 5));
    assert_eq!(stage.new_solutions(3), (2, 3));
}

#[test]
fn mutation_chains_are_in_execution_order() {
    let logged: Vec<String> = ["third", "second", "first"].iter().map(|s| s.to_string()).collect();
    assert_eq!(
        mutation_record(2, CorpusKind::Solution, 17, &logged),
        MutationRecord {
            cpu: 2,
            kind: CorpusKind::Solution,
            corpus_id: 17,
            len: 3,
            chain: vec!["first".to_string(), "second".to_string(), "third".to_string()],
        }
    );
    assert_eq!(mutation_record(0, CorpusKind::Corpus, 0, &[]).len, 0);
    assert_eq!(CorpusKind::Corpus.name(), "corpus");
    assert_eq!(CorpusKind::Solution.name(), "solution");
}

#[test]
fn files_hold_one_header_and_then_the_rows() {
    let mut stage = BenchStatsStage::new(0, SECOND, 0);
    let rows: Vec<BenchRow> = (0..3)
        .map(|i| BenchRow {
            elapsed_s: format!("{i}.000"),
            execs: i,
            execs_per_sec: "1.00".to_string(),
            coverage_pct: "0.5000".to_string(),
            corpus_size: 4,
            crashes: 0,
        })
        .collect();
    let mut file = String::new();
    for row in &rows {
        if let Some(header) = stage.pending_header() {
            file.push_str(&format!("{header}\n"));
            stage.header_written();
        }
        file.push_str(&bench_line(row));
    }
    assert_eq!(file.matches(BENCH_HEADER).count(), 1);
    assert!(file.starts_with(BENCH_HEADER));
    assert_eq!(parse_bench_rows(&file), rows);
}
