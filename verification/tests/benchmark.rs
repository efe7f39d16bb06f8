use fuzzamoto::bench::aggregate::{aggregate_run, is_bench_file, CoreFile, CoreSample};
use fuzzamoto::bench::command::{BenchmarkCommand, BenchmarkCommands, BenchmarkTask};
use fuzzamoto::bench::csv::{
    bench_line, parse_bench_rows, parse_stats_rows, stats_csv, BenchRow, StatsRow, BENCH_HEADER,
    STATS_HEADER,
};
use fuzzamoto::bench::report::{
    run_comparison, run_report, suite_comparison, write_diff_line, write_diff_line_u64,
    BenchMetadata, Change, RunComparison, RunFigures,
};
use fuzzamoto::bench::series::{
    bucket_by_key, group_by_cpu, is_text_before, latest_bucket, stable_order, LastSample,
    RunTotals,
};
use fuzzamoto::bench::suite::{
    comparison_label, comparison_mode, copy_action, core_name, count_run_dirs,
    default_bench_snapshot_secs, default_timeout_ms, fuzzer_args, is_run_name, kill_target,
    next_kill_step, poll_action, reported_commit, run_dir_name, suite_step, BenchmarkConfig,
    ConfigError, CopyAction, FuzzerArg, KillStep, KillTarget, PollAction, SuiteEntry, SuiteStep,
    DEFAULT_FUZZER_PATH,
};
use fuzzamoto::bench::text::{read_number, split_fields, split_lines, trim};
use std::path::PathBuf;

type Row = (f64, u64, f64, f64, usize, usize);

fn bench_csv(rows: &[Row]) -> String {
    let mut buf = format!("{BENCH_HEADER}\n");
    for (elapsed_s, execs, execs_per_sec, coverage_pct, corpus_size, crashes) in rows {
        buf.push_str(&bench_line(&BenchRow {
            elapsed_s: format!("{elapsed_s:.3}"),
            execs: *execs,
            execs_per_sec: format!("{execs_per_sec:.2}"),
            coverage_pct: format!("{coverage_pct:.4}"),
            corpus_size: *corpus_size,
            crashes: *crashes,
        }));
    }
    buf
}

fn key(text: &str) -> i128 {
    let value: f64 = text.parse().unwrap();
    (value * 10_000.0).round() as i128
}

fn core_file(cpu: &str, contents: &str) -> CoreFile {
    let samples = parse_bench_rows(contents)
        .into_iter()
        .map(|row| CoreSample {
            elapsed: key(&row.elapsed_s),
            coverage: key(&row.coverage_pct),
            row,
        })
        .collect();
    CoreFile { cpu: cpu.to_string(), samples }
}

fn config() -> BenchmarkConfig {
    BenchmarkConfig {
        duration: 60,
        runs: 1,
        cores: "0".to_string(),
        timeout_ms: 1_000,
        share_dir: "/tmp/share".to_string(),
        corpus_seed: "/tmp/corpus".to_string(),
        fuzzer_path: Some("/tmp/fuzzer".to_string()),
        bench_snapshot_secs: 30,
    }
}

fn entry(name: &str, is_dir: bool) -> SuiteEntry {
    SuiteEntry { name: Some(name.to_string()), is_dir }
}

fn change(baseline: f64, candidate: f64) -> Change {
    Change {
        baseline: format!("{baseline:.4}"),
        candidate: format!("{candidate:.4}"),
        delta: format!("{:+.4}", candidate - baseline),
    }
}

#[test]
fn aggregate_writes_run_and_suite_artifacts() {
    let contents = bench_csv(&[
        (0.0, 0, 0.0, 0.0, 1, 0),
        (30.0, 60_000, 2000.0, 4.0, 120, 0),
        (60.0, 120_000, 2000.0, 5.0, 150, 0),
    ]);
    let run = aggregate_run(&[core_file("bench-cpu_000", &contents)]).unwrap();

    let stats = run.stats;
    assert!(stats.contains("cpu,elapsed_s,execs"));

    assert_eq!(run.totals.total_execs, 120_000);
    assert_eq!(run.totals.final_corpus_size, 150);

    let runs = count_run_dirs(&[entry("run_00", true)]);
    assert_eq!(runs, 1);
    let rows = parse_stats_rows(&stats);
    let keys: Vec<i128> = rows.iter().map(|row| key(&row.sample.elapsed_s)).collect();
    let last = latest_bucket(&keys).unwrap().members;
    let sum: f64 = last
        .iter()
        .map(|i| rows[*i].sample.coverage_pct.parse::<f64>().unwrap())
        .sum();
    assert!(sum / last.len() as f64 > 4.9);
}

#[test]
fn aggregate_suite_writes_summary_even_without_samples() {
    assert_eq!(count_run_dirs(&[entry("run_00", true)]), 1);
    assert!(latest_bucket(&[]).is_none());
    assert!(bucket_by_key(&[]).is_empty());
    assert!(aggregate_run(&[]).is_none());
}

#[test]
fn compare_runs_writes_markdown_report() {
    let figures = RunComparison {
        baseline_execs: 120_000,
        candidate_execs: 135_000,
        mean_execs_per_sec: change(2000.0, 2250.0),
        max_coverage_pct: change(5.0, 5.3),
        baseline_corpus_size: 150,
        candidate_corpus_size: 160,
    };
    let report = run_comparison("base", "cand", &figures);
    assert!(report.contains("Benchmark Comparison"));
    assert!(report.contains("Total execs: 135000"));
    assert_eq!(
        report,
        "# Benchmark Comparison\n\n- Baseline: base\n- Candidate: cand\n\n\
         - Total execs: 135000 (delta +15000 vs 120000)\n\
         - Mean exec/sec: 2250.0000 (delta +250.0000 vs 2000.0000)\n\
         - Max coverage (%): 5.3000 (delta +0.3000 vs 5.0000)\n\
         - Final corpus size: 160 (delta +10 vs 150)\n\n"
    );
}

#[test]
fn aggregate_merges_cores_by_time() {
    let a = bench_csv(&[(0.0, 0, 0.0, 0.5, 1, 0), (30.0, 70, 2.0, 1.0, 9, 0)]);
    let b = bench_csv(&[(0.0, 0, 0.0, 0.25, 2, 0), (31.5, 50, 2.0, 3.0, 5, 1)]);
    let empty = bench_csv(&[]);
    let files = [core_file("b", &a), core_file("none", &empty), core_file("a", &b)];
    let run = aggregate_run(&files).unwrap();
    assert_eq!(run.order, vec![0, 2, 1, 3]);
    assert_eq!(
        run.stats,
        "cpu,elapsed_s,execs,execs_per_sec,coverage_pct,corpus_size,crashes\n\
         b,0.000,0,0.00,0.5000,1,0\n\
         a,0.000,0,0.00,0.2500,2,0\n\
         b,30.000,70,2.00,1.0000,9,0\n\
         a,31.500,50,2.00,3.0000,5,1\n"
    );
    assert_eq!(
        run.totals,
        RunTotals {
            final_elapsed: key("31.5"),
            total_execs: 120,
            max_coverage: key("3.0"),
            final_corpus_size: 9,
        }
    );
    assert!(aggregate_run(&[core_file("none", &empty)]).is_none());
}

#[test]
fn bench_files_are_csv_files() {
    assert!(is_bench_file(Some("csv")));
    assert!(!is_bench_file(Some("bin")));
    assert!(!is_bench_file(Some("csv2")));
    assert!(!is_bench_file(None));
}

#[test]
fn totals_ignore_the_order_of_cores() {
    let a = LastSample { elapsed: 10, execs: 5, coverage: 7, corpus_size: 3 };
    let b = LastSample { elapsed: 12, execs: 6, coverage: 2, corpus_size: 4 };
    let mut ab = RunTotals::new();
    ab.record_core(a);
    ab.record_core(b);
    let mut ba = RunTotals::new();
    ba.record_core(b);
    ba.record_core(a);
    assert_eq!(ab, ba);
    assert_eq!(
        ab,
        RunTotals { final_elapsed: 12, total_execs: 11, max_coverage: 7, final_corpus_size: 4 }
    );
    let mut negative = RunTotals::new();
    negative.record_core(LastSample { elapsed: -3, execs: 1, coverage: -1, corpus_size: 0 });
    assert_eq!(
        negative,
        RunTotals { final_elapsed: 0, total_execs: 1, max_coverage: 0, final_corpus_size: 0 }
    );
}

#[test]
fn bench_rows_skip_lines_that_do_not_parse() {
    let contents = "elapsed_s,execs,execs_per_sec,coverage_pct,corpus_size,crashes\n\
                    1.000,10,5.00,0.5000,3,0\n\
                    \n\
                    1.000,x,5.00,0.5000,3,0\n\
                    1.000,10,5.00,0.5000,3\n\
                    1.000,-1,5.00,0.5000,3,0\n\
                    1.000,18446744073709551616,5.00,0.5000,3,0\n\
                    2.000,+20,5.00,0.7500,4,1,extra\r\n\
                    3.000,30,5.00,0.7500,4,2";
    let rows = parse_bench_rows(contents);
    assert_eq!(rows.len(), 3);
    assert_eq!(
        rows[0],
        BenchRow {
            elapsed_s: "1.000".to_string(),
            execs: 10,
            execs_per_sec: "5.00".to_string(),
            coverage_pct: "0.5000".to_string(),
            corpus_size: 3,
            crashes: 0,
        }
    );
    assert_eq!((rows[1].execs, rows[1].crashes), (20, 1));
    assert_eq!((rows[2].execs, rows[2].crashes), (30, 2));
    assert!(parse_bench_rows("").is_empty());
    assert!(parse_bench_rows("1.000,10,5.00,0.5000,3,0\n").is_empty());
}

#[test]
fn stats_rows_read_back_what_was_written() {
    let rows: Vec<StatsRow> = (0..3)
        .map(|i| StatsRow {
            cpu: format!("cpu_{i}"),
            sample: BenchRow {
                elapsed_s: format!("{i}.125"),
                execs: u64::MAX - i,
                execs_per_sec: "0.00".to_string(),
                coverage_pct: "12.5000".to_string(),
                corpus_size: usize::MAX,
                crashes: 7,
            },
        })
        .collect();
    let written = stats_csv(&rows);
    assert!(written.starts_with(STATS_HEADER));
    assert_eq!(parse_stats_rows(&written), rows);
    assert_eq!(stats_csv(&[]), format!("{STATS_HEADER}\n"));
    assert!(parse_stats_rows("cpu\na,1,2,3,4,5\n").is_empty());
    assert_eq!(parse_stats_rows("cpu\na,1,2,3,4,5,6\n")[0].cpu, "a");
}

#[test]
fn samples_are_ordered_stably() {
    assert_eq!(stable_order(&[5, -1, 5, 0, -1]), vec![1, 4, 3, 0, 2]);
    assert_eq!(stable_order(&[2]), vec![0]);
    assert!(stable_order(&[]).is_empty());
    let many: Vec<i128> = (0..1000).map(|i| (i * 7919) % 101).collect();
    let mut expected: Vec<usize> = (0..1000).collect();
    expected.sort_by_key(|i| many[*i]);
    assert_eq!(stable_order(&many), expected);
}

#[test]
fn buckets_hold_the_samples_of_one_time() {
    let buckets = bucket_by_key(&[30_000, 0, 30_000, 60_000, 0]);
    let found: Vec<(i128, Vec<usize>)> =
        buckets.into_iter().map(|b| (b.key, b.members)).collect();
    assert_eq!(found, vec![(0, vec![1, 4]), (30_000, vec![0, 2]), (60_000, vec![3])]);
}

#[test]
fn latest_bucket_is_the_last_one() {
    for keys in [vec![7], vec![30, 0, 30, 60, 0, 60], vec![5, 5], vec![-2, -9, -2]] {
        assert_eq!(latest_bucket(&keys), bucket_by_key(&keys).pop());
    }
    let latest = latest_bucket(&[30, 60, 0, 60]).unwrap();
    assert_eq!((latest.key, latest.members), (60, vec![1, 3]));
}

#[test]
fn groups_are_sorted_by_core_and_time() {
    let cpus: Vec<String> = ["b", "a", "b", "ab", "a"].iter().map(|s| s.to_string()).collect();
    let groups = group_by_cpu(&cpus, &[9, 5, 3, 1, 5]);
    let found: Vec<(String, Vec<usize>)> =
        groups.into_iter().map(|g| (g.cpu, g.members)).collect();
    assert_eq!(
        found,
        vec![
            ("a".to_string(), vec![1, 4]),
            ("ab".to_string(), vec![3]),
            ("b".to_string(), vec![2, 0]),
        ]
    );
}

#[test]
fn texts_are_ordered_as_strings_are() {
    let texts = ["", "a", "ab", "b", "cpu_10", "cpu_2", "\u{e9}", "\u{1F600}", "\u{FFFD}"];
    for a in texts {
        for b in texts {
            assert_eq!(is_text_before(a, b), a < b, "{a} {b}");
        }
    }
}

#[test]
fn run_report_lists_figures_and_metadata() {
    let figures = RunFigures {
        final_elapsed_s: "60.00".to_string(),
        total_execs: 120_000,
        mean_execs_per_sec: "2000.00".to_string(),
        max_coverage_pct: "5.0000".to_string(),
        final_corpus_size: 150,
    };
    let short = run_report("out/run_00", &figures, None, "out/run_00/stats.csv", "s.json");
    assert_eq!(
        short,
        "# Benchmark Report (out/run_00)\n\n\
         - Final elapsed: 60.00s\n\
         - Total execs: 120000\n\
         - Mean exec/sec: 2000.00\n\
         - Max coverage: 5.0000%\n\
         - Final corpus size: 150\n\
         \n\
         [stats.csv](out/run_00/stats.csv) | [summary.json](s.json)\n"
    );
    let mut meta = BenchMetadata {
        suite: "/tmp/suite.yaml".to_string(),
        run_index: 0,
        duration_secs: 60,
        cores: "0".to_string(),
        timeout_ms: 1_000,
        share_dir: "/tmp/share".to_string(),
        corpus_seed: "/tmp/corpus".to_string(),
        fuzzer_path: "/tmp/fuzzer".to_string(),
        bench_snapshot_secs: 30,
        git_commit: Some("abc".to_string()),
    };
    let listed = "- Final corpus size: 150\n\
                  - Metadata:\n\
                  \x20 - Suite: /tmp/suite.yaml\n\
                  \x20 - Run index: 0\n\
                  \x20 - Duration target (s): 60\n\
                  \x20 - Cores: 0\n\
                  \x20 - Timeout (ms): 1000\n\
                  \x20 - Share dir: /tmp/share\n\
                  \x20 - Corpus seed: /tmp/corpus\n\
                  \x20 - Fuzzer: /tmp/fuzzer\n\
                  \x20 - Bench snapshot interval (s): 30\n";
    let long = run_report("d", &figures, Some(&meta), "a", "b");
    assert!(long.contains(&format!("{listed}  - Git commit: abc\n\n[stats.csv](a)")));
    meta.git_commit = None;
    let without = run_report("d", &figures, Some(&meta), "a", "b");
    assert!(without.contains(&format!("{listed}\n[stats.csv](a)")));
}

#[test]
fn diff_lines_show_the_sign() {
    let mut buf = String::from("x\n");
    write_diff_line_u64(&mut buf, "n", 10, 3);
    write_diff_line_u64(&mut buf, "n", 0, u64::MAX);
    write_diff_line_u64(&mut buf, "n", 4, 4);
    write_diff_line(&mut buf, "f", &change(2.0, 1.5));
    assert_eq!(
        buf,
        "x\n- n: 3 (delta -7 vs 10)\n\
         - n: 18446744073709551615 (delta +18446744073709551615 vs 0)\n\
         - n: 4 (delta +0 vs 4)\n\
         - f: 1.5000 (delta -0.5000 vs 2.0000)\n"
    );
}

#[test]
fn suite_comparison_leaves_out_missing_means() {
    let both = suite_comparison("a", "b", &Some(change(1.0, 2.0)), &Some(change(10.0, 9.0)));
    assert_eq!(
        both,
        "# Benchmark Comparison\n\n- Baseline: a\n- Candidate: b\n\n\
         - Mean coverage (%): 2.0000 (delta +1.0000 vs 1.0000)\n\
         - Mean corpus size: 9.0000 (delta -1.0000 vs 10.0000)\n\n"
    );
    let none = suite_comparison("a", "b", &None, &None);
    assert_eq!(none, "# Benchmark Comparison\n\n- Baseline: a\n- Candidate: b\n\n\n");
}

#[test]
fn config_is_checked() {
    assert_eq!(config().check(), Ok(()));
    let no_runs = BenchmarkConfig { runs: 0, duration: 0, ..config() };
    assert_eq!(no_runs.check(), Err(ConfigError::NoRuns));
    let no_duration = BenchmarkConfig { duration: 0, ..config() };
    assert_eq!(no_duration.check(), Err(ConfigError::NoDuration));
    assert_eq!(ConfigError::NoRuns.message(), "runs must be greater than zero");
    assert_eq!(ConfigError::NoDuration.message(), "duration must be greater than zero");
    assert_eq!(default_timeout_ms(), 1_000);
    assert_eq!(default_bench_snapshot_secs(), 30);
}

#[test]
fn fuzzer_is_called_with_the_configuration() {
    assert_eq!(config().fuzzer(), "/tmp/fuzzer");
    let unnamed = BenchmarkConfig { fuzzer_path: None, ..config() };
    assert_eq!(unnamed.fuzzer(), DEFAULT_FUZZER_PATH);
    assert_eq!(DEFAULT_FUZZER_PATH, "target/release/fuzzamoto-libafl");
    let text = |s: &str| FuzzerArg::Text(s.to_string());
    assert_eq!(
        fuzzer_args(&config()),
        vec![
            text("--input"),
            FuzzerArg::InputDir,
            text("--output"),
            FuzzerArg::OutputDir,
            text("--share"),
            text("/tmp/share"),
            text("--cores"),
            text("0"),
            text("--timeout"),
            text("1000"),
            text("--bench-snapshot-secs"),
            text("30"),
        ]
    );
}

#[test]
fn runs_are_numbered_and_counted() {
    assert_eq!(run_dir_name(0), "run_00");
    assert_eq!(run_dir_name(7), "run_07");
    assert_eq!(run_dir_name(42), "run_42");
    assert_eq!(run_dir_name(123), "run_123");
    for i in [0, 9, 10, 99, 100, usize::MAX] {
        assert_eq!(run_dir_name(i), format!("run_{i:02}"));
        assert!(is_run_name(&run_dir_name(i)));
    }
    assert!(!is_run_name("run"));
    assert!(!is_run_name("suite_summary.json"));
    assert!(is_run_name("run_old"));
    let entries = vec![
        entry("run_00", true),
        entry("run_01", true),
        entry("run_02", false),
        entry("other", true),
        SuiteEntry { name: None, is_dir: true },
    ];
    assert_eq!(count_run_dirs(&entries), 2);
}

#[test]
fn suites_run_and_then_aggregate() {
    let mut steps = Vec::new();
    let mut completed = 0;
    loop {
        let step = suite_step(3, completed);
        steps.push(step);
        if step == SuiteStep::Aggregate {
            break;
        }
        completed += 1;
    }
    assert_eq!(
        steps,
        vec![SuiteStep::Run(0), SuiteStep::Run(1), SuiteStep::Run(2), SuiteStep::Aggregate]
    );
}

#[test]
fn runs_end_on_exit_or_time() {
    assert_eq!(poll_action(true, 0, 60), PollAction::Finish);
    assert_eq!(poll_action(true, 61, 60), PollAction::Finish);
    assert_eq!(poll_action(false, 59, 60), PollAction::Wait);
    assert_eq!(poll_action(false, 60, 60), PollAction::Terminate);
}

#[test]
fn processes_are_killed_only_after_grace() {
    assert_eq!(kill_target(4, Some(9)), KillTarget::Group(9));
    assert_eq!(kill_target(4, None), KillTarget::Process(4));
    assert_eq!(next_kill_step(KillStep::Terminate, true), KillStep::Grace);
    assert_eq!(next_kill_step(KillStep::Grace, true), KillStep::Kill);
    assert_eq!(next_kill_step(KillStep::Grace, false), KillStep::Reap);
    assert_eq!(next_kill_step(KillStep::Kill, true), KillStep::Reap);
    assert_eq!(next_kill_step(KillStep::Reap, true), KillStep::Done);
    assert_eq!(next_kill_step(KillStep::Done, true), KillStep::Done);
}

#[test]
fn directories_are_copied_recursively() {
    assert_eq!(copy_action(true, false), CopyAction::Descend);
    assert_eq!(copy_action(false, true), CopyAction::Copy);
    assert_eq!(copy_action(false, false), CopyAction::Skip);
}

#[test]
fn commits_are_trimmed() {
    assert_eq!(reported_commit(true, Some("abc\n")), Some("abc".to_string()));
    assert_eq!(reported_commit(false, Some("abc\n")), None);
    assert_eq!(reported_commit(true, None), None);
}

#[test]
fn names_fall_back() {
    assert_eq!(core_name(Some("bench-cpu_000")), "bench-cpu_000");
    assert_eq!(core_name(None), "bench");
    assert_eq!(comparison_label(Some("v1"), "baseline"), "v1");
    assert_eq!(comparison_label(None, "baseline"), "baseline");
    assert_eq!(comparison_mode(true), "suite");
    assert_eq!(comparison_mode(false), "run");
}

#[test]
fn text_helpers_agree_with_the_standard_library() {
    for text in ["", "\n", "a", "a\nb", "a\r\nb\n", "a\r", "\n\n", "a\r\r\nb", "\r\n"] {
        let expected: Vec<&str> = text.lines().collect();
        assert_eq!(split_lines(text), expected, "{text:?}");
    }
    for text in ["", ",", "a", "a,b", ",a,", "a,,b"] {
        let expected: Vec<&str> = text.split(',').collect();
        assert_eq!(split_fields(text), expected, "{text:?}");
    }
    for text in ["", " ", " a b\t\n", "\u{2003}x\u{3000}", "x", "\u{200b}x"] {
        assert_eq!(trim(text), text.trim(), "{text:?}");
    }
    for text in ["", "+", "0", "+7", "-1", "007", "18446744073709551615", "18446744073709551616", "1 ", "x"] {
        assert_eq!(read_number(text, u64::MAX), text.parse::<u64>().ok(), "{text:?}");
        assert_eq!(read_number(text, 255), text.parse::<u8>().ok().map(u64::from), "{text:?}");
    }
}

#[test]
fn commands_name_their_work() {
    let run = BenchmarkCommands::Run {
        suite: PathBuf::from("s.yaml"),
        output: PathBuf::from("out"),
        html: true,
    };
    match BenchmarkCommand::execute(&run) {
        BenchmarkTask::RunSuite { suite, output, write_html } => {
            assert_eq!(suite, &PathBuf::from("s.yaml"));
            assert_eq!(output, &PathBuf::from("out"));
            assert!(write_html);
        }
        BenchmarkTask::CompareRuns { .. } => unreachable!(),
    }
    let compare = BenchmarkCommands::Compare {
        baseline: PathBuf::from("a"),
        candidate: PathBuf::from("b"),
        output: Some(PathBuf::from("c.md")),
        suite: true,
        html: false,
    };
    match BenchmarkCommand::execute(&compare) {
        BenchmarkTask::CompareRuns { baseline_dir, candidate_dir, output, suite_level, write_html } => {
            assert_eq!(baseline_dir, &PathBuf::from("a"));
            assert_eq!(candidate_dir, &PathBuf::from("b"));
            assert_eq!(output, Some(&PathBuf::from("c.md")));
            assert!(suite_level);
            assert!(!write_html);
        }
        BenchmarkTask::RunSuite { .. } => unreachable!(),
    }
}
