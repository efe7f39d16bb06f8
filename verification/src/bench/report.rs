//! Reports in Markdown.
//!
//! Measurements with a fraction come in as text.

use super::csv::{is_line, law_lines_read_back, terminated};
use super::text::{decimal, law_decimal_reads_back, lines, parse_number, push_decimal, signed_decimal};
use vstd::prelude::*;

verus! {

/// How a run was made.
#[derive(Clone, Debug, PartialEq, Eq)]
pub struct BenchMetadata {
    pub suite: String,
    pub run_index: usize,
    pub duration_secs: u64,
    pub cores: String,
    pub timeout_ms: u64,
    pub share_dir: String,
    pub corpus_seed: String,
    pub fuzzer_path: String,
    pub bench_snapshot_secs: u64,
    pub git_commit: Option<String>,
}

/// The figures of a run.
#[derive(Clone, Debug, PartialEq, Eq)]
pub struct RunFigures {
    pub final_elapsed_s: String,
    pub total_execs: u64,
    pub mean_execs_per_sec: String,
    pub max_coverage_pct: String,
    pub final_corpus_size: usize,
}

/// A figure of two runs, and how it changed from the first to the second.
#[derive(Clone, Debug, PartialEq, Eq)]
pub struct Change {
    pub baseline: String,
    pub candidate: String,
    pub delta: String,
}

/// An item of a list: a label and a text.
pub open spec fn item(label: Seq<char>, text: Seq<char>) -> Seq<char> {
    label + text + seq!['\n']
}

/// The list of the figures of a run.
pub open spec fn figures_text(figures: RunFigures) -> Seq<char> {
    item("- Final elapsed: "@, figures.final_elapsed_s@.push('s')) + item(
        "- Total execs: "@,
        decimal(figures.total_execs as nat),
    ) + item("- Mean exec/sec: "@, figures.mean_execs_per_sec@) + item(
        "- Max coverage: "@,
        figures.max_coverage_pct@.push('%'),
    ) + item("- Final corpus size: "@, decimal(figures.final_corpus_size as nat))
}

/// The list of how a run was made.
pub open spec fn metadata_text(meta: BenchMetadata) -> Seq<char> {
    item("- Metadata:"@, seq![]) + item("  - Suite: "@, meta.suite@) + item(
        "  - Run index: "@,
        decimal(meta.run_index as nat),
    ) + item("  - Duration target (s): "@, decimal(meta.duration_secs as nat)) + item(
        "  - Cores: "@,
        meta.cores@,
    ) + item("  - Timeout (ms): "@, decimal(meta.timeout_ms as nat)) + item(
        "  - Share dir: "@,
        meta.share_dir@,
    ) + item("  - Corpus seed: "@, meta.corpus_seed@) + item("  - Fuzzer: "@, meta.fuzzer_path@)
        + item("  - Bench snapshot interval (s): "@, decimal(meta.bench_snapshot_secs as nat))
        + match meta.git_commit {
        Some(commit) => item("  - Git commit: "@, commit@),
        None => seq![],
    }
}

/// The report of a run.
pub open spec fn run_report_text(
    dir: Seq<char>,
    figures: RunFigures,
    metadata: Option<BenchMetadata>,
    stats_path: Seq<char>,
    summary_path: Seq<char>,
) -> Seq<char> {
    "# Benchmark Report ("@ + dir + ")\n\n"@ + figures_text(figures) + match metadata {
        Some(meta) => metadata_text(meta),
        None => seq![],
    } + seq!['\n'] + "[stats.csv]("@ + stats_path + ") | [summary.json]("@ + summary_path + ")\n"@
}

/// Appends an item with a text.
fn push_item(out: &mut String, label: &str, text: &str)
    ensures
        final(out)@ == old(out)@ + item(label@, text@),
{
    out.append(label);
    out.append(text);
    out.push('\n');
    assert(out@ =~= old(out)@ + item(label@, text@));
}

/// Appends an item with a number.
fn push_number_item(out: &mut String, label: &str, n: u64)
    ensures
        final(out)@ == old(out)@ + item(label@, decimal(n as nat)),
{
    out.append(label);
    push_decimal(out, n as u128);
    out.push('\n');
    assert(out@ =~= old(out)@ + item(label@, decimal(n as nat)));
}

/// Appends the list of the figures of a run.
fn push_figures(out: &mut String, figures: &RunFigures)
    ensures
        final(out)@ == old(out)@ + figures_text(*figures),
{
    out.append("- Final elapsed: ");
    out.append(figures.final_elapsed_s.as_str());
    out.push('s');
    out.push('\n');
    push_number_item(out, "- Total execs: ", figures.total_execs);
    push_item(out, "- Mean exec/sec: ", figures.mean_execs_per_sec.as_str());
    out.append("- Max coverage: ");
    out.append(figures.max_coverage_pct.as_str());
    out.push('%');
    out.push('\n');
    push_number_item(out, "- Final corpus size: ", figures.final_corpus_size as u64);
    assert(out@ =~= old(out)@ + figures_text(*figures));
}

/// Appends the list of how a run was made.
fn push_metadata(out: &mut String, meta: &BenchMetadata)
    ensures
        final(out)@ == old(out)@ + metadata_text(*meta),
{
    push_item(out, "- Metadata:", "");
    push_item(out, "  - Suite: ", meta.suite.as_str());
    push_number_item(out, "  - Run index: ", meta.run_index as u64);
    push_number_item(out, "  - Duration target (s): ", meta.duration_secs);
    push_item(out, "  - Cores: ", meta.cores.as_str());
    push_number_item(out, "  - Timeout (ms): ", meta.timeout_ms);
    push_item(out, "  - Share dir: ", meta.share_dir.as_str());
    push_item(out, "  - Corpus seed: ", meta.corpus_seed.as_str());
    push_item(out, "  - Fuzzer: ", meta.fuzzer_path.as_str());
    push_number_item(out, "  - Bench snapshot interval (s): ", meta.bench_snapshot_secs);
    match &meta.git_commit {
        Some(commit) => push_item(out, "  - Git commit: ", commit.as_str()),
        None => {},
    }
    proof {
        reveal_strlit("");
        assert(""@ =~= seq![]);
    }
    assert(out@ =~= old(out)@ + metadata_text(*meta));
}

/// The report of a run.
pub fn run_report(
    dir: &str,
    figures: &RunFigures,
    metadata: Option<&BenchMetadata>,
    stats_path: &str,
    summary_path: &str,
) -> (r: String)
    ensures
        r@ == run_report_text(
            dir@,
            *figures,
            match metadata {
                Some(meta) => Some(*meta),
                None => None,
            },
            stats_path@,
            summary_path@,
        ),
{
    let mut report = String::new();
    report.append("# Benchmark Report (");
    report.append(dir);
    report.append(")\n\n");
    push_figures(&mut report, figures);
    match metadata {
        Some(meta) => push_metadata(&mut report, meta),
        None => {},
    }
    report.push('\n');
    report.append("[stats.csv](");
    report.append(stats_path);
    report.append(") | [summary.json](");
    report.append(summary_path);
    report.append(")\n");
    assert(report@ =~= run_report_text(
        dir@,
        *figures,
        match metadata {
            Some(meta) => Some(*meta),
            None => None,
        },
        stats_path@,
        summary_path@,
    ));
    report
}

/// A line on how a figure changed.
pub open spec fn diff_line_text(
    label: Seq<char>,
    baseline: Seq<char>,
    candidate: Seq<char>,
    delta: Seq<char>,
) -> Seq<char> {
    "- "@ + label + ": "@ + candidate + " (delta "@ + delta + " vs "@ + baseline + ")\n"@
}

/// A line on how a count changed.
pub open spec fn count_diff_text(label: Seq<char>, baseline: nat, candidate: nat) -> Seq<char> {
    diff_line_text(
        label,
        decimal(baseline),
        decimal(candidate),
        signed_decimal(candidate - baseline),
    )
}

/// A line on how a measurement changed.
pub open spec fn change_text(label: Seq<char>, change: Change) -> Seq<char> {
    diff_line_text(label, change.baseline@, change.candidate@, change.delta@)
}

/// Appends a line on how a count changed.
pub fn write_diff_line_u64(buf: &mut String, label: &str, baseline: u64, candidate: u64)
    ensures
        final(buf)@ == old(buf)@ + count_diff_text(label@, baseline as nat, candidate as nat),
{
    buf.append("- ");
    buf.append(label);
    buf.append(": ");
    push_decimal(buf, candidate as u128);
    buf.append(" (delta ");
    if candidate < baseline {
        buf.push('-');
        push_decimal(buf, (baseline - candidate) as u128);
    } else {
        buf.push('+');
        push_decimal(buf, (candidate - baseline) as u128);
    }
    buf.append(" vs ");
    push_decimal(buf, baseline as u128);
    buf.append(")\n");
    assert(buf@ =~= old(buf)@ + count_diff_text(label@, baseline as nat, candidate as nat));
}

/// Appends a line on how a measurement changed.
pub fn write_diff_line(buf: &mut String, label: &str, change: &Change)
    ensures
        final(buf)@ == old(buf)@ + change_text(label@, *change),
{
    buf.append("- ");
    buf.append(label);
    buf.append(": ");
    buf.append(change.candidate.as_str());
    buf.append(" (delta ");
    buf.append(change.delta.as_str());
    buf.append(" vs ");
    buf.append(change.baseline.as_str());
    buf.append(")\n");
    assert(buf@ =~= old(buf)@ + change_text(label@, *change));
}

/// The head of a comparison.
pub open spec fn comparison_head(baseline: Seq<char>, candidate: Seq<char>) -> Seq<char> {
    "# Benchmark Comparison\n\n- Baseline: "@ + baseline + "\n- Candidate: "@ + candidate
        + "\n\n"@
}

/// Starts a comparison.
fn start_comparison(baseline: &str, candidate: &str) -> (r: String)
    ensures
        r@ == comparison_head(baseline@, candidate@),
{
    let mut report = String::new();
    report.append("# Benchmark Comparison\n\n- Baseline: ");
    report.append(baseline);
    report.append("\n- Candidate: ");
    report.append(candidate);
    report.append("\n\n");
    assert(report@ =~= comparison_head(baseline@, candidate@));
    report
}

/// The figures of two runs, side by side.
#[derive(Clone, Debug, PartialEq, Eq)]
pub struct RunComparison {
    pub baseline_execs: u64,
    pub candidate_execs: u64,
    pub mean_execs_per_sec: Change,
    pub max_coverage_pct: Change,
    pub baseline_corpus_size: usize,
    pub candidate_corpus_size: usize,
}

/// The comparison of two runs.
pub open spec fn run_comparison_text(
    baseline: Seq<char>,
    candidate: Seq<char>,
    figures: RunComparison,
) -> Seq<char> {
    comparison_head(baseline, candidate) + count_diff_text(
        "Total execs"@,
        figures.baseline_execs as nat,
        figures.candidate_execs as nat,
    ) + change_text("Mean exec/sec"@, figures.mean_execs_per_sec) + change_text(
        "Max coverage (%)"@,
        figures.max_coverage_pct,
    ) + count_diff_text(
        "Final corpus size"@,
        figures.baseline_corpus_size as nat,
        figures.candidate_corpus_size as nat,
    ) + seq!['\n']
}

/// Compares two runs.
pub fn run_comparison(baseline: &str, candidate: &str, figures: &RunComparison) -> (r: String)
    ensures
        r@ == run_comparison_text(baseline@, candidate@, *figures),
{
    let mut report = start_comparison(baseline, candidate);
    write_diff_line_u64(
        &mut report,
        "Total execs",
        figures.baseline_execs,
        figures.candidate_execs,
    );
    write_diff_line(&mut report, "Mean exec/sec", &figures.mean_execs_per_sec);
    write_diff_line(&mut report, "Max coverage (%)", &figures.max_coverage_pct);
    write_diff_line_u64(
        &mut report,
        "Final corpus size",
        figures.baseline_corpus_size as u64,
        figures.candidate_corpus_size as u64,
    );
    report.push('\n');
    assert(report@ =~= run_comparison_text(baseline@, candidate@, *figures));
    report
}

/// A line on how a measurement changed, if both sides have it.
pub open spec fn optional_change_text(label: Seq<char>, change: Option<Change>) -> Seq<char> {
    match change {
        Some(change) => change_text(label, change),
        None => seq![],
    }
}

/// The comparison of two suites.
pub open spec fn suite_comparison_text(
    baseline: Seq<char>,
    candidate: Seq<char>,
    coverage: Option<Change>,
    corpus: Option<Change>,
) -> Seq<char> {
    comparison_head(baseline, candidate) + optional_change_text("Mean coverage (%)"@, coverage)
        + optional_change_text("Mean corpus size"@, corpus) + seq!['\n']
}

/// Compares two suites. A mean that either of them lacks is left out.
pub fn suite_comparison(
    baseline: &str,
    candidate: &str,
    coverage: &Option<Change>,
    corpus: &Option<Change>,
) -> (r: String)
    ensures
        r@ == suite_comparison_text(baseline@, candidate@, *coverage, *corpus),
{
    let mut report = start_comparison(baseline, candidate);
    match coverage {
        Some(change) => write_diff_line(&mut report, "Mean coverage (%)", change),
        None => {},
    }
    match corpus {
        Some(change) => write_diff_line(&mut report, "Mean corpus size", change),
        None => {},
    }
    report.push('\n');
    assert(report@ =~= suite_comparison_text(baseline@, candidate@, *coverage, *corpus));
    report
}

// What a report says.

/// Whether a line of `text` is `label` with `value` behind it.
pub open spec fn says(text: Seq<char>, label: Seq<char>, value: Seq<char>) -> bool {
    lines(text).contains(label + value)
}

/// Whether a line of `text` is `label` with a text behind it that reads back as `n`.
pub open spec fn says_number(text: Seq<char>, label: Seq<char>, n: nat) -> bool {
    exists|value: Seq<char>| #[trigger] says(text, label, value) && parse_number(value) == Some(n)
}

/// The lines of the list of the figures of a run.
spec fn figures_lines(figures: RunFigures) -> Seq<Seq<char>> {
    seq![
        "- Final elapsed: "@ + figures.final_elapsed_s@.push('s'),
        "- Total execs: "@ + decimal(figures.total_execs as nat),
        "- Mean exec/sec: "@ + figures.mean_execs_per_sec@,
        "- Max coverage: "@ + figures.max_coverage_pct@.push('%'),
        "- Final corpus size: "@ + decimal(figures.final_corpus_size as nat),
    ]
}

/// The lines of the list of how a run was made.
spec fn metadata_lines(meta: BenchMetadata) -> Seq<Seq<char>> {
    seq![
        "- Metadata:"@,
        "  - Suite: "@ + meta.suite@,
        "  - Run index: "@ + decimal(meta.run_index as nat),
        "  - Duration target (s): "@ + decimal(meta.duration_secs as nat),
        "  - Cores: "@ + meta.cores@,
        "  - Timeout (ms): "@ + decimal(meta.timeout_ms as nat),
        "  - Share dir: "@ + meta.share_dir@,
        "  - Corpus seed: "@ + meta.corpus_seed@,
        "  - Fuzzer: "@ + meta.fuzzer_path@,
        "  - Bench snapshot interval (s): "@ + decimal(meta.bench_snapshot_secs as nat),
    ] + match meta.git_commit {
        Some(commit) => seq!["  - Git commit: "@ + commit@],
        None => seq![],
    }
}

/// The lines of the report of a run.
spec fn report_lines(
    dir: Seq<char>,
    figures: RunFigures,
    metadata: Option<BenchMetadata>,
    stats_path: Seq<char>,
    summary_path: Seq<char>,
) -> Seq<Seq<char>> {
    seq!["# Benchmark Report ("@ + dir + seq![')'], seq![]] + figures_lines(figures) + (
    match metadata {
        Some(meta) => metadata_lines(meta),
        None => seq![],
    }) + seq![
        seq![],
        "[stats.csv]("@ + stats_path + ") | [summary.json]("@ + summary_path + seq![')'],
    ]
}

/// Lines written in two parts.
proof fn lemma_terminated_concat(a: Seq<Seq<char>>, b: Seq<Seq<char>>)
    ensures
        terminated(a + b) == terminated(a) + terminated(b),
    decreases b.len(),
{
    if b.len() == 0 {
        assert(a + b =~= a);
        assert(terminated(a) + terminated(b) =~= terminated(a));
    } else {
        assert((a + b).drop_last() =~= a + b.drop_last());
        lemma_terminated_concat(a, b.drop_last());
        assert(terminated(a + b) =~= terminated(a) + terminated(b));
    }
}

/// One line more.
proof fn lemma_terminated_push(all: Seq<Seq<char>>, label: Seq<char>, text: Seq<char>)
    ensures
        terminated(all.push(label + text)) == terminated(all) + item(label, text),
{
    let line = label + text;
    assert(all.push(line).drop_last() =~= all);
    assert(terminated(all) + line + seq!['\n'] =~= terminated(all) + item(label, text));
}

/// The list of the figures of a run is written line by line.
proof fn lemma_figures_lines(figures: RunFigures)
    ensures
        figures_text(figures) == terminated(figures_lines(figures)),
{
    let l0 = Seq::<Seq<char>>::empty();
    let l1 = l0.push("- Final elapsed: "@ + figures.final_elapsed_s@.push('s'));
    lemma_terminated_push(l0, "- Final elapsed: "@, figures.final_elapsed_s@.push('s'));
    let l2 = l1.push("- Total execs: "@ + decimal(figures.total_execs as nat));
    lemma_terminated_push(l1, "- Total execs: "@, decimal(figures.total_execs as nat));
    let l3 = l2.push("- Mean exec/sec: "@ + figures.mean_execs_per_sec@);
    lemma_terminated_push(l2, "- Mean exec/sec: "@, figures.mean_execs_per_sec@);
    let l4 = l3.push("- Max coverage: "@ + figures.max_coverage_pct@.push('%'));
    lemma_terminated_push(l3, "- Max coverage: "@, figures.max_coverage_pct@.push('%'));
    let l5 = l4.push("- Final corpus size: "@ + decimal(figures.final_corpus_size as nat));
    lemma_terminated_push(l4, "- Final corpus size: "@, decimal(figures.final_corpus_size as nat));
    assert(terminated(l0) =~= seq![]);
    assert(l5 =~= figures_lines(figures));
    assert(figures_text(figures) =~= terminated(l5));
}

/// The list of how a run was made is written line by line.
proof fn lemma_metadata_lines(meta: BenchMetadata)
    ensures
        metadata_text(meta) == terminated(metadata_lines(meta)),
{
    let l0 = Seq::<Seq<char>>::empty();
    let none = Seq::<char>::empty();
    let l1 = l0.push("- Metadata:"@ + none);
    lemma_terminated_push(l0, "- Metadata:"@, none);
    let l2 = l1.push("  - Suite: "@ + meta.suite@);
    lemma_terminated_push(l1, "  - Suite: "@, meta.suite@);
    let l3 = l2.push("  - Run index: "@ + decimal(meta.run_index as nat));
    lemma_terminated_push(l2, "  - Run index: "@, decimal(meta.run_index as nat));
    let l4 = l3.push("  - Duration target (s): "@ + decimal(meta.duration_secs as nat));
    lemma_terminated_push(l3, "  - Duration target (s): "@, decimal(meta.duration_secs as nat));
    let l5 = l4.push("  - Cores: "@ + meta.cores@);
    lemma_terminated_push(l4, "  - Cores: "@, meta.cores@);
    let l6 = l5.push("  - Timeout (ms): "@ + decimal(meta.timeout_ms as nat));
    lemma_terminated_push(l5, "  - Timeout (ms): "@, decimal(meta.timeout_ms as nat));
    let l7 = l6.push("  - Share dir: "@ + meta.share_dir@);
    lemma_terminated_push(l6, "  - Share dir: "@, meta.share_dir@);
    let l8 = l7.push("  - Corpus seed: "@ + meta.corpus_seed@);
    lemma_terminated_push(l7, "  - Corpus seed: "@, meta.corpus_seed@);
    let l9 = l8.push("  - Fuzzer: "@ + meta.fuzzer_path@);
    lemma_terminated_push(l8, "  - Fuzzer: "@, meta.fuzzer_path@);
    let l10 = l9.push("  - Bench snapshot interval (s): "@ + decimal(meta.bench_snapshot_secs as nat));
    lemma_terminated_push(l9, "  - Bench snapshot interval (s): "@, decimal(meta.bench_snapshot_secs as nat));
    assert("- Metadata:"@ + none =~= "- Metadata:"@);
    assert(terminated(l0) =~= seq![]);
    match meta.git_commit {
        Some(commit) => {
            lemma_terminated_push(l10, "  - Git commit: "@, commit@);
            assert(l10.push("  - Git commit: "@ + commit@) =~= metadata_lines(meta));
            assert(metadata_text(meta) =~= terminated(metadata_lines(meta)));
        },
        None => {
            assert(l10 =~= metadata_lines(meta));
            assert(metadata_text(meta) =~= terminated(l10));
        },
    }
}

/// The report of a run is written line by line.
proof fn lemma_report_lines(
    dir: Seq<char>,
    figures: RunFigures,
    metadata: Option<BenchMetadata>,
    stats_path: Seq<char>,
    summary_path: Seq<char>,
)
    ensures
        run_report_text(dir, figures, metadata, stats_path, summary_path) == terminated(
            report_lines(dir, figures, metadata, stats_path, summary_path),
        ),
{
    let none = Seq::<Seq<char>>::empty();
    let blank = Seq::<char>::empty();
    let title = "# Benchmark Report ("@ + dir;
    let links = "[stats.csv]("@ + stats_path + ") | [summary.json]("@ + summary_path;
    let head = none.push(title + seq![')']).push(blank + blank);
    let tail = none.push(blank + blank).push(links + seq![')']);
    let meta = match metadata {
        Some(meta) => metadata_lines(meta),
        None => none,
    };
    let meta_text = match metadata {
        Some(meta) => metadata_text(meta),
        None => seq![],
    };
    assert(blank + blank =~= blank);
    assert(head =~= seq![title + seq![')'], seq![]]);
    assert(tail =~= seq![seq![], links + seq![')']]);
    lemma_terminated_push(none, title, seq![')']);
    lemma_terminated_push(none.push(title + seq![')']), blank, blank);
    lemma_terminated_push(none, blank, blank);
    lemma_terminated_push(none.push(blank + blank), links, seq![')']);
    lemma_figures_lines(figures);
    match metadata {
        Some(meta) => lemma_metadata_lines(meta),
        None => {},
    }
    assert(terminated(none) =~= seq![]);
    assert(meta_text =~= terminated(meta));
    lemma_terminated_concat(head + figures_lines(figures) + meta, tail);
    lemma_terminated_concat(head + figures_lines(figures), meta);
    lemma_terminated_concat(head, figures_lines(figures));
    reveal_strlit(")\n\n");
    reveal_strlit(")\n");
    assert(")\n\n"@ =~= seq![')', '\n', '\n']);
    assert(")\n"@ =~= seq![')', '\n']);
    assert(terminated(head) =~= title + ")\n\n"@);
    assert(terminated(tail) =~= seq!['\n'] + links + ")\n"@);
    assert(run_report_text(dir, figures, metadata, stats_path, summary_path) =~= terminated(
        head + figures_lines(figures) + meta + tail,
    ));
    assert(head + figures_lines(figures) + meta + tail =~= report_lines(
        dir,
        figures,
        metadata,
        stats_path,
        summary_path,
    ));
}

/// A line of a label and a text.
proof fn lemma_labelled_line(label: Seq<char>, text: Seq<char>)
    requires
        is_line(label),
        is_line(text),
    ensures
        is_line(label + text),
{
    if text.len() > 0 {
        assert((label + text).last() == text.last());
    } else {
        assert(label + text =~= label);
    }
}

/// A number is a line of its own.
proof fn lemma_decimal_is_line(n: nat)
    ensures
        is_line(decimal(n)),
        parse_number(decimal(n)) == Some(n),
{
    law_decimal_reads_back(n);
}

/// A text with a character behind it is a line.
proof fn lemma_ended_line(text: Seq<char>, end: char)
    requires
        is_line(text),
        end != '\n',
        end != '\r',
    ensures
        is_line(text.push(end)),
{
}

/// The lines of the figures of a run are lines.
proof fn lemma_figures_are_lines(figures: RunFigures)
    requires
        figures.fits_lines(),
    ensures
        forall|i: int|
            0 <= i < figures_lines(figures).len() ==> is_line(
                #[trigger] figures_lines(figures)[i],
            ),
{
    reveal_strlit("- Final elapsed: ");
    reveal_strlit("- Total execs: ");
    reveal_strlit("- Mean exec/sec: ");
    reveal_strlit("- Max coverage: ");
    reveal_strlit("- Final corpus size: ");
    lemma_ended_line(figures.final_elapsed_s@, 's');
    lemma_ended_line(figures.max_coverage_pct@, '%');
    lemma_decimal_is_line(figures.total_execs as nat);
    lemma_decimal_is_line(figures.final_corpus_size as nat);
    lemma_labelled_line("- Final elapsed: "@, figures.final_elapsed_s@.push('s'));
    lemma_labelled_line("- Total execs: "@, decimal(figures.total_execs as nat));
    lemma_labelled_line("- Mean exec/sec: "@, figures.mean_execs_per_sec@);
    lemma_labelled_line("- Max coverage: "@, figures.max_coverage_pct@.push('%'));
    lemma_labelled_line("- Final corpus size: "@, decimal(figures.final_corpus_size as nat));
}

/// The lines of how a run was made are lines.
proof fn lemma_metadata_are_lines(meta: BenchMetadata)
    requires
        meta.fits_lines(),
    ensures
        forall|i: int|
            0 <= i < metadata_lines(meta).len() ==> is_line(#[trigger] metadata_lines(meta)[i]),
{
    reveal_strlit("- Metadata:");
    reveal_strlit("  - Suite: ");
    reveal_strlit("  - Run index: ");
    reveal_strlit("  - Duration target (s): ");
    reveal_strlit("  - Cores: ");
    reveal_strlit("  - Timeout (ms): ");
    reveal_strlit("  - Share dir: ");
    reveal_strlit("  - Corpus seed: ");
    reveal_strlit("  - Fuzzer: ");
    reveal_strlit("  - Bench snapshot interval (s): ");
    reveal_strlit("  - Git commit: ");
    lemma_decimal_is_line(meta.run_index as nat);
    lemma_decimal_is_line(meta.duration_secs as nat);
    lemma_decimal_is_line(meta.timeout_ms as nat);
    lemma_decimal_is_line(meta.bench_snapshot_secs as nat);
    lemma_labelled_line("  - Suite: "@, meta.suite@);
    lemma_labelled_line("  - Run index: "@, decimal(meta.run_index as nat));
    lemma_labelled_line("  - Duration target (s): "@, decimal(meta.duration_secs as nat));
    lemma_labelled_line("  - Cores: "@, meta.cores@);
    lemma_labelled_line("  - Timeout (ms): "@, decimal(meta.timeout_ms as nat));
    lemma_labelled_line("  - Share dir: "@, meta.share_dir@);
    lemma_labelled_line("  - Corpus seed: "@, meta.corpus_seed@);
    lemma_labelled_line("  - Fuzzer: "@, meta.fuzzer_path@);
    lemma_labelled_line("  - Bench snapshot interval (s): "@, decimal(meta.bench_snapshot_secs as nat));
    match meta.git_commit {
        Some(commit) => lemma_labelled_line("  - Git commit: "@, commit@),
        None => {},
    }
}

/// The lines of a report are those it was written from.
proof fn lemma_report_reads_back(
    dir: Seq<char>,
    figures: RunFigures,
    metadata: Option<BenchMetadata>,
    stats_path: Seq<char>,
    summary_path: Seq<char>,
)
    requires
        is_line(dir),
        is_line(stats_path),
        is_line(summary_path),
        figures.fits_lines(),
        metadata is Some ==> metadata->0.fits_lines(),
    ensures
        lines(run_report_text(dir, figures, metadata, stats_path, summary_path)) == report_lines(
            dir,
            figures,
            metadata,
            stats_path,
            summary_path,
        ),
{
    let all = report_lines(dir, figures, metadata, stats_path, summary_path);
    lemma_report_lines(dir, figures, metadata, stats_path, summary_path);
    lemma_figures_are_lines(figures);
    match metadata {
        Some(meta) => lemma_metadata_are_lines(meta),
        None => {},
    }
    reveal_strlit("# Benchmark Report (");
    reveal_strlit("[stats.csv](");
    reveal_strlit(") | [summary.json](");
    assert forall|i: int| 0 <= i < all.len() implies is_line(#[trigger] all[i]) by {
        let count = match metadata {
            Some(meta) => metadata_lines(meta).len() as int,
            None => 0,
        };
        if 2 <= i < 7 {
            assert(all[i] == figures_lines(figures)[i - 2]);
        } else if 7 <= i < 7 + count {
            assert(all[i] == metadata_lines(metadata->0)[i - 7]);
        }
    }
    law_lines_read_back(all);
}

impl RunFigures {
    /// Whether no figure breaks a line.
    pub open spec fn fits_lines(self) -> bool {
        &&& is_line(self.final_elapsed_s@)
        &&& is_line(self.mean_execs_per_sec@)
        &&& is_line(self.max_coverage_pct@)
    }
}

impl BenchMetadata {
    /// Whether no text breaks a line.
    pub open spec fn fits_lines(self) -> bool {
        &&& is_line(self.suite@)
        &&& is_line(self.cores@)
        &&& is_line(self.share_dir@)
        &&& is_line(self.corpus_seed@)
        &&& is_line(self.fuzzer_path@)
        &&& self.git_commit is Some ==> is_line(self.git_commit->0@)
    }
}

/// A report says of a run what its figures are: behind each label stands the figure that
/// the label names. With how the run was made, it has no other lines than the title, the
/// links and a blank line behind the title and before the links.
pub proof fn law_report_says_the_figures(
    dir: Seq<char>,
    figures: RunFigures,
    metadata: Option<BenchMetadata>,
    stats_path: Seq<char>,
    summary_path: Seq<char>,
)
    requires
        is_line(dir),
        is_line(stats_path),
        is_line(summary_path),
        figures.fits_lines(),
        metadata is Some ==> metadata->0.fits_lines(),
    ensures
        ({
            let report = run_report_text(dir, figures, metadata, stats_path, summary_path);
            &&& says(report, "# Benchmark Report ("@, dir.push(')'))
            &&& says(report, "- Final elapsed: "@, figures.final_elapsed_s@ + seq!['s'])
            &&& says_number(report, "- Total execs: "@, figures.total_execs as nat)
            &&& says(report, "- Mean exec/sec: "@, figures.mean_execs_per_sec@)
            &&& says(report, "- Max coverage: "@, figures.max_coverage_pct@ + seq!['%'])
            &&& says_number(report, "- Final corpus size: "@, figures.final_corpus_size as nat)
            &&& says(
                report,
                "[stats.csv]("@,
                stats_path + ") | [summary.json]("@ + summary_path + seq![')'],
            )
            &&& lines(report).len() == 9 + match metadata {
                Some(meta) => if meta.git_commit is Some {
                    11int
                } else {
                    10
                },
                None => 0,
            }
        }),
{
    let report = run_report_text(dir, figures, metadata, stats_path, summary_path);
    let all = report_lines(dir, figures, metadata, stats_path, summary_path);
    lemma_report_reads_back(dir, figures, metadata, stats_path, summary_path);
    lemma_decimal_is_line(figures.total_execs as nat);
    lemma_decimal_is_line(figures.final_corpus_size as nat);
    assert(all[0] =~= "# Benchmark Report ("@ + dir.push(')'));
    assert(all[2] =~= "- Final elapsed: "@ + (figures.final_elapsed_s@ + seq!['s']));
    assert(all[3] == "- Total execs: "@ + decimal(figures.total_execs as nat));
    assert(says(report, "- Total execs: "@, decimal(figures.total_execs as nat)));
    assert(all[4] == "- Mean exec/sec: "@ + figures.mean_execs_per_sec@);
    assert(all[5] =~= "- Max coverage: "@ + (figures.max_coverage_pct@ + seq!['%']));
    assert(all[6] == "- Final corpus size: "@ + decimal(figures.final_corpus_size as nat));
    assert(says(report, "- Final corpus size: "@, decimal(figures.final_corpus_size as nat)));
    assert(all[all.len() - 1] =~= "[stats.csv]("@ + (stats_path + ") | [summary.json]("@
        + summary_path + seq![')']));
}

/// A report says how the run was made: behind each label stands what the label names. The
/// commit is left out where it is not known.
pub proof fn law_report_says_how_the_run_was_made(
    dir: Seq<char>,
    figures: RunFigures,
    meta: BenchMetadata,
    stats_path: Seq<char>,
    summary_path: Seq<char>,
)
    requires
        is_line(dir),
        is_line(stats_path),
        is_line(summary_path),
        figures.fits_lines(),
        meta.fits_lines(),
    ensures
        ({
            let report = run_report_text(dir, figures, Some(meta), stats_path, summary_path);
            &&& says(report, "- Metadata:"@, seq![])
            &&& says(report, "  - Suite: "@, meta.suite@)
            &&& says_number(report, "  - Run index: "@, meta.run_index as nat)
            &&& says_number(report, "  - Duration target (s): "@, meta.duration_secs as nat)
            &&& says(report, "  - Cores: "@, meta.cores@)
            &&& says_number(report, "  - Timeout (ms): "@, meta.timeout_ms as nat)
            &&& says(report, "  - Share dir: "@, meta.share_dir@)
            &&& says(report, "  - Corpus seed: "@, meta.corpus_seed@)
            &&& says(report, "  - Fuzzer: "@, meta.fuzzer_path@)
            &&& says_number(
                report,
                "  - Bench snapshot interval (s): "@,
                meta.bench_snapshot_secs as nat,
            )
            &&& meta.git_commit is Some ==> says(
                report,
                "  - Git commit: "@,
                meta.git_commit->0@,
            )
        }),
{
    let report = run_report_text(dir, figures, Some(meta), stats_path, summary_path);
    let all = report_lines(dir, figures, Some(meta), stats_path, summary_path);
    lemma_report_reads_back(dir, figures, Some(meta), stats_path, summary_path);
    lemma_decimal_is_line(meta.run_index as nat);
    lemma_decimal_is_line(meta.duration_secs as nat);
    lemma_decimal_is_line(meta.timeout_ms as nat);
    lemma_decimal_is_line(meta.bench_snapshot_secs as nat);
    assert(forall|i: int|
        0 <= i < metadata_lines(meta).len() ==> all[7 + i] == #[trigger] metadata_lines(meta)[i]);
    let made = metadata_lines(meta);
    assert(all[7] =~= "- Metadata:"@ + Seq::<char>::empty()) by {
        assert(made[0] == "- Metadata:"@);
    }
    assert(all[8] == "  - Suite: "@ + meta.suite@) by {
        assert(made[1] == "  - Suite: "@ + meta.suite@);
    }
    assert(all[9] == "  - Run index: "@ + decimal(meta.run_index as nat)) by {
        assert(made[2] == "  - Run index: "@ + decimal(meta.run_index as nat));
    }
    assert(says(report, "  - Run index: "@, decimal(meta.run_index as nat)));
    assert(all[10] == "  - Duration target (s): "@ + decimal(meta.duration_secs as nat)) by {
        assert(made[3] == "  - Duration target (s): "@ + decimal(meta.duration_secs as nat));
    }
    assert(says(report, "  - Duration target (s): "@, decimal(meta.duration_secs as nat)));
    assert(all[11] == "  - Cores: "@ + meta.cores@) by {
        assert(made[4] == "  - Cores: "@ + meta.cores@);
    }
    assert(all[12] == "  - Timeout (ms): "@ + decimal(meta.timeout_ms as nat)) by {
        assert(made[5] == "  - Timeout (ms): "@ + decimal(meta.timeout_ms as nat));
    }
    assert(says(report, "  - Timeout (ms): "@, decimal(meta.timeout_ms as nat)));
    assert(all[13] == "  - Share dir: "@ + meta.share_dir@) by {
        assert(made[6] == "  - Share dir: "@ + meta.share_dir@);
    }
    assert(all[14] == "  - Corpus seed: "@ + meta.corpus_seed@) by {
        assert(made[7] == "  - Corpus seed: "@ + meta.corpus_seed@);
    }
    assert(all[15] == "  - Fuzzer: "@ + meta.fuzzer_path@) by {
        assert(made[8] == "  - Fuzzer: "@ + meta.fuzzer_path@);
    }
    assert(all[16] == "  - Bench snapshot interval (s): "@ + decimal(meta.bench_snapshot_secs as nat)) by {
        assert(made[9] == "  - Bench snapshot interval (s): "@ + decimal(meta.bench_snapshot_secs as nat));
    }
    assert(says(report, "  - Bench snapshot interval (s): "@, decimal(meta.bench_snapshot_secs as nat)));
    match meta.git_commit {
        Some(commit) => {
            assert(made[10] == "  - Git commit: "@ + commit@);
            assert(all[17] == "  - Git commit: "@ + commit@);
        },
        None => {},
    }
}

// What a comparison says.

/// The number that a text with a sign writes.
pub open spec fn parse_signed(text: Seq<char>) -> Option<int> {
    if text.len() > 0 && text[0] == '-' {
        match parse_number(text.skip(1)) {
            Some(n) => Some(-(n as int)),
            None => None,
        }
    } else {
        match parse_number(text) {
            Some(n) => Some(n as int),
            None => None,
        }
    }
}

/// A number with its sign reads back as the number, and the sign is always there.
pub proof fn law_signed_numbers_read_back(n: int)
    ensures
        parse_signed(signed_decimal(n)) == Some(n),
        n < 0 <==> signed_decimal(n)[0] == '-',
        n >= 0 <==> signed_decimal(n)[0] == '+',
{
    let text = signed_decimal(n);
    if n < 0 {
        law_decimal_reads_back((-n) as nat);
        assert(text.skip(1) =~= decimal((-n) as nat));
    } else {
        law_decimal_reads_back(n as nat);
        assert(text.skip(1) =~= decimal(n as nat));
        assert(parse_number(decimal(n as nat)) == Some(n as nat));
    }
}

/// A line on a count says the new count, how far it is from the old one, and the old one.
pub proof fn law_count_lines_say_what_changed(label: Seq<char>, baseline: nat, candidate: nat)
    ensures
        exists|b: Seq<char>, c: Seq<char>, d: Seq<char>|
            {
                &&& count_diff_text(label, baseline, candidate) == #[trigger] (("- "@ + label + ": "@
                    + c + " (delta "@) + (d + " vs "@) + (b + ")\n"@))
                &&& parse_number(b) == Some(baseline)
                &&& parse_number(c) == Some(candidate)
                &&& parse_signed(d) == Some(candidate - baseline)
            },
{
    let b = decimal(baseline);
    let c = decimal(candidate);
    let d = signed_decimal(candidate - baseline);
    law_decimal_reads_back(baseline);
    law_decimal_reads_back(candidate);
    law_signed_numbers_read_back(candidate - baseline);
    assert(count_diff_text(label, baseline, candidate) =~= ("- "@ + label + ": "@ + c
        + " (delta "@) + (d + " vs "@) + (b + ")\n"@));
}

/// A line on a measurement says the new value, the difference and the old value.
pub proof fn law_change_lines_say_what_changed(label: Seq<char>, change: Change)
    ensures
        change_text(label, change) == "- "@ + label + ": "@ + change.candidate@ + " (delta "@
            + change.delta@ + " vs "@ + change.baseline@ + ")\n"@,
{
}

/// Whether `part` stands somewhere in `text`.
pub open spec fn holds_text(text: Seq<char>, part: Seq<char>) -> bool {
    exists|before: Seq<char>, behind: Seq<char>| text == #[trigger] (before + part + behind)
}

/// The comparison of two runs names both, and has a line on each of the four figures; on
/// the counts with what the two runs counted.
pub proof fn law_run_comparisons_say_what_changed(
    baseline: Seq<char>,
    candidate: Seq<char>,
    figures: RunComparison,
)
    ensures
        ({
            let text = run_comparison_text(baseline, candidate, figures);
            let execs = count_diff_text(
                "Total execs"@,
                figures.baseline_execs as nat,
                figures.candidate_execs as nat,
            );
            let rate = change_text("Mean exec/sec"@, figures.mean_execs_per_sec);
            let coverage = change_text("Max coverage (%)"@, figures.max_coverage_pct);
            let corpus = count_diff_text(
                "Final corpus size"@,
                figures.baseline_corpus_size as nat,
                figures.candidate_corpus_size as nat,
            );
            &&& holds_text(text, "- Baseline: "@ + baseline + "\n"@)
            &&& holds_text(text, "- Candidate: "@ + candidate + "\n"@)
            &&& holds_text(text, execs)
            &&& holds_text(text, rate)
            &&& holds_text(text, coverage)
            &&& holds_text(text, corpus)
            &&& text.len() == "# Benchmark Comparison\n\n- Baseline: "@.len() + baseline.len()
                + "\n- Candidate: "@.len() + candidate.len() + "\n\n"@.len() + execs.len()
                + rate.len() + coverage.len() + corpus.len() + 1
        }),
{
    let text = run_comparison_text(baseline, candidate, figures);
    let head = comparison_head(baseline, candidate);
    let execs = count_diff_text(
        "Total execs"@,
        figures.baseline_execs as nat,
        figures.candidate_execs as nat,
    );
    let rate = change_text("Mean exec/sec"@, figures.mean_execs_per_sec);
    let coverage = change_text("Max coverage (%)"@, figures.max_coverage_pct);
    let corpus = count_diff_text(
        "Final corpus size"@,
        figures.baseline_corpus_size as nat,
        figures.candidate_corpus_size as nat,
    );
    let rest = execs + rate + coverage + corpus + seq!['\n'];
    lemma_head_names_both(baseline, candidate, rest);
    assert(text =~= head + rest);
    assert(text =~= head + execs + (rate + coverage + corpus + seq!['\n']));
    assert(text =~= (head + execs) + rate + (coverage + corpus + seq!['\n']));
    assert(text =~= (head + execs + rate) + coverage + (corpus + seq!['\n']));
    assert(text =~= (head + execs + rate + coverage) + corpus + seq!['\n']);
}

/// The head of a comparison names both sides.
proof fn lemma_head_names_both(baseline: Seq<char>, candidate: Seq<char>, rest: Seq<char>)
    ensures
        holds_text(
            comparison_head(baseline, candidate) + rest,
            "- Baseline: "@ + baseline + "\n"@,
        ),
        holds_text(
            comparison_head(baseline, candidate) + rest,
            "- Candidate: "@ + candidate + "\n"@,
        ),
{
    let text = comparison_head(baseline, candidate) + rest;
    reveal_strlit("# Benchmark Comparison\n\n- Baseline: ");
    reveal_strlit("# Benchmark Comparison\n\n");
    reveal_strlit("- Baseline: ");
    reveal_strlit("\n- Candidate: ");
    reveal_strlit("- Candidate: ");
    reveal_strlit("\n");
    reveal_strlit("\n\n");
    let title = "# Benchmark Comparison\n\n"@;
    assert("# Benchmark Comparison\n\n- Baseline: "@ =~= title + "- Baseline: "@);
    assert("\n- Candidate: "@ =~= "\n"@ + "- Candidate: "@);
    assert("\n\n"@ =~= "\n"@ + "\n"@);
    let first = "- Baseline: "@ + baseline + "\n"@;
    let second = "- Candidate: "@ + candidate + "\n"@;
    assert(text =~= title + first + (second + "\n"@ + rest));
    assert(text =~= (title + first) + second + ("\n"@ + rest));
}

/// The comparison of two suites names both, and has a line on each mean that both have,
/// and no line on one that either lacks.
pub proof fn law_suite_comparisons_say_what_changed(
    baseline: Seq<char>,
    candidate: Seq<char>,
    coverage: Option<Change>,
    corpus: Option<Change>,
)
    ensures
        ({
            let text = suite_comparison_text(baseline, candidate, coverage, corpus);
            let head = "# Benchmark Comparison\n\n- Baseline: "@.len() + baseline.len()
                + "\n- Candidate: "@.len() + candidate.len() + "\n\n"@.len();
            &&& holds_text(text, "- Baseline: "@ + baseline + "\n"@)
            &&& holds_text(text, "- Candidate: "@ + candidate + "\n"@)
            &&& coverage is Some ==> holds_text(
                text,
                change_text("Mean coverage (%)"@, coverage->0),
            )
            &&& corpus is Some ==> holds_text(text, change_text("Mean corpus size"@, corpus->0))
            &&& text.len() == head + 1 + (match coverage {
                Some(change) => change_text("Mean coverage (%)"@, change).len(),
                None => 0,
            }) + match corpus {
                Some(change) => change_text("Mean corpus size"@, change).len(),
                None => 0,
            }
        }),
{
    let text = suite_comparison_text(baseline, candidate, coverage, corpus);
    let head = comparison_head(baseline, candidate);
    let first = optional_change_text("Mean coverage (%)"@, coverage);
    let second = optional_change_text("Mean corpus size"@, corpus);
    lemma_head_names_both(baseline, candidate, first + second + seq!['\n']);
    assert(text =~= head + (first + second + seq!['\n']));
    assert(text =~= head + first + (second + seq!['\n']));
    assert(text =~= (head + first) + second + seq!['\n']);
}

} // verus!
