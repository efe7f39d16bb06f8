//! The comma-separated files of a benchmark: one per core, and the merged one.
//!
//! The columns that hold a measurement with a fraction are kept as text.

use super::text::{
    decimal, fields, law_decimal_reads_back, lemma_position, lines, parse_number, parse_up_to,
    push_decimal, read_number, split_fields, split_lines, texts,
};
use vstd::prelude::*;

verus! {

/// The first line of a core's file.
pub const BENCH_HEADER: &'static str = "elapsed_s,execs,execs_per_sec,coverage_pct,corpus_size,crashes";

/// The first line of the merged file.
pub const STATS_HEADER: &'static str =
    "cpu,elapsed_s,execs,execs_per_sec,coverage_pct,corpus_size,crashes";

/// One sample of a core.
#[derive(Clone, Debug, PartialEq, Eq)]
pub struct BenchRow {
    pub elapsed_s: String,
    pub execs: u64,
    pub execs_per_sec: String,
    pub coverage_pct: String,
    pub corpus_size: usize,
    pub crashes: usize,
}

/// One sample in the merged file: the core and what it sampled.
#[derive(Clone, Debug, PartialEq, Eq)]
pub struct StatsRow {
    pub cpu: String,
    pub sample: BenchRow,
}

/// The model of a [`BenchRow`].
#[verifier::ext_equal]
pub struct BenchRowView {
    pub elapsed_s: Seq<char>,
    pub execs: u64,
    pub execs_per_sec: Seq<char>,
    pub coverage_pct: Seq<char>,
    pub corpus_size: usize,
    pub crashes: usize,
}

/// The model of a [`StatsRow`].
#[verifier::ext_equal]
pub struct StatsRowView {
    pub cpu: Seq<char>,
    pub sample: BenchRowView,
}

impl View for BenchRow {
    type V = BenchRowView;

    open spec fn view(&self) -> BenchRowView {
        BenchRowView {
            elapsed_s: self.elapsed_s@,
            execs: self.execs,
            execs_per_sec: self.execs_per_sec@,
            coverage_pct: self.coverage_pct@,
            corpus_size: self.corpus_size,
            crashes: self.crashes,
        }
    }
}

impl BenchRow {
    /// A sample equal to this one.
    pub fn duplicate(&self) -> (r: BenchRow)
        ensures
            r@ == self@,
    {
        BenchRow {
            elapsed_s: self.elapsed_s.clone(),
            execs: self.execs,
            execs_per_sec: self.execs_per_sec.clone(),
            coverage_pct: self.coverage_pct.clone(),
            corpus_size: self.corpus_size,
            crashes: self.crashes,
        }
    }
}

impl View for StatsRow {
    type V = StatsRowView;

    open spec fn view(&self) -> StatsRowView {
        StatsRowView { cpu: self.cpu@, sample: self.sample@ }
    }
}

/// The models of a list of samples.
pub open spec fn bench_views(rows: Seq<BenchRow>) -> Seq<BenchRowView> {
    rows.map_values(|row: BenchRow| row@)
}

/// The models of a list of merged samples.
pub open spec fn stats_views(rows: Seq<StatsRow>) -> Seq<StatsRowView> {
    rows.map_values(|row: StatsRow| row@)
}

// Reading.

/// The sample whose columns start at column `at`; none where a column is missing
/// or a count is not a number that fits.
pub open spec fn parse_sample(columns: Seq<Seq<char>>, at: int) -> Option<BenchRowView> {
    if columns.len() < at + 6 {
        None
    } else {
        match (
            parse_up_to(columns[at + 1], u64::MAX as nat),
            parse_up_to(columns[at + 4], usize::MAX as nat),
            parse_up_to(columns[at + 5], usize::MAX as nat),
        ) {
            (Some(execs), Some(corpus_size), Some(crashes)) => Some(
                BenchRowView {
                    elapsed_s: columns[at],
                    execs: execs as u64,
                    execs_per_sec: columns[at + 2],
                    coverage_pct: columns[at + 3],
                    corpus_size: corpus_size as usize,
                    crashes: crashes as usize,
                },
            ),
            _ => None,
        }
    }
}

/// The merged sample in a line, if there is one.
pub open spec fn parse_stats_line(line: Seq<char>) -> Option<StatsRowView> {
    match parse_sample(fields(line), 1) {
        Some(sample) => Some(StatsRowView { cpu: fields(line)[0], sample }),
        None => None,
    }
}

/// The samples in the lines behind the first; lines without one are skipped.
pub open spec fn bench_rows(all: Seq<Seq<char>>) -> Seq<BenchRowView>
    decreases all.len(),
{
    if all.len() <= 1 {
        seq![]
    } else {
        match parse_sample(fields(all.last()), 0) {
            Some(row) => bench_rows(all.drop_last()).push(row),
            None => bench_rows(all.drop_last()),
        }
    }
}

/// The merged samples in the lines behind the first; lines without one are
/// skipped.
pub open spec fn stats_rows(all: Seq<Seq<char>>) -> Seq<StatsRowView>
    decreases all.len(),
{
    if all.len() <= 1 {
        seq![]
    } else {
        match parse_stats_line(all.last()) {
            Some(row) => stats_rows(all.drop_last()).push(row),
            None => stats_rows(all.drop_last()),
        }
    }
}

/// Reads the sample whose columns start at column `at`.
fn read_sample(columns: &Vec<String>, at: usize) -> (r: Option<BenchRow>)
    requires
        at <= 1,
    ensures
        r is Some <==> parse_sample(texts(columns@), at as int) is Some,
        r matches Some(row) ==> parse_sample(texts(columns@), at as int) == Some(row@),
{
    if columns.len() < at + 6 {
        return None;
    }
    let execs = match read_number(columns[at + 1].as_str(), u64::MAX) {
        Some(n) => n,
        None => return None,
    };
    let corpus_size = match read_number(columns[at + 4].as_str(), usize::MAX as u64) {
        Some(n) => n as usize,
        None => return None,
    };
    let crashes = match read_number(columns[at + 5].as_str(), usize::MAX as u64) {
        Some(n) => n as usize,
        None => return None,
    };
    Some(
        BenchRow {
            elapsed_s: columns[at].clone(),
            execs,
            execs_per_sec: columns[at + 2].clone(),
            coverage_pct: columns[at + 3].clone(),
            corpus_size,
            crashes,
        },
    )
}

/// Reads the samples of a core's file.
pub fn parse_bench_rows(contents: &str) -> (r: Vec<BenchRow>)
    ensures
        bench_views(r@) == bench_rows(lines(contents@)),
{
    let all = split_lines(contents);
    let ghost view = texts(all@);
    let mut samples: Vec<BenchRow> = Vec::new();
    if all.len() == 0 {
        assert(bench_views(samples@) =~= bench_rows(view));
        return samples;
    }
    let mut i: usize = 1;
    assert(bench_views(samples@) =~= bench_rows(view.take(1)));
    while i < all.len()
        invariant
            1 <= i <= all@.len(),
            view == texts(all@),
            bench_views(samples@) == bench_rows(view.take(i as int)),
        decreases all@.len() - i,
    {
        let ghost before = bench_views(samples@);
        let columns = split_fields(all[i].as_str());
        proof {
            assert(view.take(i + 1).drop_last() =~= view.take(i as int));
            assert(view.take(i + 1).last() == all@[i as int]@);
        }
        match read_sample(&columns, 0) {
            Some(row) => {
                samples.push(row);
                assert(bench_views(samples@) =~= before.push(row@));
            },
            None => {},
        }
        i += 1;
    }
    assert(view.take(i as int) =~= view);
    samples
}

/// Reads the samples of the merged file.
pub fn parse_stats_rows(contents: &str) -> (r: Vec<StatsRow>)
    ensures
        stats_views(r@) == stats_rows(lines(contents@)),
{
    let all = split_lines(contents);
    let ghost view = texts(all@);
    let mut samples: Vec<StatsRow> = Vec::new();
    if all.len() == 0 {
        assert(stats_views(samples@) =~= stats_rows(view));
        return samples;
    }
    let mut i: usize = 1;
    assert(stats_views(samples@) =~= stats_rows(view.take(1)));
    while i < all.len()
        invariant
            1 <= i <= all@.len(),
            view == texts(all@),
            stats_views(samples@) == stats_rows(view.take(i as int)),
        decreases all@.len() - i,
    {
        let ghost before = stats_views(samples@);
        let columns = split_fields(all[i].as_str());
        proof {
            assert(view.take(i + 1).drop_last() =~= view.take(i as int));
            assert(view.take(i + 1).last() == all@[i as int]@);
        }
        match read_sample(&columns, 1) {
            Some(sample) => {
                let row = StatsRow { cpu: columns[0].clone(), sample };
                samples.push(row);
                assert(row.cpu@ == texts(columns@)[0]);
                assert(stats_views(samples@) =~= before.push(row@));
            },
            None => {},
        }
        i += 1;
    }
    assert(view.take(i as int) =~= view);
    samples
}

// Writing.

/// The columns of a sample.
pub open spec fn sample_text(row: BenchRowView) -> Seq<char> {
    row.elapsed_s + seq![','] + decimal(row.execs as nat) + seq![','] + row.execs_per_sec + seq![
        ',',
    ] + row.coverage_pct + seq![','] + decimal(row.corpus_size as nat) + seq![','] + decimal(
        row.crashes as nat,
    )
}

/// The columns of a merged sample.
pub open spec fn stats_text(row: StatsRowView) -> Seq<char> {
    row.cpu + seq![','] + sample_text(row.sample)
}

/// Lines, each with a newline at its end.
pub open spec fn terminated(all: Seq<Seq<char>>) -> Seq<char>
    decreases all.len(),
{
    if all.len() == 0 {
        seq![]
    } else {
        terminated(all.drop_last()) + all.last() + seq!['\n']
    }
}

/// The merged file with the given rows.
pub open spec fn stats_file(rows: Seq<StatsRowView>) -> Seq<char> {
    terminated(seq![STATS_HEADER@] + rows.map_values(|row: StatsRowView| stats_text(row)))
}

/// A core's file with the given rows.
pub open spec fn bench_file(rows: Seq<BenchRowView>) -> Seq<char> {
    terminated(seq![BENCH_HEADER@] + rows.map_values(|row: BenchRowView| sample_text(row)))
}

/// Appends the columns of a sample.
fn push_sample(out: &mut String, row: &BenchRow)
    ensures
        final(out)@ == old(out)@ + sample_text(row@),
{
    out.append(row.elapsed_s.as_str());
    out.push(',');
    push_decimal(out, row.execs as u128);
    out.push(',');
    out.append(row.execs_per_sec.as_str());
    out.push(',');
    out.append(row.coverage_pct.as_str());
    out.push(',');
    push_decimal(out, row.corpus_size as u128);
    out.push(',');
    push_decimal(out, row.crashes as u128);
    assert(out@ =~= old(out)@ + sample_text(row@));
}

/// The line that a core's file gets for a sample.
pub fn bench_line(row: &BenchRow) -> (r: String)
    ensures
        r@ == sample_text(row@).push('\n'),
{
    let mut out = String::new();
    push_sample(&mut out, row);
    out.push('\n');
    assert(out@ =~= sample_text(row@).push('\n'));
    out
}

/// The merged file with the given rows.
pub fn stats_csv(rows: &[StatsRow]) -> (r: String)
    ensures
        r@ == stats_file(stats_views(rows@)),
{
    let ghost written = seq![STATS_HEADER@] + stats_views(rows@).map_values(
        |row: StatsRowView| stats_text(row),
    );
    let mut out = String::new();
    out.append(STATS_HEADER);
    out.push('\n');
    let mut i: usize = 0;
    proof {
        assert(written.take(1).drop_last() =~= seq![]);
        assert(terminated(written.take(1).drop_last()) =~= seq![]);
        assert(written.take(1).last() == STATS_HEADER@);
        assert(out@ =~= terminated(written.take(1)));
    }
    while i < rows.len()
        invariant
            i <= rows@.len(),
            written == seq![STATS_HEADER@] + stats_views(rows@).map_values(
                |row: StatsRowView| stats_text(row),
            ),
            out@ == terminated(written.take(i + 1)),
        decreases rows@.len() - i,
    {
        let ghost before = out@;
        out.append(rows[i].cpu.as_str());
        out.push(',');
        push_sample(&mut out, &rows[i].sample);
        out.push('\n');
        proof {
            assert(written.take(i + 2).drop_last() =~= written.take(i + 1));
            assert(written.take(i + 2).last() == stats_text(rows@[i as int]@));
            assert(out@ =~= before + stats_text(rows@[i as int]@) + seq!['\n']);
        }
        i += 1;
    }
    assert(written.take(i + 1) =~= written);
    out
}

// What is written is read back.

/// Whether a text can stand in a column: it holds no comma and no newline.
pub open spec fn is_column(s: Seq<char>) -> bool {
    forall|i: int| 0 <= i < s.len() ==> #[trigger] s[i] != ',' && s[i] != '\n'
}

/// Whether the measurements of a sample can stand in columns.
pub open spec fn writable(row: BenchRowView) -> bool {
    is_column(row.elapsed_s) && is_column(row.execs_per_sec) && is_column(row.coverage_pct)
}

/// A number in decimal can stand in a column.
proof fn lemma_decimal_is_column(n: nat)
    ensures
        is_column(decimal(n)),
        decimal(n).len() > 0,
        decimal(n).last() != '\r',
{
    law_decimal_reads_back(n);
}

/// The first field of a line that starts with a column.
proof fn lemma_first_field(column: Seq<char>, rest: Seq<char>)
    requires
        is_column(column),
    ensures
        fields(column + seq![','] + rest) == seq![column] + fields(rest),
{
    let s = column + seq![','] + rest;
    lemma_position(s, ',', column.len() as int);
    assert(s.take(column.len() as int) =~= column);
    assert(s.skip(column.len() as int + 1) =~= rest);
}

/// The only field of a line that is a column.
proof fn lemma_only_field(column: Seq<char>)
    requires
        is_column(column),
    ensures
        fields(column) == seq![column],
{
    lemma_position(column, ',', column.len() as int);
}

/// The fields of a written sample are its columns.
proof fn lemma_sample_fields(row: BenchRowView)
    requires
        writable(row),
    ensures
        fields(sample_text(row)) == seq![
            row.elapsed_s,
            decimal(row.execs as nat),
            row.execs_per_sec,
            row.coverage_pct,
            decimal(row.corpus_size as nat),
            decimal(row.crashes as nat),
        ],
{
    let execs = decimal(row.execs as nat);
    let corpus = decimal(row.corpus_size as nat);
    let crashes = decimal(row.crashes as nat);
    lemma_decimal_is_column(row.execs as nat);
    lemma_decimal_is_column(row.corpus_size as nat);
    lemma_decimal_is_column(row.crashes as nat);
    let r5 = crashes;
    let r4 = corpus + seq![','] + r5;
    let r3 = row.coverage_pct + seq![','] + r4;
    let r2 = row.execs_per_sec + seq![','] + r3;
    let r1 = execs + seq![','] + r2;
    let r0 = row.elapsed_s + seq![','] + r1;
    assert(sample_text(row) =~= r0);
    lemma_only_field(r5);
    lemma_first_field(corpus, r5);
    lemma_first_field(row.coverage_pct, r4);
    lemma_first_field(row.execs_per_sec, r3);
    lemma_first_field(execs, r2);
    lemma_first_field(row.elapsed_s, r1);
    assert(fields(r0) =~= seq![
        row.elapsed_s,
        execs,
        row.execs_per_sec,
        row.coverage_pct,
        corpus,
        crashes,
    ]);
}

/// Columns that hold a sample are read as that sample.
proof fn lemma_sample_columns(columns: Seq<Seq<char>>, at: int, row: BenchRowView)
    requires
        0 <= at,
        columns.len() == at + 6,
        columns[at] == row.elapsed_s,
        columns[at + 1] == decimal(row.execs as nat),
        columns[at + 2] == row.execs_per_sec,
        columns[at + 3] == row.coverage_pct,
        columns[at + 4] == decimal(row.corpus_size as nat),
        columns[at + 5] == decimal(row.crashes as nat),
    ensures
        parse_sample(columns, at) == Some(row),
{
    law_decimal_reads_back(row.execs as nat);
    law_decimal_reads_back(row.corpus_size as nat);
    law_decimal_reads_back(row.crashes as nat);
}

/// A written sample is read back as the sample.
pub proof fn law_sample_reads_back(row: BenchRowView)
    requires
        writable(row),
    ensures
        parse_sample(fields(sample_text(row)), 0) == Some(row),
{
    lemma_sample_fields(row);
    lemma_sample_columns(fields(sample_text(row)), 0, row);
}

/// A written merged sample is read back as the sample.
pub proof fn law_stats_line_reads_back(row: StatsRowView)
    requires
        is_column(row.cpu),
        writable(row.sample),
    ensures
        parse_stats_line(stats_text(row)) == Some(row),
{
    lemma_sample_fields(row.sample);
    lemma_first_field(row.cpu, sample_text(row.sample));
    lemma_sample_columns(fields(stats_text(row)), 1, row.sample);
}

/// Whether a text is a line of its own: it holds no newline and does not end with
/// a carriage return.
pub open spec fn is_line(s: Seq<char>) -> bool {
    &&& forall|i: int| 0 <= i < s.len() ==> #[trigger] s[i] != '\n'
    &&& s.len() > 0 ==> s.last() != '\r'
}

/// The lines of a text that starts with a line.
proof fn lemma_first_line(line: Seq<char>, rest: Seq<char>)
    requires
        is_line(line),
    ensures
        lines(line + seq!['\n'] + rest) == seq![line] + lines(rest),
{
    let s = line + seq!['\n'] + rest;
    lemma_position(s, '\n', line.len() as int);
    assert(s.take(line.len() as int) =~= line);
    assert(s.skip(line.len() as int + 1) =~= rest);
}

/// Lines written one after the other, and then more text.
proof fn lemma_terminated_lines(all: Seq<Seq<char>>, rest: Seq<char>)
    requires
        forall|i: int| 0 <= i < all.len() ==> is_line(#[trigger] all[i]),
    ensures
        lines(terminated(all) + rest) == all + lines(rest),
    decreases all.len(),
{
    if all.len() == 0 {
        assert(terminated(all) + rest =~= rest);
        assert(all + lines(rest) =~= lines(rest));
    } else {
        let last = all.last();
        let tail = last + seq!['\n'] + rest;
        assert(terminated(all) + rest =~= terminated(all.drop_last()) + tail);
        lemma_terminated_lines(all.drop_last(), tail);
        lemma_first_line(last, rest);
        assert(all.drop_last() + (seq![last] + lines(rest)) =~= all + lines(rest));
    }
}

/// Lines written one after the other are read back as those lines.
pub proof fn law_lines_read_back(all: Seq<Seq<char>>)
    requires
        forall|i: int| 0 <= i < all.len() ==> is_line(#[trigger] all[i]),
    ensures
        lines(terminated(all)) == all,
{
    lemma_terminated_lines(all, seq![]);
    assert(terminated(all) + Seq::<char>::empty() =~= terminated(all));
    assert(lines(Seq::<char>::empty()) =~= seq![]);
    assert(all + lines(Seq::<char>::empty()) =~= all);
}

/// A written sample is a line of its own.
proof fn lemma_sample_is_line(row: BenchRowView)
    requires
        writable(row),
    ensures
        is_line(sample_text(row)),
{
    lemma_decimal_is_column(row.execs as nat);
    lemma_decimal_is_column(row.corpus_size as nat);
    lemma_decimal_is_column(row.crashes as nat);
    let s = sample_text(row);
    let head = row.elapsed_s + seq![','] + decimal(row.execs as nat) + seq![',']
        + row.execs_per_sec + seq![','] + row.coverage_pct + seq![','] + decimal(
        row.corpus_size as nat,
    ) + seq![','];
    assert(s =~= head + decimal(row.crashes as nat));
    assert(s.last() == decimal(row.crashes as nat).last());
}

/// The samples of lines that were written from samples.
proof fn lemma_bench_rows(header: Seq<char>, rows: Seq<BenchRowView>)
    requires
        forall|i: int| 0 <= i < rows.len() ==> writable(#[trigger] rows[i]),
    ensures
        bench_rows(seq![header] + rows.map_values(|row: BenchRowView| sample_text(row))) == rows,
    decreases rows.len(),
{
    let written = seq![header] + rows.map_values(|row: BenchRowView| sample_text(row));
    if rows.len() > 0 {
        let shorter = rows.drop_last();
        assert(written.drop_last() =~= seq![header] + shorter.map_values(
            |row: BenchRowView| sample_text(row),
        ));
        lemma_bench_rows(header, shorter);
        law_sample_reads_back(rows.last());
        assert(shorter.push(rows.last()) =~= rows);
    } else {
        assert(bench_rows(written) =~= rows);
    }
}

/// The merged samples of lines that were written from merged samples.
proof fn lemma_stats_rows(header: Seq<char>, rows: Seq<StatsRowView>)
    requires
        forall|i: int|
            0 <= i < rows.len() ==> is_column((#[trigger] rows[i]).cpu) && writable(rows[i].sample),
    ensures
        stats_rows(seq![header] + rows.map_values(|row: StatsRowView| stats_text(row))) == rows,
    decreases rows.len(),
{
    let written = seq![header] + rows.map_values(|row: StatsRowView| stats_text(row));
    if rows.len() > 0 {
        let shorter = rows.drop_last();
        assert(written.drop_last() =~= seq![header] + shorter.map_values(
            |row: StatsRowView| stats_text(row),
        ));
        lemma_stats_rows(header, shorter);
        law_stats_line_reads_back(rows.last());
        assert(shorter.push(rows.last()) =~= rows);
    } else {
        assert(stats_rows(written) =~= rows);
    }
}

/// A core's file gives back the samples that were written to it.
pub proof fn law_bench_file_reads_back(rows: Seq<BenchRowView>)
    requires
        forall|i: int| 0 <= i < rows.len() ==> writable(#[trigger] rows[i]),
    ensures
        bench_rows(lines(bench_file(rows))) == rows,
{
    let written = seq![BENCH_HEADER@] + rows.map_values(|row: BenchRowView| sample_text(row));
    assert forall|i: int| 0 <= i < written.len() implies is_line(#[trigger] written[i]) by {
        if i == 0 {
            reveal_strlit("elapsed_s,execs,execs_per_sec,coverage_pct,corpus_size,crashes");
        } else {
            lemma_sample_is_line(rows[i - 1]);
        }
    }
    law_lines_read_back(written);
    lemma_bench_rows(BENCH_HEADER@, rows);
}

/// The merged file gives back the samples that were written to it.
pub proof fn law_stats_file_reads_back(rows: Seq<StatsRowView>)
    requires
        forall|i: int|
            0 <= i < rows.len() ==> is_column((#[trigger] rows[i]).cpu) && writable(rows[i].sample),
    ensures
        stats_rows(lines(stats_file(rows))) == rows,
{
    let written = seq![STATS_HEADER@] + rows.map_values(|row: StatsRowView| stats_text(row));
    assert forall|i: int| 0 <= i < written.len() implies is_line(#[trigger] written[i]) by {
        if i == 0 {
            reveal_strlit("cpu,elapsed_s,execs,execs_per_sec,coverage_pct,corpus_size,crashes");
        } else {
            let row = rows[i - 1];
            lemma_sample_is_line(row.sample);
            assert(stats_text(row).last() == sample_text(row.sample).last());
        }
    }
    law_lines_read_back(written);
    lemma_stats_rows(STATS_HEADER@, rows);
}

// What the columns are.

/// The names of the columns of a core's file.
proof fn lemma_bench_header()
    ensures
        fields(BENCH_HEADER@) == seq![
            "elapsed_s"@,
            "execs"@,
            "execs_per_sec"@,
            "coverage_pct"@,
            "corpus_size"@,
            "crashes"@,
        ],
{
    reveal_strlit("elapsed_s,execs,execs_per_sec,coverage_pct,corpus_size,crashes");
    reveal_strlit("elapsed_s");
    reveal_strlit("execs");
    reveal_strlit("execs_per_sec");
    reveal_strlit("coverage_pct");
    reveal_strlit("corpus_size");
    reveal_strlit("crashes");
    let r5 = "crashes"@;
    let r4 = "corpus_size"@ + seq![','] + r5;
    let r3 = "coverage_pct"@ + seq![','] + r4;
    let r2 = "execs_per_sec"@ + seq![','] + r3;
    let r1 = "execs"@ + seq![','] + r2;
    let r0 = "elapsed_s"@ + seq![','] + r1;
    assert("elapsed_s,execs,execs_per_sec,coverage_pct,corpus_size,crashes"@ =~= r0);
    lemma_only_field(r5);
    lemma_first_field("corpus_size"@, r5);
    lemma_first_field("coverage_pct"@, r4);
    lemma_first_field("execs_per_sec"@, r3);
    lemma_first_field("execs"@, r2);
    lemma_first_field("elapsed_s"@, r1);
    assert(fields(r0) =~= seq!["elapsed_s"@, "execs"@, "execs_per_sec"@, "coverage_pct"@, "corpus_size"@, "crashes"@]);
}

/// The names of the columns of the merged file.
proof fn lemma_stats_header()
    ensures
        fields(STATS_HEADER@) == seq![
            "cpu"@,
            "elapsed_s"@,
            "execs"@,
            "execs_per_sec"@,
            "coverage_pct"@,
            "corpus_size"@,
            "crashes"@,
        ],
{
    reveal_strlit("cpu,elapsed_s,execs,execs_per_sec,coverage_pct,corpus_size,crashes");
    reveal_strlit("cpu");
    reveal_strlit("elapsed_s");
    reveal_strlit("execs");
    reveal_strlit("execs_per_sec");
    reveal_strlit("coverage_pct");
    reveal_strlit("corpus_size");
    reveal_strlit("crashes");
    let r6 = "crashes"@;
    let r5 = "corpus_size"@ + seq![','] + r6;
    let r4 = "coverage_pct"@ + seq![','] + r5;
    let r3 = "execs_per_sec"@ + seq![','] + r4;
    let r2 = "execs"@ + seq![','] + r3;
    let r1 = "elapsed_s"@ + seq![','] + r2;
    let r0 = "cpu"@ + seq![','] + r1;
    assert("cpu,elapsed_s,execs,execs_per_sec,coverage_pct,corpus_size,crashes"@ =~= r0);
    lemma_only_field(r6);
    lemma_first_field("corpus_size"@, r6);
    lemma_first_field("coverage_pct"@, r5);
    lemma_first_field("execs_per_sec"@, r4);
    lemma_first_field("execs"@, r3);
    lemma_first_field("elapsed_s"@, r2);
    lemma_first_field("cpu"@, r1);
    assert(fields(r0) =~= seq!["cpu"@, "elapsed_s"@, "execs"@, "execs_per_sec"@, "coverage_pct"@, "corpus_size"@, "crashes"@]);
}

/// Whether the column that `header` calls `name` holds `text` in `line`.
pub open spec fn column_holds(
    header: Seq<char>,
    line: Seq<char>,
    name: Seq<char>,
    text: Seq<char>,
) -> bool {
    exists|k: int|
        0 <= k < fields(header).len() && k < fields(line).len() && #[trigger] fields(header)[k]
            == name && fields(line)[k] == text
}

/// Whether the column that `header` calls `name` holds a number in `line` that reads
/// back as `n`.
pub open spec fn column_counts(
    header: Seq<char>,
    line: Seq<char>,
    name: Seq<char>,
    n: nat,
) -> bool {
    exists|text: Seq<char>|
        #[trigger] column_holds(header, line, name, text) && parse_number(text) == Some(n)
}

/// In a core's file each figure of a sample stands in the column that is named after it,
/// and a line has as many columns as the header.
pub proof fn law_columns_stand_under_their_names(row: BenchRowView)
    requires
        writable(row),
    ensures
        ({
            let line = sample_text(row);
            &&& column_holds(BENCH_HEADER@, line, "elapsed_s"@, row.elapsed_s)
            &&& column_counts(BENCH_HEADER@, line, "execs"@, row.execs as nat)
            &&& column_holds(BENCH_HEADER@, line, "execs_per_sec"@, row.execs_per_sec)
            &&& column_holds(BENCH_HEADER@, line, "coverage_pct"@, row.coverage_pct)
            &&& column_counts(BENCH_HEADER@, line, "corpus_size"@, row.corpus_size as nat)
            &&& column_counts(BENCH_HEADER@, line, "crashes"@, row.crashes as nat)
            &&& fields(line).len() == fields(BENCH_HEADER@).len() == 6
        }),
{
    let line = sample_text(row);
    lemma_bench_header();
    lemma_sample_fields(row);
    law_decimal_reads_back(row.execs as nat);
    law_decimal_reads_back(row.corpus_size as nat);
    law_decimal_reads_back(row.crashes as nat);
    let names = fields(BENCH_HEADER@);
    assert(names[0] == "elapsed_s"@ && names[1] == "execs"@ && names[2] == "execs_per_sec"@);
    assert(names[3] == "coverage_pct"@ && names[4] == "corpus_size"@ && names[5] == "crashes"@);
    assert(column_holds(BENCH_HEADER@, line, "execs"@, decimal(row.execs as nat)));
    assert(column_holds(BENCH_HEADER@, line, "corpus_size"@, decimal(row.corpus_size as nat)));
    assert(column_holds(BENCH_HEADER@, line, "crashes"@, decimal(row.crashes as nat)));
}

/// In the merged file each figure of a sample stands in the column that is named after
/// it, and so does the core.
pub proof fn law_merged_columns_stand_under_their_names(row: StatsRowView)
    requires
        is_column(row.cpu),
        writable(row.sample),
    ensures
        ({
            let line = stats_text(row);
            let sample = row.sample;
            &&& column_holds(STATS_HEADER@, line, "cpu"@, row.cpu)
            &&& column_holds(STATS_HEADER@, line, "elapsed_s"@, sample.elapsed_s)
            &&& column_counts(STATS_HEADER@, line, "execs"@, sample.execs as nat)
            &&& column_holds(STATS_HEADER@, line, "execs_per_sec"@, sample.execs_per_sec)
            &&& column_holds(STATS_HEADER@, line, "coverage_pct"@, sample.coverage_pct)
            &&& column_counts(STATS_HEADER@, line, "corpus_size"@, sample.corpus_size as nat)
            &&& column_counts(STATS_HEADER@, line, "crashes"@, sample.crashes as nat)
            &&& fields(line).len() == fields(STATS_HEADER@).len() == 7
        }),
{
    let line = stats_text(row);
    let sample = row.sample;
    lemma_stats_header();
    lemma_sample_fields(sample);
    lemma_first_field(row.cpu, sample_text(sample));
    law_decimal_reads_back(sample.execs as nat);
    law_decimal_reads_back(sample.corpus_size as nat);
    law_decimal_reads_back(sample.crashes as nat);
    let names = fields(STATS_HEADER@);
    assert(names[0] == "cpu"@ && names[1] == "elapsed_s"@ && names[2] == "execs"@);
    assert(names[3] == "execs_per_sec"@ && names[4] == "coverage_pct"@);
    assert(names[5] == "corpus_size"@ && names[6] == "crashes"@);
    assert(column_holds(STATS_HEADER@, line, "execs"@, decimal(sample.execs as nat)));
    assert(column_holds(STATS_HEADER@, line, "corpus_size"@, decimal(sample.corpus_size as nat)));
    assert(column_holds(STATS_HEADER@, line, "crashes"@, decimal(sample.crashes as nat)));
}

/// A line holds a sample exactly if it has a column for each figure and its counts are
/// numbers that fit; more columns do no harm, and a sample has what its columns hold.
pub proof fn law_samples_are_read_by_column(columns: Seq<Seq<char>>, at: int)
    requires
        0 <= at,
    ensures
        parse_sample(columns, at) is Some <==> {
            &&& columns.len() >= at + 6
            &&& parse_number(columns[at + 1]) is Some && parse_number(columns[at + 1])->0
                <= u64::MAX
            &&& parse_number(columns[at + 4]) is Some && parse_number(columns[at + 4])->0
                <= usize::MAX
            &&& parse_number(columns[at + 5]) is Some && parse_number(columns[at + 5])->0
                <= usize::MAX
        },
        parse_sample(columns, at) matches Some(row) ==> {
            &&& row.elapsed_s == columns[at]
            &&& parse_number(columns[at + 1]) == Some(row.execs as nat)
            &&& row.execs_per_sec == columns[at + 2]
            &&& row.coverage_pct == columns[at + 3]
            &&& parse_number(columns[at + 4]) == Some(row.corpus_size as nat)
            &&& parse_number(columns[at + 5]) == Some(row.crashes as nat)
        },
{
}

/// The first line of a file is no sample; every other line adds its sample, if it holds
/// one, behind those of the lines before it.
pub proof fn law_rows_are_read_line_by_line(
    header: Seq<char>,
    before: Seq<Seq<char>>,
    line: Seq<char>,
)
    ensures
        bench_rows(seq![]) == Seq::<BenchRowView>::empty(),
        bench_rows(seq![header]) == Seq::<BenchRowView>::empty(),
        bench_rows((seq![header] + before).push(line)) == bench_rows(seq![header] + before) + (
        match parse_sample(fields(line), 0) {
            Some(row) => seq![row],
            None => seq![],
        }),
        stats_rows(seq![]) == Seq::<StatsRowView>::empty(),
        stats_rows(seq![header]) == Seq::<StatsRowView>::empty(),
        stats_rows((seq![header] + before).push(line)) == stats_rows(seq![header] + before) + (
        match parse_sample(fields(line), 1) {
            Some(sample) => seq![StatsRowView { cpu: fields(line)[0], sample }],
            None => seq![],
        }),
{
    let all = (seq![header] + before).push(line);
    assert(all.drop_last() =~= seq![header] + before);
    assert(all.last() == line);
    match parse_sample(fields(line), 0) {
        Some(row) => {
            assert(bench_rows(all) =~= bench_rows(seq![header] + before) + seq![row]);
        },
        None => {
            assert(bench_rows(all) =~= bench_rows(seq![header] + before) + Seq::<
                BenchRowView,
            >::empty());
        },
    }
    match parse_sample(fields(line), 1) {
        Some(sample) => {
            assert(stats_rows(all) =~= stats_rows(seq![header] + before) + seq![
                StatsRowView { cpu: fields(line)[0], sample },
            ]);
        },
        None => {
            assert(stats_rows(all) =~= stats_rows(seq![header] + before) + Seq::<
                StatsRowView,
            >::empty());
        },
    }
}

/// Samples with the same model are the same sample: nothing of a sample is lost in its
/// model.
pub proof fn law_samples_have_models_of_their_own(a: StatsRow, b: StatsRow)
    ensures
        a@ == b@ <==> a.cpu@ == b.cpu@ && a.sample@ == b.sample@,
        a.sample@ == b.sample@ <==> {
            &&& a.sample.elapsed_s@ == b.sample.elapsed_s@
            &&& a.sample.execs == b.sample.execs
            &&& a.sample.execs_per_sec@ == b.sample.execs_per_sec@
            &&& a.sample.coverage_pct@ == b.sample.coverage_pct@
            &&& a.sample.corpus_size == b.sample.corpus_size
            &&& a.sample.crashes == b.sample.crashes
        },
{
}

} // verus!
