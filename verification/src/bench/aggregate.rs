//! The samples of a run's cores, put together.

use super::csv::{stats_csv, stats_file, stats_views, BenchRow, BenchRowView, StatsRow, StatsRowView};
use super::series::{in_range, ordered, stable_order, LastSample, RunTotals};
use vstd::prelude::*;

verus! {

/// A sample of a core: its row, and the keys of its time and its coverage.
#[derive(Clone, Debug, PartialEq, Eq)]
pub struct CoreSample {
    pub row: BenchRow,
    pub elapsed: i128,
    pub coverage: i128,
}

/// The samples of a core, in the order of its file.
#[derive(Clone, Debug, PartialEq, Eq)]
pub struct CoreFile {
    pub cpu: String,
    pub samples: Vec<CoreSample>,
}

/// What a run's cores come to.
#[derive(Clone, Debug, PartialEq, Eq)]
pub struct RunAggregate {
    /// The samples in order of time. Samples are numbered core by core.
    pub order: Vec<usize>,
    /// The merged file.
    pub stats: String,
    pub totals: RunTotals,
}

/// Whether a file of the bench directory holds samples, by its extension.
pub fn is_bench_file(extension: Option<&str>) -> (r: bool)
    ensures
        r <==> (extension matches Some(e) && e@ == "csv"@),
{
    match extension {
        Some(extension) => extension.to_owned() == "csv".to_owned(),
        None => false,
    }
}

impl CoreFile {
    /// The merged samples of the core.
    pub open spec fn rows(self) -> Seq<StatsRowView> {
        self.samples@.map_values(
            |s: CoreSample| StatsRowView { cpu: self.cpu@, sample: s.row@ },
        )
    }

    /// The times of the core's samples.
    pub open spec fn times(self) -> Seq<i128> {
        self.samples@.map_values(|s: CoreSample| s.elapsed)
    }

    /// The last sample of the core.
    pub open spec fn last(self) -> LastSample {
        LastSample {
            elapsed: self.samples@.last().elapsed,
            execs: self.samples@.last().row.execs,
            coverage: self.samples@.last().coverage,
            corpus_size: self.samples@.last().row.corpus_size,
        }
    }
}

/// The samples of all cores, core by core.
pub open spec fn all_rows(files: Seq<CoreFile>) -> Seq<StatsRowView>
    decreases files.len(),
{
    if files.len() == 0 {
        seq![]
    } else {
        all_rows(files.drop_last()) + files.last().rows()
    }
}

/// The times of the samples of all cores, core by core.
pub open spec fn all_times(files: Seq<CoreFile>) -> Seq<i128>
    decreases files.len(),
{
    if files.len() == 0 {
        seq![]
    } else {
        all_times(files.drop_last()) + files.last().times()
    }
}

/// The executions of all cores: each counts with its last sample.
pub open spec fn all_execs(files: Seq<CoreFile>) -> nat
    decreases files.len(),
{
    if files.len() == 0 {
        0
    } else {
        all_execs(files.drop_last()) + if files.last().samples@.len() > 0 {
            files.last().last().execs as nat
        } else {
            0
        }
    }
}

/// The totals of all cores that have a sample.
pub open spec fn all_totals(files: Seq<CoreFile>) -> RunTotals
    decreases files.len(),
{
    if files.len() == 0 {
        RunTotals::none()
    } else if files.last().samples@.len() > 0 {
        all_totals(files.drop_last()).plus(files.last().last())
    } else {
        all_totals(files.drop_last())
    }
}

/// The rows `rows` in the order `order`.
pub open spec fn arranged(rows: Seq<StatsRowView>, order: Seq<usize>) -> Seq<StatsRowView> {
    order.map_values(|i: usize| rows[i as int])
}

/// Fewer cores never have more executions.
proof fn lemma_execs_grow(files: Seq<CoreFile>, k: int)
    requires
        0 <= k <= files.len(),
    ensures
        all_execs(files.take(k)) <= all_execs(files),
    decreases files.len() - k,
{
    if k < files.len() {
        assert(files.take(k + 1).drop_last() =~= files.take(k));
        lemma_execs_grow(files, k + 1);
    } else {
        assert(files.take(k) =~= files);
    }
}

/// As long as the executions fit, the totals count all of them.
pub proof fn law_totals_count_all_execs(files: Seq<CoreFile>)
    requires
        all_execs(files) <= u64::MAX,
    ensures
        all_totals(files).total_execs == all_execs(files),
    decreases files.len(),
{
    if files.len() > 0 {
        law_totals_count_all_execs(files.drop_last());
    }
}

/// There are as many times as samples.
proof fn lemma_times_match_rows(files: Seq<CoreFile>)
    ensures
        all_times(files).len() == all_rows(files).len(),
    decreases files.len(),
{
    if files.len() > 0 {
        lemma_times_match_rows(files.drop_last());
    }
}

/// Puts the samples of a run's cores together: the samples in order of time, those
/// of one time in the order in which they were given, and the totals over the
/// cores. There is nothing to put together where no core has a sample.
pub fn aggregate_run(files: &[CoreFile]) -> (r: Option<RunAggregate>)
    requires
        all_execs(files@) <= u64::MAX,
    ensures
        r is None <==> all_rows(files@).len() == 0,
        r matches Some(run) ==> {
            &&& ordered(all_times(files@), run.order@)
            &&& run.order@.len() == all_times(files@).len() == all_rows(files@).len()
            &&& in_range(all_times(files@), run.order@)
            &&& forall|i: usize| i < all_times(files@).len() ==> run.order@.contains(i)
            &&& run.stats@ == stats_file(arranged(all_rows(files@), run.order@))
            &&& run.totals == all_totals(files@)
        },
{
    let mut merged: Vec<StatsRow> = Vec::new();
    let mut times: Vec<i128> = Vec::new();
    let mut totals = RunTotals::new();
    let mut f: usize = 0;
    assert(stats_views(merged@) =~= all_rows(files@.take(0)));
    assert(times@ =~= all_times(files@.take(0)));
    while f < files.len()
        invariant
            f <= files@.len(),
            all_execs(files@) <= u64::MAX,
            stats_views(merged@) == all_rows(files@.take(f as int)),
            times@ == all_times(files@.take(f as int)),
            totals == all_totals(files@.take(f as int)),
        decreases files@.len() - f,
    {
        let file = &files[f];
        let ghost before = files@.take(f as int);
        let ghost with = files@.take(f + 1);
        let ghost rows_before = stats_views(merged@);
        let ghost times_before = times@;
        proof {
            assert(with.drop_last() =~= before);
            assert(with.last() == *file);
            lemma_execs_grow(files@, f + 1);
            lemma_execs_grow(files@, f as int);
            law_totals_count_all_execs(before);
        }
        let mut k: usize = 0;
        assert(stats_views(merged@) =~= rows_before + file.rows().take(0));
        assert(times@ =~= times_before + file.times().take(0));
        while k < file.samples.len()
            invariant
                k <= file.samples@.len(),
                stats_views(merged@) == rows_before + file.rows().take(k as int),
                times@ == times_before + file.times().take(k as int),
            decreases file.samples@.len() - k,
        {
            let sample = &file.samples[k];
            let row = StatsRow { cpu: file.cpu.clone(), sample: sample.row.duplicate() };
            let ghost merged_before = merged@;
            merged.push(row);
            times.push(sample.elapsed);
            k += 1;
            proof {
                assert(row@ == file.rows()[k - 1]);
                assert(stats_views(merged@) =~= stats_views(merged_before).push(row@));
                assert(stats_views(merged@) =~= rows_before + file.rows().take(k as int));
                assert(times@ =~= times_before + file.times().take(k as int));
            }
        }
        proof {
            assert(file.rows().take(k as int) =~= file.rows());
            assert(file.times().take(k as int) =~= file.times());
        }
        let count = file.samples.len();
        if count > 0 {
            let last = &file.samples[count - 1];
            totals.record_core(
                LastSample {
                    elapsed: last.elapsed,
                    execs: last.row.execs,
                    coverage: last.coverage,
                    corpus_size: last.row.corpus_size,
                },
            );
        }
        f += 1;
    }
    assert(files@.take(f as int) =~= files@);
    if merged.len() == 0 {
        return None;
    }
    let order = stable_order(times.as_slice());
    proof {
        lemma_times_match_rows(files@);
    }
    let mut sorted: Vec<StatsRow> = Vec::with_capacity(order.len());
    let ghost rows = all_rows(files@);
    let mut j: usize = 0;
    assert(stats_views(sorted@) =~= arranged(rows, order@.take(0)));
    while j < order.len()
        invariant
            j <= order@.len(),
            in_range(times@, order@),
            merged@.len() == times@.len(),
            stats_views(merged@) == rows,
            stats_views(sorted@) == arranged(rows, order@.take(j as int)),
        decreases order@.len() - j,
    {
        let at = order[j];
        let row = StatsRow {
            cpu: merged[at].cpu.clone(),
            sample: merged[at].sample.duplicate(),
        };
        let ghost sorted_before = sorted@;
        sorted.push(row);
        j += 1;
        proof {
            assert(row@ == stats_views(merged@)[at as int]);
            assert(stats_views(sorted@) =~= stats_views(sorted_before).push(row@));
            assert(stats_views(sorted@) =~= arranged(rows, order@.take(j as int)));
        }
    }
    assert(order@.take(j as int) =~= order@);
    let stats = stats_csv(sorted.as_slice());
    Some(RunAggregate { order, stats, totals })
}

/// How many samples the first `f` cores have.
pub open spec fn samples_before(files: Seq<CoreFile>, f: int) -> int
    decreases f,
{
    if f <= 0 {
        0
    } else {
        samples_before(files, f - 1) + files[f - 1].samples@.len()
    }
}

/// More cores never have fewer samples.
proof fn lemma_samples_before(files: Seq<CoreFile>, more: Seq<CoreFile>, f: int)
    requires
        0 <= f <= files.len(),
    ensures
        samples_before(files + more, f) == samples_before(files, f),
        samples_before(files, f) >= 0,
    decreases f,
{
    if f > 0 {
        lemma_samples_before(files, more, f - 1);
    }
}

/// The samples of all cores are all of them, core by core: sample `k` of core `f` comes
/// behind all samples of the cores before it and `k` of its own, with the name of its core
/// and with its time.
pub proof fn law_all_samples_are_merged(files: Seq<CoreFile>, f: int, k: int)
    ensures
        all_rows(files).len() == samples_before(files, files.len() as int),
        all_times(files).len() == samples_before(files, files.len() as int),
        0 <= f < files.len() && 0 <= k < files[f].samples@.len() ==> {
            let at = samples_before(files, f) + k;
            &&& 0 <= at < all_rows(files).len()
            &&& all_rows(files)[at].cpu == files[f].cpu@
            &&& all_rows(files)[at].sample == files[f].samples@[k].row@
            &&& all_times(files)[at] == files[f].samples@[k].elapsed
        },
    decreases files.len(),
{
    if files.len() > 0 {
        let shorter = files.drop_last();
        let top = files.len() - 1;
        assert(shorter + seq![files.last()] =~= files);
        law_all_samples_are_merged(shorter, f, k);
        lemma_samples_before(shorter, seq![files.last()], top);
        lemma_times_match_rows(shorter);
        if 0 <= f < top {
            lemma_samples_before(shorter, seq![files.last()], f);
            assert(files[f] == shorter[f]);
        }
    }
}

/// The rows of the merged file are the samples in the order given: row `j` is the sample
/// that stands at place `j` of the order.
pub proof fn law_merged_rows_follow_the_order(
    rows: Seq<StatsRowView>,
    order: Seq<usize>,
    j: int,
)
    requires
        0 <= j < order.len(),
    ensures
        arranged(rows, order).len() == order.len(),
        arranged(rows, order)[j] == rows[order[j] as int],
{
}

/// A run's executions are those of the last sample of each core, and no others: a core
/// without a sample has none, one core has those of its last sample, and the executions of
/// two groups of cores add up.
pub proof fn law_executions_add_up(file: CoreFile, a: Seq<CoreFile>, b: Seq<CoreFile>)
    ensures
        all_execs(seq![]) == 0,
        file.samples@.len() == 0 ==> all_execs(seq![file]) == 0,
        file.samples@.len() > 0 ==> all_execs(seq![file]) == file.samples@[file.samples@.len()
            - 1].row.execs,
        all_execs(a + b) == all_execs(a) + all_execs(b),
    decreases b.len(),
{
    assert(seq![file].drop_last() =~= seq![]);
    assert(all_execs(seq![file].drop_last()) == 0);
    if b.len() == 0 {
        assert(a + b =~= a);
    } else {
        law_executions_add_up(file, a, b.drop_last());
        assert((a + b).drop_last() =~= a + b.drop_last());
    }
}

/// The totals of a run: no core lasted longer, covered more or had a larger corpus at its
/// last sample, and each of the three is that of a core, or zero.
pub proof fn law_totals_are_the_largest(files: Seq<CoreFile>)
    ensures
        ({
            let totals = all_totals(files);
            &&& totals.final_elapsed >= 0 && totals.max_coverage >= 0
            &&& forall|f: int|
                0 <= f < files.len() && (#[trigger] files[f]).samples@.len() > 0 ==> {
                    let last = files[f].samples@[files[f].samples@.len() - 1];
                    &&& last.elapsed <= totals.final_elapsed
                    &&& last.coverage <= totals.max_coverage
                    &&& last.row.corpus_size <= totals.final_corpus_size
                }
            &&& totals.final_elapsed == 0 || exists|f: int|
                0 <= f < files.len() && (#[trigger] files[f]).samples@.len() > 0
                    && files[f].samples@[files[f].samples@.len() - 1].elapsed
                    == totals.final_elapsed
            &&& totals.max_coverage == 0 || exists|f: int|
                0 <= f < files.len() && (#[trigger] files[f]).samples@.len() > 0
                    && files[f].samples@[files[f].samples@.len() - 1].coverage
                    == totals.max_coverage
            &&& totals.final_corpus_size == 0 || exists|f: int|
                0 <= f < files.len() && (#[trigger] files[f]).samples@.len() > 0
                    && files[f].samples@[files[f].samples@.len() - 1].row.corpus_size
                    == totals.final_corpus_size
        }),
    decreases files.len(),
{
    if files.len() > 0 {
        let shorter = files.drop_last();
        let top = files.len() - 1;
        let before = all_totals(shorter);
        let totals = all_totals(files);
        law_totals_are_the_largest(shorter);
        assert(forall|f: int| 0 <= f < top ==> #[trigger] files[f] == shorter[f]);
        assert forall|f: int|
            0 <= f < files.len() && (#[trigger] files[f]).samples@.len() > 0 implies {
            let last = files[f].samples@[files[f].samples@.len() - 1];
            &&& last.elapsed <= totals.final_elapsed
            &&& last.coverage <= totals.max_coverage
            &&& last.row.corpus_size <= totals.final_corpus_size
        } by {
            if f < top {
                assert(shorter[f].samples@.len() > 0);
            }
        }
        if totals.final_elapsed != 0 {
            if totals.final_elapsed == before.final_elapsed {
                let f = choose|f: int|
                    0 <= f < shorter.len() && (#[trigger] shorter[f]).samples@.len() > 0
                        && shorter[f].samples@[shorter[f].samples@.len() - 1].elapsed
                        == before.final_elapsed;
                assert(files[f] == shorter[f]);
            } else {
                assert(files[top].samples@.len() > 0);
            }
        }
        if totals.max_coverage != 0 {
            if totals.max_coverage == before.max_coverage {
                let f = choose|f: int|
                    0 <= f < shorter.len() && (#[trigger] shorter[f]).samples@.len() > 0
                        && shorter[f].samples@[shorter[f].samples@.len() - 1].coverage
                        == before.max_coverage;
                assert(files[f] == shorter[f]);
            } else {
                assert(files[top].samples@.len() > 0);
            }
        }
        if totals.final_corpus_size != 0 {
            if totals.final_corpus_size == before.final_corpus_size {
                let f = choose|f: int|
                    0 <= f < shorter.len() && (#[trigger] shorter[f]).samples@.len() > 0
                        && shorter[f].samples@[shorter[f].samples@.len() - 1].row.corpus_size
                        == before.final_corpus_size;
                assert(files[f] == shorter[f]);
            } else {
                assert(files[top].samples@.len() > 0);
            }
        }
    }
}

} // verus!
