//! The statistics a fuzzer keeps of itself while it is benchmarked.
//!
//! Times are nanoseconds on a clock that only goes forward.

use super::csv::{bench_file, sample_text, terminated, BenchRowView, BENCH_HEADER};
use super::text::texts;
use vstd::prelude::*;

verus! {

/// The longest time the clock can show, and the longest interval: what whole
/// seconds in 64 bits and a fraction of one come to.
pub const MAX_NANOS: u128 = 18_446_744_073_709_551_615_999_999_999;

/// Coverage over time: the highest value seen at each place of the map. A map of
/// another size starts over.
pub open spec fn merged_map(union: Seq<u8>, map: Seq<u8>) -> Seq<u8> {
    Seq::new(
        map.len(),
        |i: int|
            if union.len() == map.len() && union[i] > map[i] {
                union[i]
            } else {
                map[i]
            },
    )
}

/// How many places of a map differ from the value that stands for no coverage.
pub open spec fn covered_places(map: Seq<u8>, initial: u8) -> nat
    decreases map.len(),
{
    if map.len() == 0 {
        0
    } else {
        covered_places(map.drop_last(), initial) + if map.last() != initial {
            1nat
        } else {
            0
        }
    }
}

/// Merges a map into the union of the maps before it.
pub fn merge_map(union: &mut Vec<u8>, map: &[u8])
    ensures
        final(union)@ == merged_map(old(union)@, map@),
{
    let ghost before = union@;
    let start_over = union.len() != map.len();
    if start_over {
        union.clear();
        while union.len() < map.len()
            invariant
                union@.len() <= map@.len(),
                forall|i: int| 0 <= i < union@.len() ==> #[trigger] union@[i] == 0,
            decreases map@.len() - union@.len(),
        {
            union.push(0);
        }
    }
    let ghost base = union@;
    let mut i: usize = 0;
    while i < map.len()
        invariant
            i <= map@.len(),
            base.len() == map@.len(),
            start_over == (before.len() != map@.len()),
            start_over ==> forall|j: int| 0 <= j < base.len() ==> #[trigger] base[j] == 0,
            !start_over ==> base == before,
            union@.len() == map@.len(),
            forall|j: int| i <= j < union@.len() ==> #[trigger] union@[j] == base[j],
            forall|j: int|
                0 <= j < i ==> #[trigger] union@[j] == merged_map(before, map@)[j],
        decreases map@.len() - i,
    {
        if map[i] > union[i] {
            union[i] = map[i];
        }
        i += 1;
    }
    assert(union@ =~= merged_map(before, map@));
}

/// Counts the places of a map that are covered.
pub fn count_covered(map: &Vec<u8>, initial: u8) -> (r: usize)
    ensures
        r == covered_places(map@, initial),
        r <= map@.len(),
{
    let mut r: usize = 0;
    let mut i: usize = 0;
    while i < map.len()
        invariant
            i <= map@.len(),
            r <= i,
            r == covered_places(map@.take(i as int), initial),
        decreases map@.len() - i,
    {
        assert(map@.take(i + 1).drop_last() =~= map@.take(i as int));
        if map[i] != initial {
            r += 1;
        }
        i += 1;
    }
    assert(map@.take(i as int) =~= map@);
    r
}

/// What a sample is made of.
#[derive(Clone, Copy, Debug, PartialEq, Eq, Structural)]
pub struct Tick {
    /// The time since the start.
    pub elapsed: u128,
    /// The time since the sample before.
    pub since_last: u128,
    /// The places of the union map that are covered.
    pub covered: usize,
    /// The size of the map.
    pub map_len: usize,
    /// The executions so far.
    pub total_execs: u64,
    /// The executions since the sample before.
    pub new_execs: u64,
}

/// Collects the statistics of one core.
#[derive(Clone, Debug)]
pub struct BenchStatsStage {
    cpu_id: u32,
    initialised: i128,
    last_update: i128,
    update_interval: i128,
    last_execs: u64,
    last_corpus_count: usize,
    last_solution_count: usize,
    union_map: Vec<u8>,
    csv_header_written: bool,
}

/// The model of a [`BenchStatsStage`].
#[verifier::ext_equal]
pub struct BenchStatsView {
    pub cpu_id: u32,
    pub initialised: int,
    pub last_update: int,
    pub update_interval: int,
    pub last_execs: u64,
    pub last_corpus_count: usize,
    pub last_solution_count: usize,
    pub union_map: Seq<u8>,
    pub csv_header_written: bool,
}

impl View for BenchStatsStage {
    type V = BenchStatsView;

    closed spec fn view(&self) -> BenchStatsView {
        BenchStatsView {
            cpu_id: self.cpu_id,
            initialised: self.initialised as int,
            last_update: self.last_update as int,
            update_interval: self.update_interval as int,
            last_execs: self.last_execs,
            last_corpus_count: self.last_corpus_count,
            last_solution_count: self.last_solution_count,
            union_map: self.union_map@,
            csv_header_written: self.csv_header_written,
        }
    }
}

impl BenchStatsView {
    /// The stage's invariant: its times are times of the clock. The time of the
    /// sample before may lie up to two intervals before the clock's start.
    pub open spec fn wf(self) -> bool {
        &&& 0 <= self.initialised <= MAX_NANOS
        &&& 0 <= self.update_interval <= MAX_NANOS
        &&& -2 * MAX_NANOS <= self.last_update <= MAX_NANOS
    }

    /// Whether a sample is due.
    pub open spec fn due(self, now: int) -> bool {
        now >= self.last_update + self.update_interval
    }
}

impl BenchStatsStage {
    /// A stage that starts now. Its first sample is due at once.
    pub fn new(cpu_id: u32, update_interval: u128, now: u128) -> (r: Self)
        requires
            update_interval <= MAX_NANOS,
            now <= MAX_NANOS,
        ensures
            r@.wf(),
            r@ == (BenchStatsView {
                cpu_id,
                initialised: now as int,
                last_update: now - 2 * update_interval,
                update_interval: update_interval as int,
                last_execs: 0,
                last_corpus_count: 0,
                last_solution_count: 0,
                union_map: seq![],
                csv_header_written: false,
            }),
    {
        let r = BenchStatsStage {
            cpu_id,
            initialised: now as i128,
            last_update: now as i128 - 2 * (update_interval as i128),
            update_interval: update_interval as i128,
            last_execs: 0,
            last_corpus_count: 0,
            last_solution_count: 0,
            union_map: Vec::new(),
            csv_header_written: false,
        };
        assert(r@.union_map =~= seq![]);
        r
    }

    /// Whether a sample is due.
    pub fn is_due(&self, now: u128) -> (r: bool)
        requires
            self@.wf(),
            now <= MAX_NANOS,
        ensures
            r == self@.due(now as int),
    {
        now as i128 >= self.last_update + self.update_interval
    }

    /// Takes a sample if one is due: merges the coverage map, in which `initial`
    /// stands for no coverage, and remembers the executions so far.
    pub fn update(&mut self, now: u128, map: &[u8], initial: u8, total_execs: u64) -> (r: Option<
        Tick,
    >)
        requires
            old(self)@.wf(),
            now <= MAX_NANOS,
        ensures
            final(self)@.wf(),
            r is Some <==> old(self)@.due(now as int),
            r is None ==> final(self)@ == old(self)@,
            r matches Some(tick) ==> {
                let union_map = merged_map(old(self)@.union_map, map@);
                &&& final(self)@ == (BenchStatsView {
                    last_update: now as int,
                    last_execs: total_execs,
                    union_map,
                    ..old(self)@
                })
                &&& tick.elapsed == if now > old(self)@.initialised {
                    now - old(self)@.initialised
                } else {
                    0
                }
                &&& tick.since_last == now - old(self)@.last_update
                &&& tick.covered == covered_places(union_map, initial)
                &&& tick.map_len == map@.len()
                &&& tick.total_execs == total_execs
                &&& tick.new_execs == if total_execs > old(self)@.last_execs {
                    total_execs - old(self)@.last_execs
                } else {
                    0
                }
            },
    {
        if !self.is_due(now) {
            return None;
        }
        let now = now as i128;
        let since_last = (now - self.last_update) as u128;
        self.last_update = now;
        merge_map(&mut self.union_map, map);
        let covered = count_covered(&self.union_map, initial);
        let elapsed = if now > self.initialised {
            (now - self.initialised) as u128
        } else {
            0
        };
        let new_execs = total_execs.saturating_sub(self.last_execs);
        self.last_execs = total_execs;
        Some(Tick { elapsed, since_last, covered, map_len: map.len(), total_execs, new_execs })
    }

    /// The number of the core.
    pub fn cpu_id(&self) -> (r: u32)
        ensures
            r == self@.cpu_id,
    {
        self.cpu_id
    }

    /// The coverage so far.
    pub fn union_map(&self) -> (r: &[u8])
        ensures
            r@ == self@.union_map,
    {
        self.union_map.as_slice()
    }

    /// The header to write before the next sample, if it has not been written.
    pub fn pending_header(&self) -> (r: Option<&'static str>)
        ensures
            self@.csv_header_written ==> r is None,
            !self@.csv_header_written ==> (r matches Some(header) && header@ == BENCH_HEADER@),
    {
        if self.csv_header_written {
            None
        } else {
            Some(BENCH_HEADER)
        }
    }

    /// Remembers that the header has been written.
    pub fn header_written(&mut self)
        ensures
            final(self)@ == (BenchStatsView { csv_header_written: true, ..old(self)@ }),
    {
        self.csv_header_written = true;
    }

    /// The corpus entries to record, now that there are `count`.
    pub fn new_corpus_entries(&self, count: usize) -> (r: (usize, usize))
        ensures
            (r.0 as int, r.1 as int) == fresh_entries(self@.last_corpus_count as int, count as int),
    {
        entries_to_record(self.last_corpus_count, count)
    }

    /// The solutions to record, now that there are `count`.
    pub fn new_solutions(&self, count: usize) -> (r: (usize, usize))
        ensures
            (r.0 as int, r.1 as int) == fresh_entries(
                self@.last_solution_count as int,
                count as int,
            ),
    {
        entries_to_record(self.last_solution_count, count)
    }

    /// Remembers that all entries and solutions have been recorded.
    pub fn mutations_recorded(&mut self, corpus_count: usize, solution_count: usize)
        ensures
            final(self)@ == (BenchStatsView {
                last_corpus_count: corpus_count,
                last_solution_count: solution_count,
                ..old(self)@
            }),
    {
        self.last_corpus_count = corpus_count;
        self.last_solution_count = solution_count;
    }
}

/// The entries to record where `last` have been and there are `count`: from the
/// first number up to the second. None where entries were removed.
pub open spec fn fresh_entries(last: int, count: int) -> (int, int) {
    if count <= last {
        (count, count)
    } else {
        (last, count)
    }
}

/// The entries to record where `last` have been and there are `count`.
fn entries_to_record(last: usize, count: usize) -> (r: (usize, usize))
    ensures
        (r.0 as int, r.1 as int) == fresh_entries(last as int, count as int),
{
    if count <= last {
        (count, count)
    } else {
        (last, count)
    }
}

/// Where an input is kept.
#[derive(Clone, Copy, Debug, PartialEq, Eq, Structural)]
pub enum CorpusKind {
    Corpus,
    Solution,
}

impl CorpusKind {
    /// The kind's name in the records.
    pub fn name(&self) -> (r: &'static str)
        ensures
            *self == CorpusKind::Corpus ==> r@ == "corpus"@,
            *self == CorpusKind::Solution ==> r@ == "solution"@,
    {
        match self {
            CorpusKind::Corpus => "corpus",
            CorpusKind::Solution => "solution",
        }
    }
}

/// The record of the mutations that made an input.
#[derive(Clone, Debug, PartialEq, Eq)]
pub struct MutationRecord {
    pub cpu: u32,
    pub kind: CorpusKind,
    pub corpus_id: usize,
    pub len: usize,
    pub chain: Vec<String>,
}

/// The record of an input whose mutations were logged last to first. The chain of
/// the record is in the order in which they were made.
pub fn mutation_record(cpu: u32, kind: CorpusKind, corpus_id: usize, logged: &[String]) -> (r:
    MutationRecord)
    ensures
        r.cpu == cpu,
        r.kind == kind,
        r.corpus_id == corpus_id,
        r.len == logged@.len(),
        texts(r.chain@) == texts(logged@).reverse(),
{
    let mut chain: Vec<String> = Vec::with_capacity(logged.len());
    let mut i: usize = logged.len();
    while i > 0
        invariant
            i <= logged@.len(),
            chain@.len() == logged@.len() - i,
            forall|j: int|
                0 <= j < chain@.len() ==> (#[trigger] chain@[j])@ == logged@[logged@.len() - 1
                    - j]@,
        decreases i,
    {
        i -= 1;
        chain.push(logged[i].clone());
    }
    assert(texts(chain@) =~= texts(logged@).reverse());
    MutationRecord { cpu, kind, corpus_id, len: chain.len(), chain }
}

/// What a core's file gets for a sample: the header if it is still pending, and the
/// row.
pub open spec fn appended(stage: BenchStatsView, row: BenchRowView) -> Seq<char> {
    (if stage.csv_header_written {
        seq![]
    } else {
        BENCH_HEADER@.push('\n')
    }) + sample_text(row).push('\n')
}

/// What a core's file gets for samples, one after the other. The header is written
/// once the first of them is.
pub open spec fn all_appended(stage: BenchStatsView, rows: Seq<BenchRowView>) -> Seq<char>
    decreases rows.len(),
{
    if rows.len() == 0 {
        seq![]
    } else {
        appended(stage, rows[0]) + all_appended(
            BenchStatsView { csv_header_written: true, ..stage },
            rows.skip(1),
        )
    }
}

/// Lines written behind a first line.
proof fn lemma_terminated_first(line: Seq<char>, rest: Seq<Seq<char>>)
    ensures
        terminated(seq![line] + rest) == line.push('\n') + terminated(rest),
    decreases rest.len(),
{
    let all = seq![line] + rest;
    if rest.len() == 0 {
        assert(all.drop_last() =~= seq![]);
        assert(terminated(all.drop_last()) =~= seq![]);
        assert(terminated(all) =~= line.push('\n') + terminated(rest));
    } else {
        assert(all.drop_last() =~= seq![line] + rest.drop_last());
        lemma_terminated_first(line, rest.drop_last());
        assert(terminated(all) =~= line.push('\n') + terminated(rest));
    }
}

/// Once the header is written, a core's file gets the rows and nothing else.
proof fn lemma_rows_appended(stage: BenchStatsView, rows: Seq<BenchRowView>)
    requires
        stage.csv_header_written,
    ensures
        all_appended(stage, rows) == terminated(
            rows.map_values(|row: BenchRowView| sample_text(row)),
        ),
    decreases rows.len(),
{
    let written = rows.map_values(|row: BenchRowView| sample_text(row));
    if rows.len() > 0 {
        let rest = rows.skip(1).map_values(|row: BenchRowView| sample_text(row));
        lemma_rows_appended(BenchStatsView { csv_header_written: true, ..stage }, rows.skip(1));
        assert(written =~= seq![sample_text(rows[0])] + rest);
        lemma_terminated_first(sample_text(rows[0]), rest);
        assert(all_appended(stage, rows) =~= terminated(written));
    }
}

/// A core's file holds one header and then the rows, in the order in which they were
/// sampled.
pub proof fn law_file_is_a_header_and_rows(stage: BenchStatsView, rows: Seq<BenchRowView>)
    requires
        !stage.csv_header_written,
        rows.len() > 0,
    ensures
        all_appended(stage, rows) == bench_file(rows),
{
    let written = rows.map_values(|row: BenchRowView| sample_text(row));
    let rest = rows.skip(1).map_values(|row: BenchRowView| sample_text(row));
    lemma_rows_appended(BenchStatsView { csv_header_written: true, ..stage }, rows.skip(1));
    assert(written =~= seq![sample_text(rows[0])] + rest);
    lemma_terminated_first(sample_text(rows[0]), rest);
    lemma_terminated_first(BENCH_HEADER@, written);
    assert(all_appended(stage, rows) =~= bench_file(rows));
}

/// Coverage is never lost: at every place the union is at least what it was and at
/// least what was merged.
pub proof fn law_union_map_grows(union: Seq<u8>, map: Seq<u8>, i: int)
    requires
        union.len() == map.len(),
        0 <= i < map.len(),
    ensures
        merged_map(union, map)[i] >= union[i],
        merged_map(union, map)[i] >= map[i],
        merged_map(union, map)[i] == union[i] || merged_map(union, map)[i] == map[i],
{
}

/// To merge a map again changes nothing, and the order of two maps does not
/// matter.
pub proof fn law_union_map_is_a_union(union: Seq<u8>, a: Seq<u8>, b: Seq<u8>)
    requires
        union.len() == a.len(),
        a.len() == b.len(),
    ensures
        merged_map(merged_map(union, a), a) == merged_map(union, a),
        merged_map(merged_map(union, a), b) == merged_map(merged_map(union, b), a),
{
    assert(merged_map(merged_map(union, a), a) =~= merged_map(union, a));
    assert(merged_map(merged_map(union, a), b) =~= merged_map(merged_map(union, b), a));
}

/// Where zero stands for no coverage, the number of covered places never falls,
/// and it never exceeds the size of the map.
pub proof fn law_coverage_never_falls(union: Seq<u8>, map: Seq<u8>)
    requires
        union.len() == map.len(),
    ensures
        covered_places(union, 0) <= covered_places(merged_map(union, map), 0) <= map.len(),
    decreases map.len(),
{
    if map.len() > 0 {
        law_coverage_never_falls(union.drop_last(), map.drop_last());
        assert(merged_map(union, map).drop_last() =~= merged_map(
            union.drop_last(),
            map.drop_last(),
        ));
    }
}

/// Every entry is recorded once while the corpus grows: what is recorded at one
/// time ends where what is recorded at the next time starts.
pub proof fn law_entries_are_recorded_once(last: int, count: int, next: int)
    requires
        last <= count <= next,
    ensures
        fresh_entries(last, count).0 == last,
        fresh_entries(last, count).1 == fresh_entries(count, next).0,
        fresh_entries(count, next).1 == next,
{
}

/// A stage is due as soon as it starts, and after a sample not before the interval
/// has passed.
pub proof fn law_samples_keep_their_distance(stage: BenchStatsView, now: int, later: int)
    requires
        stage.wf(),
    ensures
        stage.last_update == stage.initialised - 2 * stage.update_interval ==> stage.due(
            stage.initialised,
        ),
        (BenchStatsView { last_update: now, ..stage }).due(later) <==> later - now
            >= stage.update_interval,
{
}

/// A map of another size starts over: nothing is left of the union before it.
pub proof fn law_maps_of_another_size_start_over(union: Seq<u8>, map: Seq<u8>)
    ensures
        merged_map(union, map).len() == map.len(),
        union.len() != map.len() ==> merged_map(union, map) == map,
{
    if union.len() != map.len() {
        assert(merged_map(union, map) =~= map);
    }
}

/// The places of a map that are covered are those that differ from the initial value:
/// each place counts by itself, and the places of two maps count together.
pub proof fn law_covered_places_are_counted(byte: u8, initial: u8, a: Seq<u8>, b: Seq<u8>)
    ensures
        covered_places(seq![], initial) == 0,
        byte == initial ==> covered_places(seq![byte], initial) == 0,
        byte != initial ==> covered_places(seq![byte], initial) == 1,
        covered_places(a + b, initial) == covered_places(a, initial) + covered_places(b, initial),
    decreases b.len(),
{
    assert(seq![byte].drop_last() =~= seq![]);
    assert(covered_places(seq![byte].drop_last(), initial) == 0);
    if b.len() == 0 {
        assert(a + b =~= a);
    } else {
        law_covered_places_are_counted(byte, initial, a, b.drop_last());
        assert((a + b).drop_last() =~= a + b.drop_last());
    }
}

/// What is recorded of a corpus is what came behind what was recorded before: an entry is
/// recorded exactly if it is there and was not recorded, and nothing is where entries were
/// removed.
pub proof fn law_new_entries_are_recorded(last: int, count: int, entry: int)
    requires
        0 <= last,
        0 <= count,
    ensures
        fresh_entries(last, count).0 <= entry < fresh_entries(last, count).1 <==> last <= entry
            < count,
        fresh_entries(last, count).1 == count,
        0 <= fresh_entries(last, count).0 <= fresh_entries(last, count).1,
{
}

} // verus!
