//! Benchmark suites: the configuration, the runs, and the process each run
//! watches over.

use super::text::{
    all_digits, chars_of, decimal, digits_value, law_decimal_reads_back, law_decimals_are_short,
    parse_number, push_decimal, trim, trimmed,
};
use vstd::prelude::*;

verus! {

/// The fuzzer that a suite runs unless it names another.
pub const DEFAULT_FUZZER_PATH: &'static str = "target/release/fuzzamoto-libafl";

/// The configuration of a suite.
#[derive(Clone, Debug, PartialEq, Eq)]
pub struct BenchmarkConfig {
    /// How long a run takes, in seconds.
    pub duration: u64,
    pub runs: usize,
    pub cores: String,
    pub timeout_ms: u64,
    pub share_dir: String,
    pub corpus_seed: String,
    pub fuzzer_path: Option<String>,
    pub bench_snapshot_secs: u64,
}

/// The timeout of a suite that gives none.
pub fn default_timeout_ms() -> (r: u64)
    ensures
        r == 1_000,
{
    1_000
}

/// The snapshot interval of a suite that gives none.
pub fn default_bench_snapshot_secs() -> (r: u64)
    ensures
        r == 30,
{
    30
}

/// What is wrong with a configuration.
#[derive(Clone, Copy, Debug, PartialEq, Eq, Structural)]
pub enum ConfigError {
    NoRuns,
    NoDuration,
}

impl ConfigError {
    /// The message for the user.
    pub fn message(&self) -> (r: &'static str)
        ensures
            *self == ConfigError::NoRuns ==> r@ == "runs must be greater than zero"@,
            *self == ConfigError::NoDuration ==> r@ == "duration must be greater than zero"@,
    {
        match self {
            ConfigError::NoRuns => "runs must be greater than zero",
            ConfigError::NoDuration => "duration must be greater than zero",
        }
    }
}

impl BenchmarkConfig {
    /// Checks that the suite makes at least one run, and that a run takes time.
    pub fn check(&self) -> (r: Result<(), ConfigError>)
        ensures
            self.runs == 0 ==> r == Err::<(), ConfigError>(ConfigError::NoRuns),
            self.runs > 0 && self.duration == 0 ==> r == Err::<(), ConfigError>(
                ConfigError::NoDuration,
            ),
            self.runs > 0 && self.duration > 0 ==> r is Ok,
    {
        if self.runs == 0 {
            return Err(ConfigError::NoRuns);
        }
        if self.duration == 0 {
            return Err(ConfigError::NoDuration);
        }
        Ok(())
    }

    /// The fuzzer to run.
    pub fn fuzzer(&self) -> (r: String)
        ensures
            self.fuzzer_path matches Some(path) ==> r@ == path@,
            self.fuzzer_path is None ==> r@ == DEFAULT_FUZZER_PATH@,
    {
        match &self.fuzzer_path {
            Some(path) => path.clone(),
            None => DEFAULT_FUZZER_PATH.to_owned(),
        }
    }
}

/// An argument of the fuzzer: a text, or one of the directories of the run.
#[derive(Clone, Debug, PartialEq, Eq)]
pub enum FuzzerArg<T = String> {
    Text(T),
    InputDir,
    OutputDir,
}

impl View for FuzzerArg {
    type V = FuzzerArg<Seq<char>>;

    open spec fn view(&self) -> FuzzerArg<Seq<char>> {
        match *self {
            FuzzerArg::Text(text) => FuzzerArg::Text(text@),
            FuzzerArg::InputDir => FuzzerArg::InputDir,
            FuzzerArg::OutputDir => FuzzerArg::OutputDir,
        }
    }
}

/// The models of a list of arguments.
pub open spec fn arg_views(args: Seq<FuzzerArg>) -> Seq<FuzzerArg<Seq<char>>> {
    args.map_values(|arg: FuzzerArg| arg@)
}

/// The command line of the fuzzer.
pub open spec fn fuzzer_args_of(config: BenchmarkConfig) -> Seq<FuzzerArg<Seq<char>>> {
    seq![
        FuzzerArg::Text("--input"@),
        FuzzerArg::InputDir,
        FuzzerArg::Text("--output"@),
        FuzzerArg::OutputDir,
        FuzzerArg::Text("--share"@),
        FuzzerArg::Text(config.share_dir@),
        FuzzerArg::Text("--cores"@),
        FuzzerArg::Text(config.cores@),
        FuzzerArg::Text("--timeout"@),
        FuzzerArg::Text(decimal(config.timeout_ms as nat)),
        FuzzerArg::Text("--bench-snapshot-secs"@),
        FuzzerArg::Text(decimal(config.bench_snapshot_secs as nat)),
    ]
}

/// A number as a text.
fn number_text(n: u64) -> (r: String)
    ensures
        r@ == decimal(n as nat),
{
    let mut r = String::new();
    push_decimal(&mut r, n as u128);
    assert(r@ =~= decimal(n as nat));
    r
}

/// The command line of the fuzzer.
pub fn fuzzer_args(config: &BenchmarkConfig) -> (r: Vec<FuzzerArg>)
    ensures
        arg_views(r@) == fuzzer_args_of(*config),
{
    let r = vec![
        FuzzerArg::Text("--input".to_owned()),
        FuzzerArg::InputDir,
        FuzzerArg::Text("--output".to_owned()),
        FuzzerArg::OutputDir,
        FuzzerArg::Text("--share".to_owned()),
        FuzzerArg::Text(config.share_dir.clone()),
        FuzzerArg::Text("--cores".to_owned()),
        FuzzerArg::Text(config.cores.clone()),
        FuzzerArg::Text("--timeout".to_owned()),
        FuzzerArg::Text(number_text(config.timeout_ms)),
        FuzzerArg::Text("--bench-snapshot-secs".to_owned()),
        FuzzerArg::Text(number_text(config.bench_snapshot_secs)),
    ];
    assert(arg_views(r@) =~= fuzzer_args_of(*config));
    r
}

// The runs.

/// What a suite does next.
#[derive(Clone, Copy, Debug, PartialEq, Eq, Structural)]
pub enum SuiteStep {
    /// Make the run with this number.
    Run(usize),
    /// Aggregate the runs.
    Aggregate,
}

/// What a suite of `runs` runs does after `completed` of them.
pub fn suite_step(runs: usize, completed: usize) -> (r: SuiteStep)
    ensures
        completed < runs ==> r == SuiteStep::Run(completed),
        completed >= runs ==> r == SuiteStep::Aggregate,
{
    if completed < runs {
        SuiteStep::Run(completed)
    } else {
        SuiteStep::Aggregate
    }
}

/// A number with at least two digits.
pub open spec fn two_digits(n: nat) -> Seq<char> {
    if n < 10 {
        seq!['0'] + decimal(n)
    } else {
        decimal(n)
    }
}

/// The name of a run's directory.
pub open spec fn run_dir(n: nat) -> Seq<char> {
    "run_"@ + two_digits(n)
}

/// The name of the directory of run `run_idx`.
pub fn run_dir_name(run_idx: usize) -> (r: String)
    ensures
        r@ == run_dir(run_idx as nat),
{
    let mut r = String::new();
    r.append("run_");
    if run_idx < 10 {
        r.push('0');
    }
    push_decimal(&mut r, run_idx as u128);
    assert(r@ =~= run_dir(run_idx as nat));
    r
}

/// Whether a name is one of a run's directory.
pub open spec fn names_run(name: Seq<char>) -> bool {
    name.len() >= 4 && name.take(4) == "run_"@
}

/// Whether `name` is one of a run's directory.
pub fn is_run_name(name: &str) -> (r: bool)
    ensures
        r == names_run(name@),
{
    let chars = chars_of(name);
    proof {
        reveal_strlit("run_");
    }
    if chars.len() < 4 {
        return false;
    }
    let r = chars[0] == 'r' && chars[1] == 'u' && chars[2] == 'n' && chars[3] == '_';
    proof {
        if r {
            assert(name@.take(4) =~= "run_"@);
        } else if name@.take(4) == "run_"@ {
            assert(name@.take(4)[0] == 'r');
            assert(name@.take(4)[1] == 'u');
            assert(name@.take(4)[2] == 'n');
            assert(name@.take(4)[3] == '_');
        }
    }
    r
}

/// An entry of a suite's directory. The name is missing where it is no text.
#[derive(Clone, Debug, PartialEq, Eq)]
pub struct SuiteEntry {
    pub name: Option<String>,
    pub is_dir: bool,
}

impl SuiteEntry {
    /// Whether the entry is a run's directory.
    pub open spec fn is_run(self) -> bool {
        self.is_dir && (self.name matches Some(name) && names_run(name@))
    }
}

/// The number of entries that are a run's directory.
pub open spec fn runs_in(entries: Seq<SuiteEntry>) -> nat
    decreases entries.len(),
{
    if entries.len() == 0 {
        0
    } else {
        runs_in(entries.drop_last()) + if entries.last().is_run() {
            1nat
        } else {
            0
        }
    }
}

/// Counts the entries that are a run's directory.
pub fn count_run_dirs(entries: &[SuiteEntry]) -> (r: usize)
    ensures
        r == runs_in(entries@),
{
    let mut runs: usize = 0;
    let mut i: usize = 0;
    while i < entries.len()
        invariant
            i <= entries@.len(),
            runs == runs_in(entries@.take(i as int)),
            runs <= i,
        decreases entries@.len() - i,
    {
        proof {
            assert(entries@.take(i + 1).drop_last() =~= entries@.take(i as int));
        }
        let named = match &entries[i].name {
            Some(name) => is_run_name(name.as_str()),
            None => false,
        };
        if named && entries[i].is_dir {
            runs += 1;
        }
        i += 1;
    }
    assert(entries@.take(i as int) =~= entries@);
    runs
}

/// The name of a run's directory is recognised as one.
pub proof fn law_run_dir_is_recognised(n: nat)
    ensures
        names_run(run_dir(n)),
{
    reveal_strlit("run_");
    assert(run_dir(n).take(4) =~= "run_"@);
}

/// The value of two-digit numbers is the number.
proof fn lemma_two_digits_value(n: nat)
    ensures
        digits_value(two_digits(n)) == n,
{
    law_decimal_reads_back(n);
    let s = two_digits(n);
    if n < 10 {
        assert(s =~= seq!['0', decimal(n)[0]]);
        assert(s.drop_last() =~= seq!['0']);
        assert(s.drop_last().drop_last() =~= seq![]);
        assert(digits_value(seq![]) == 0);
        assert(digits_value(seq!['0']) == 0);
        assert(decimal(n) =~= seq![s.last()]);
        assert(decimal(n).drop_last() =~= seq![]);
    } else {
        assert(all_digits(s));
        assert(s[0] != '+');
    }
}

/// Different runs have different directories.
pub proof fn law_run_dirs_are_distinct(a: nat, b: nat)
    requires
        run_dir(a) == run_dir(b),
    ensures
        a == b,
{
    reveal_strlit("run_");
    lemma_two_digits_value(a);
    lemma_two_digits_value(b);
    assert(run_dir(a).skip(4) =~= two_digits(a));
    assert(run_dir(b).skip(4) =~= two_digits(b));
}

/// A directory that holds the directories of the runs `0` to `entries.len()`
/// counts that many runs.
pub proof fn law_suite_counts_its_runs(entries: Seq<SuiteEntry>)
    requires
        forall|i: int|
            0 <= i < entries.len() ==> (#[trigger] entries[i]).is_dir && (
            entries[i].name matches Some(name) && name@ == run_dir(i as nat)),
    ensures
        runs_in(entries) == entries.len(),
    decreases entries.len(),
{
    if entries.len() > 0 {
        law_suite_counts_its_runs(entries.drop_last());
        law_run_dir_is_recognised((entries.len() - 1) as nat);
    }
}

// The process of a run.

/// What to do about the fuzzer.
#[derive(Clone, Copy, Debug, PartialEq, Eq, Structural)]
pub enum PollAction {
    /// It is done.
    Finish,
    /// Its time is up.
    Terminate,
    /// Look again later.
    Wait,
}

/// What to do about a fuzzer that has or has not exited, `elapsed_secs` whole
/// seconds into a run of `duration` seconds.
pub fn poll_action(exited: bool, elapsed_secs: u64, duration: u64) -> (r: PollAction)
    ensures
        exited ==> r == PollAction::Finish,
        !exited && elapsed_secs >= duration ==> r == PollAction::Terminate,
        !exited && elapsed_secs < duration ==> r == PollAction::Wait,
{
    if exited {
        PollAction::Finish
    } else if elapsed_secs >= duration {
        PollAction::Terminate
    } else {
        PollAction::Wait
    }
}

/// What a signal goes to.
#[derive(Clone, Copy, Debug, PartialEq, Eq, Structural)]
pub enum KillTarget {
    Group(i32),
    Process(i32),
}

/// What to signal in order to end a process: its group if that is known.
pub fn kill_target(pid: i32, pgid: Option<i32>) -> (r: KillTarget)
    ensures
        r == match pgid {
            Some(pgid) => KillTarget::Group(pgid),
            None => KillTarget::Process(pid),
        },
{
    match pgid {
        Some(pgid) => KillTarget::Group(pgid),
        None => KillTarget::Process(pid),
    }
}

/// The steps in which a process is ended.
#[derive(Clone, Copy, Debug, PartialEq, Eq, Structural)]
pub enum KillStep {
    /// Ask it to end.
    Terminate,
    /// Give it two seconds, then look whether it still runs.
    Grace,
    /// Force it to end.
    Kill,
    /// Wait for its end.
    Reap,
    /// It has ended.
    Done,
}

/// The step behind `step`. `still_running` matters behind the grace only: a
/// process that has ended is not killed.
pub open spec fn kill_step_after(step: KillStep, still_running: bool) -> KillStep {
    match step {
        KillStep::Terminate => KillStep::Grace,
        KillStep::Grace => if still_running {
            KillStep::Kill
        } else {
            KillStep::Reap
        },
        KillStep::Kill => KillStep::Reap,
        KillStep::Reap => KillStep::Done,
        KillStep::Done => KillStep::Done,
    }
}

/// The step behind `step`.
pub fn next_kill_step(step: KillStep, still_running: bool) -> (r: KillStep)
    ensures
        r == kill_step_after(step, still_running),
{
    match step {
        KillStep::Terminate => KillStep::Grace,
        KillStep::Grace => if still_running {
            KillStep::Kill
        } else {
            KillStep::Reap
        },
        KillStep::Kill => KillStep::Reap,
        KillStep::Reap => KillStep::Done,
        KillStep::Done => KillStep::Done,
    }
}

/// A process is asked to end and given its grace before it is killed, it is killed
/// only if it still runs then, and it is always waited for.
pub proof fn law_kill_is_graceful(still_running: bool, later: bool)
    ensures
        kill_step_after(KillStep::Terminate, later) == KillStep::Grace,
        kill_step_after(KillStep::Grace, still_running) == KillStep::Kill <==> still_running,
        ({
            let s = kill_step_after(KillStep::Grace, still_running);
            s == KillStep::Reap || kill_step_after(s, later) == KillStep::Reap
        }),
        kill_step_after(KillStep::Reap, later) == KillStep::Done,
        forall|step: KillStep, running: bool|
            kill_step_after(step, running) == KillStep::Kill ==> step == KillStep::Grace && running,
{
}

/// What to do with an entry of a directory that is copied.
#[derive(Clone, Copy, Debug, PartialEq, Eq, Structural)]
pub enum CopyAction {
    Descend,
    Copy,
    Skip,
}

/// What to do with an entry of a directory that is copied.
pub fn copy_action(is_dir: bool, is_file: bool) -> (r: CopyAction)
    ensures
        is_dir ==> r == CopyAction::Descend,
        !is_dir && is_file ==> r == CopyAction::Copy,
        !is_dir && !is_file ==> r == CopyAction::Skip,
{
    if is_dir {
        CopyAction::Descend
    } else if is_file {
        CopyAction::Copy
    } else {
        CopyAction::Skip
    }
}

/// The commit that a version control command reported: what it printed, trimmed,
/// if it succeeded and printed text.
pub fn reported_commit(success: bool, stdout: Option<&str>) -> (r: Option<String>)
    ensures
        r is Some <==> success && stdout is Some,
        r matches Some(commit) ==> commit@ == trimmed(stdout->0@),
{
    if !success {
        return None;
    }
    match stdout {
        Some(text) => Some(trim(text)),
        None => None,
    }
}

/// The name under which a core's file is merged: the stem of the file, or `bench`
/// where that is no text.
pub fn core_name(file_stem: Option<&str>) -> (r: String)
    ensures
        file_stem matches Some(stem) ==> r@ == stem@,
        file_stem is None ==> r@ == "bench"@,
{
    match file_stem {
        Some(stem) => stem.to_owned(),
        None => "bench".to_owned(),
    }
}

/// The label of one side of a comparison: the name of its directory, or `fallback`
/// where that is no text.
pub fn comparison_label(dir_name: Option<&str>, fallback: &str) -> (r: String)
    ensures
        dir_name matches Some(name) ==> r@ == name@,
        dir_name is None ==> r@ == fallback@,
{
    match dir_name {
        Some(name) => name.to_owned(),
        None => fallback.to_owned(),
    }
}

/// What is compared, as charts name it.
pub fn comparison_mode(suite_level: bool) -> (r: &'static str)
    ensures
        suite_level ==> r@ == "suite"@,
        !suite_level ==> r@ == "run"@,
{
    if suite_level {
        "suite"
    } else {
        "run"
    }
}

/// Whether place `i` of a command line gives `value` to the option `flag`. Options and
/// values take turns.
pub open spec fn option_at(
    args: Seq<FuzzerArg<Seq<char>>>,
    i: int,
    flag: Seq<char>,
    value: FuzzerArg<Seq<char>>,
) -> bool {
    &&& 0 <= i && i + 1 < args.len()
    &&& i % 2 == 0
    &&& args[i] == FuzzerArg::Text(flag)
    &&& args[i + 1] == value
}

/// Whether a command line gives `value` to the option `flag`.
pub open spec fn gives_option(
    args: Seq<FuzzerArg<Seq<char>>>,
    flag: Seq<char>,
    value: FuzzerArg<Seq<char>>,
) -> bool {
    exists|i: int| option_at(args, i, flag, value)
}

/// The fuzzer is told where the run's directories are and what the suite configures: the
/// options for the timeout and the snapshot interval have values that read back as the
/// configured numbers. There is no other option.
pub proof fn law_fuzzer_is_told_the_configuration(config: BenchmarkConfig)
    ensures
        ({
            let args = fuzzer_args_of(config);
            &&& gives_option(args, "--input"@, FuzzerArg::InputDir)
            &&& gives_option(args, "--output"@, FuzzerArg::OutputDir)
            &&& gives_option(args, "--share"@, FuzzerArg::Text(config.share_dir@))
            &&& gives_option(args, "--cores"@, FuzzerArg::Text(config.cores@))
            &&& exists|text: Seq<char>|
                #[trigger] gives_option(args, "--timeout"@, FuzzerArg::Text(text)) && parse_number(
                    text,
                ) == Some(config.timeout_ms as nat)
            &&& exists|text: Seq<char>|
                #[trigger] gives_option(args, "--bench-snapshot-secs"@, FuzzerArg::Text(text))
                    && parse_number(text) == Some(config.bench_snapshot_secs as nat)
            &&& args.len() == 2 * 6
        }),
{
    let args = fuzzer_args_of(config);
    law_decimal_reads_back(config.timeout_ms as nat);
    law_decimal_reads_back(config.bench_snapshot_secs as nat);
    let timeout = FuzzerArg::Text(decimal(config.timeout_ms as nat));
    let secs = FuzzerArg::Text(decimal(config.bench_snapshot_secs as nat));
    assert(option_at(args, 0, "--input"@, FuzzerArg::InputDir));
    assert(option_at(args, 2, "--output"@, FuzzerArg::OutputDir));
    assert(option_at(args, 4, "--share"@, FuzzerArg::Text(config.share_dir@)));
    assert(option_at(args, 6, "--cores"@, FuzzerArg::Text(config.cores@)));
    assert(option_at(args, 8, "--timeout"@, timeout));
    assert(option_at(args, 10, "--bench-snapshot-secs"@, secs));
    assert(gives_option(
        args,
        "--timeout"@,
        FuzzerArg::Text(decimal(config.timeout_ms as nat)),
    ));
    assert(gives_option(
        args,
        "--bench-snapshot-secs"@,
        FuzzerArg::Text(decimal(config.bench_snapshot_secs as nat)),
    ));
}

/// Suites that differ in what the fuzzer is configured with start it with different
/// command lines; what else they differ in does not matter to the command line.
pub proof fn law_command_lines_tell_suites_apart(a: BenchmarkConfig, b: BenchmarkConfig)
    ensures
        fuzzer_args_of(a) == fuzzer_args_of(b) <==> {
            &&& a.timeout_ms == b.timeout_ms
            &&& a.bench_snapshot_secs == b.bench_snapshot_secs
            &&& a.cores@ == b.cores@
            &&& a.share_dir@ == b.share_dir@
        },
{
    let x = fuzzer_args_of(a);
    let y = fuzzer_args_of(b);
    law_decimal_reads_back(a.timeout_ms as nat);
    law_decimal_reads_back(b.timeout_ms as nat);
    law_decimal_reads_back(a.bench_snapshot_secs as nat);
    law_decimal_reads_back(b.bench_snapshot_secs as nat);
    if x == y {
        assert(x[5] == y[5] && x[7] == y[7] && x[9] == y[9] && x[11] == y[11]);
    } else if a.timeout_ms == b.timeout_ms && a.bench_snapshot_secs == b.bench_snapshot_secs
        && a.cores@ == b.cores@ && a.share_dir@ == b.share_dir@ {
        assert(x =~= y);
    }
}

/// The name of a run's directory is `run_` and the number of the run, in at least two
/// digits.
pub proof fn law_run_dir_reads_back(n: nat)
    ensures
        run_dir(n).take(4) == "run_"@,
        parse_number(run_dir(n).skip(4)) == Some(n),
        run_dir(n).len() >= 6,
        n >= 10 ==> run_dir(n)[4] != '0',
{
    reveal_strlit("run_");
    lemma_two_digits_value(n);
    law_decimal_reads_back(n);
    assert(run_dir(n).take(4) =~= "run_"@);
    assert(run_dir(n).skip(4) =~= two_digits(n));
    assert(all_digits(two_digits(n)));
    law_decimals_are_short(n);
    if n >= 10 {
        law_decimal_reads_back(n / 10);
    }
}

/// The names of runs are those that start with `run_`.
pub proof fn law_names_of_runs(name: Seq<char>)
    ensures
        names_run(name) <==> exists|rest: Seq<char>| name == "run_"@ + rest,
{
    reveal_strlit("run_");
    if names_run(name) {
        assert(name =~= "run_"@ + name.skip(4));
    }
    if exists|rest: Seq<char>| name == "run_"@ + rest {
        let rest = choose|rest: Seq<char>| name == "run_"@ + rest;
        assert(name.take(4) =~= "run_"@);
    }
}

/// The runs of a suite are the directories whose name starts with `run_`: each entry
/// counts by itself, and the entries of two lists count together.
pub proof fn law_runs_are_counted(entry: SuiteEntry, a: Seq<SuiteEntry>, b: Seq<SuiteEntry>)
    ensures
        runs_in(seq![entry]) <= 1,
        runs_in(seq![entry]) == 1 <==> entry.is_dir && entry.name is Some && exists|
            rest: Seq<char>,
        | entry.name->0@ == "run_"@ + rest,
        runs_in(a + b) == runs_in(a) + runs_in(b),
    decreases b.len(),
{
    assert(seq![entry].drop_last() =~= seq![]);
    assert(runs_in(seq![entry].drop_last()) == 0);
    if entry.name is Some {
        law_names_of_runs(entry.name->0@);
    }
    if b.len() == 0 {
        assert(a + b =~= a);
    } else {
        law_runs_are_counted(entry, a, b.drop_last());
        assert((a + b).drop_last() =~= a + b.drop_last());
    }
}

/// Arguments with the same model are the same argument.
pub proof fn law_arguments_have_models_of_their_own(a: FuzzerArg, b: FuzzerArg)
    ensures
        a@ == b@ <==> match (a, b) {
            (FuzzerArg::Text(x), FuzzerArg::Text(y)) => x@ == y@,
            (FuzzerArg::InputDir, FuzzerArg::InputDir) => true,
            (FuzzerArg::OutputDir, FuzzerArg::OutputDir) => true,
            _ => false,
        },
{
}

} // verus!
