//! The benchmark commands.

use std::path::PathBuf;
use vstd::prelude::*;

verus! {

/// A path. Nothing is known of what it holds.
#[verifier::external_type_specification]
#[verifier::external_body]
pub struct ExPathBuf(PathBuf);

/// What a user can ask for.
#[derive(Debug)]
pub enum BenchmarkCommands {
    /// Run a benchmark suite sequentially.
    Run { suite: PathBuf, output: PathBuf, html: bool },
    /// Compare two benchmark run directories and report deltas.
    Compare {
        baseline: PathBuf,
        candidate: PathBuf,
        output: Option<PathBuf>,
        suite: bool,
        html: bool,
    },
}

/// The work that a command stands for.
pub enum BenchmarkTask<'a> {
    /// Make the runs of the suite and aggregate them.
    RunSuite { suite: &'a PathBuf, output: &'a PathBuf, write_html: bool },
    /// Compare two runs, or two suites.
    CompareRuns {
        baseline_dir: &'a PathBuf,
        candidate_dir: &'a PathBuf,
        output: Option<&'a PathBuf>,
        suite_level: bool,
        write_html: bool,
    },
}

/// The entry point of the benchmark commands.
pub struct BenchmarkCommand;

impl BenchmarkCommand {
    /// The work to do for a command.
    pub fn execute(cmd: &BenchmarkCommands) -> (r: BenchmarkTask<'_>)
        ensures
            match *cmd {
                BenchmarkCommands::Run { suite, output, html } => r == (BenchmarkTask::RunSuite {
                    suite: &suite,
                    output: &output,
                    write_html: html,
                }),
                BenchmarkCommands::Compare { baseline, candidate, output, suite, html } => r == (
                BenchmarkTask::CompareRuns {
                    baseline_dir: &baseline,
                    candidate_dir: &candidate,
                    output: match output {
                        Some(path) => Some(&path),
                        None => None,
                    },
                    suite_level: suite,
                    write_html: html,
                }),
            },
    {
        match cmd {
            BenchmarkCommands::Run { suite, output, html } => BenchmarkTask::RunSuite {
                suite,
                output,
                write_html: *html,
            },
            BenchmarkCommands::Compare { baseline, candidate, output, suite, html } => {
                BenchmarkTask::CompareRuns {
                    baseline_dir: baseline,
                    candidate_dir: candidate,
                    output: output.as_ref(),
                    suite_level: *suite,
                    write_html: *html,
                }
            },
        }
    }
}

} // verus!
