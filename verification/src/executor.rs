//! The process executor and the time-limit monitor: the command of one run,
//! what a run leaves behind, and how a run that ended, or a deadline that
//! passed first, is turned into a result and a status.

use vstd::prelude::*;
use vstd::string::StringExecFns;
use crate::compiler::{EngineError, Failure};
use crate::text::texts;

verus! {

/// How one program is run on one test case: `feeder` is started with the
/// input file as its only argument, and what it writes is piped into the
/// standard input of `program`, which is started with `args`.
#[derive(Debug)]
pub struct RunCommand {
    pub feeder: String,
    pub input: String,
    pub program: String,
    pub args: Vec<String>,
}

/// What one run left behind.
#[derive(Debug)]
pub struct ExecutionResult {
    pub stdout: String,
    pub stderr: String,
    pub elapsed_ms: u64,
    pub timed_out: bool,
}

/// An `ExecutionResult` as plain text and numbers.
pub ghost struct RunRecord {
    pub stdout: Seq<char>,
    pub stderr: Seq<char>,
    pub elapsed_ms: u64,
    pub timed_out: bool,
}

impl View for ExecutionResult {
    type V = RunRecord;

    open spec fn view(&self) -> RunRecord {
        RunRecord {
            stdout: self.stdout@,
            stderr: self.stderr@,
            elapsed_ms: self.elapsed_ms,
            timed_out: self.timed_out,
        }
    }
}

/// How a run ended.
#[derive(Clone, Copy, Debug, PartialEq, Eq, Structural)]
pub enum Status {
    /// Within the time limit, with nothing on the error stream.
    Done,
    /// The time limit was passed.
    Tle,
    /// The program wrote to its error stream.
    RuntimeError,
}

/// What the harness hears of a run it waits for.
#[derive(Debug)]
pub enum RunEvent {
    /// The program ended, `elapsed_ms` after it was started.
    Exited { stdout: String, stderr: String, elapsed_ms: u64 },
    /// The time limit passed and the program has not ended.
    DeadlinePassed,
}

/// A `RunEvent` as plain text and numbers.
pub ghost enum RunSignal {
    Exited { stdout: Seq<char>, stderr: Seq<char>, elapsed_ms: u64 },
    DeadlinePassed,
}

impl View for RunEvent {
    type V = RunSignal;

    open spec fn view(&self) -> RunSignal {
        match self {
            RunEvent::Exited { stdout, stderr, elapsed_ms } => RunSignal::Exited {
                stdout: stdout@,
                stderr: stderr@,
                elapsed_ms: *elapsed_ms,
            },
            RunEvent::DeadlinePassed => RunSignal::DeadlinePassed,
        }
    }
}

/// The status of a run from the two facts that decide it: a run that wrote
/// to its error stream is a runtime error whatever its time; a clean run is
/// done within the limit and timed out beyond it.
pub open spec fn classified(within_limit: bool, clean: bool) -> Status {
    if !clean {
        Status::RuntimeError
    } else if within_limit {
        Status::Done
    } else {
        Status::Tle
    }
}

impl RunRecord {
    /// The status of the run that left this record.
    pub open spec fn status(self) -> Status {
        classified(!self.timed_out, self.stderr.len() == 0)
    }
}

/// The record that `signal` settles under the limit `limit_ms`. A program
/// that ended keeps its streams and its time where it wrote to the error
/// stream or ended within the limit. A clean run beyond the limit, and a
/// deadline that passed, leave a timed-out record without output: the first
/// with the time measured, the second with the limit as its time.
pub open spec fn settled_by(limit_ms: u64, signal: RunSignal) -> RunRecord {
    match signal {
        RunSignal::Exited { stdout, stderr, elapsed_ms } => {
            if stderr.len() > 0 || elapsed_ms <= limit_ms {
                RunRecord { stdout, stderr, elapsed_ms, timed_out: elapsed_ms > limit_ms }
            } else {
                RunRecord {
                    stdout: Seq::empty(),
                    stderr: Seq::empty(),
                    elapsed_ms,
                    timed_out: true,
                }
            }
        },
        RunSignal::DeadlinePassed => RunRecord {
            stdout: Seq::empty(),
            stderr: Seq::empty(),
            elapsed_ms: limit_ms,
            timed_out: true,
        },
    }
}

/// The command that runs the binary at `binary_path` on the test case at
/// `input_path`: `cat` feeds the input, and the program is handed `<` and
/// the input path as its arguments.
pub fn run_command(binary_path: &str, input_path: &str) -> (command: RunCommand)
    ensures
        command.feeder@ == "cat"@,
        command.input@ == input_path@,
        command.program@ == binary_path@,
        texts(command.args@) == seq!["<"@, input_path@],
{
    let mut args: Vec<String> = Vec::new();
    args.push(String::from_str("<"));
    args.push(String::from_str(input_path));
    assert(texts(args@) =~= seq!["<"@, input_path@]);
    RunCommand {
        feeder: String::from_str("cat"),
        input: String::from_str(input_path),
        program: String::from_str(binary_path),
        args,
    }
}

/// The status of a run, from whether it stayed within the limit and whether
/// its error stream stayed empty.
pub fn classify(within_limit: bool, clean: bool) -> (status: Status)
    ensures
        status == classified(within_limit, clean),
{
    if !clean {
        Status::RuntimeError
    } else if within_limit {
        Status::Done
    } else {
        Status::Tle
    }
}

/// Turns what was heard of a run into its result, under the limit
/// `limit_ms`.
pub fn settle(limit_ms: u64, event: RunEvent) -> (result: ExecutionResult)
    ensures
        result@ == settled_by(limit_ms, event@),
{
    match event {
        RunEvent::Exited { stdout, stderr, elapsed_ms } => {
            if !stderr.as_str().is_empty() || elapsed_ms <= limit_ms {
                ExecutionResult { stdout, stderr, elapsed_ms, timed_out: elapsed_ms > limit_ms }
            } else {
                ExecutionResult {
                    stdout: String::new(),
                    stderr: String::new(),
                    elapsed_ms,
                    timed_out: true,
                }
            }
        },
        RunEvent::DeadlinePassed => ExecutionResult {
            stdout: String::new(),
            stderr: String::new(),
            elapsed_ms: limit_ms,
            timed_out: true,
        },
    }
}

impl ExecutionResult {
    /// How the run ended.
    pub fn status(&self) -> (status: Status)
        ensures
            status == self@.status(),
    {
        classify(!self.timed_out, self.stderr.as_str().is_empty())
    }

    /// The result of a run that did not fail, or the runtime error of the
    /// program whose source is `program`, with what it wrote to its error
    /// stream.
    pub fn checked(self, program: &str) -> (checked: Result<ExecutionResult, EngineError>)
        ensures
            checked is Err <==> self@.status() == Status::RuntimeError,
            checked is Ok ==> checked->Ok_0@ == self@,
            checked is Err ==> checked->Err_0@ == (Failure::RuntimeError {
                program: program@,
                diagnostics: self.stderr@,
            }),
    {
        if self.stderr.as_str().is_empty() {
            Ok(self)
        } else {
            Err(EngineError::RuntimeError {
                    program: String::from_str(program),
                    diagnostics: self.stderr,
                })
        }
    }
}

/// The status of a settled run depends on two facts alone: whether the
/// program ended within the limit, and whether its error stream stayed empty.
/// A deadline that passed first is a run beyond the limit with an empty error
/// stream.
pub proof fn lemma_status_of_settled(limit_ms: u64, signal: RunSignal)
    ensures
        signal is Exited ==> settled_by(limit_ms, signal).status() == classified(
            signal->elapsed_ms <= limit_ms,
            signal->stderr.len() == 0,
        ),
        signal is DeadlinePassed ==> settled_by(limit_ms, signal).status() == Status::Tle,
{
}

/// A run is done only within the limit and with an empty error stream, timed
/// out only beyond the limit and with an empty error stream, and a runtime
/// error exactly where the error stream is not empty.
pub proof fn lemma_classified_cases(within_limit: bool, clean: bool)
    ensures
        classified(within_limit, clean) == Status::Done <==> within_limit && clean,
        classified(within_limit, clean) == Status::Tle <==> !within_limit && clean,
        classified(within_limit, clean) == Status::RuntimeError <==> !clean,
{
}

/// A run that timed out without a runtime error has stored no output.
pub proof fn lemma_timed_out_is_empty(limit_ms: u64, signal: RunSignal)
    requires
        settled_by(limit_ms, signal).status() == Status::Tle,
    ensures
        settled_by(limit_ms, signal).stdout.len() == 0,
        settled_by(limit_ms, signal).timed_out,
{
}

} // verus!
