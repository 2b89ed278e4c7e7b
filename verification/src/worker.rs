//! One worker per program and test case: its plan, the steps it goes
//! through from compiling to a settled outcome, and what it reports.
//!
//! A worker does nothing by itself. The caller performs the action that a
//! step hands out and comes back with the event that followed.

use vstd::prelude::*;
use vstd::string::StringExecFns;
use crate::compiler::{
    binary_name_of, binary_path, binary_path_of, compile, compile_args, lemma_binaries_differ,
    nth_id, numbered_binary_name, random_id, worker_id, CompileCommand, EngineError, Failure,
};
use crate::executor::{
    run_command, settle, settled_by, ExecutionResult, RunCommand, RunEvent, RunRecord, RunSignal,
    Status,
};
use crate::fileio::{ExecutionSettings, SettingsClass};
use crate::paths::{
    file_name, file_name_of, file_name_start, is_single_name, join, joined,
    lemma_extension_under_join, lemma_joined_splits, lemma_last_index_of, parent, parent_of,
    with_extension, with_extension_of,
};
use crate::print_console::{diagnostic, Hue, PrintError};
use crate::report::{dump, dump_text, progress_line, progress_text};
use crate::text::{decimal, texts};

verus! {

/// Everything one worker needs to know before it starts.
#[derive(Debug)]
pub struct WorkerPlan {
    /// The name of the program variant, as shown in progress lines.
    pub label: String,
    /// The source file of the program.
    pub source: String,
    /// How the source is compiled.
    pub compile: CompileCommand,
    /// How the binary is run on the test case.
    pub run: RunCommand,
    /// Where the output of the run is stored.
    pub output_path: String,
    /// The wall-clock budget of the run, in milliseconds.
    pub limit_ms: u64,
}

/// The source file of the program variant `label` under `root`.
pub open spec fn source_of(root: Seq<char>, label: Seq<char>) -> Seq<char> {
    joined(root, label + ".cpp"@)
}

/// Where the variant `label` stores its output for the test case `testcase`:
/// under `cpstt_out/<label>/` in `base`, named after the input file, with the
/// extension `ext`.
pub open spec fn output_path_of(
    base: Seq<char>,
    label: Seq<char>,
    testcase: Seq<char>,
    ext: Seq<char>,
) -> Seq<char> {
    with_extension_of(joined(joined(base, "cpstt_out/"@ + label), file_name_of(testcase)), ext)
}

/// Whether `plan` is the plan of the variant `label` under `root` for the
/// test case `testcase`, with the binary called `binary`. Binary and output
/// lie under the directory of the source.
pub open spec fn plans(
    plan: WorkerPlan,
    root: Seq<char>,
    label: Seq<char>,
    testcase: Seq<char>,
    binary: Seq<char>,
    settings: ExecutionSettings,
) -> bool {
    let source = source_of(root, label);
    let base = parent_of(source);
    &&& plan.label@ == label
    &&& plan.source@ == source
    &&& plan.compile.program@ == "g++"@
    &&& texts(plan.compile.args@) == compile_args(source, binary)
    &&& plan.compile.working_dir@ == base
    &&& plan.run.feeder@ == "cat"@
    &&& plan.run.input@ == testcase
    &&& plan.run.program@ == binary_path_of(base, binary)
    &&& texts(plan.run.args@) == seq!["<"@, testcase]
    &&& plan.output_path@ == output_path_of(base, label, testcase, settings.bin_extension@)
    &&& plan.limit_ms == settings.time_limit
}

/// Under a root directory that is not empty and does not end in `/`, the
/// plan of a variant whose label holds no `/` works in the root itself: the
/// source lies there, the toolchain is started there, and the binary lies
/// under `cpstt_out/bin/` there.
pub proof fn lemma_plan_lies_under_root(
    plan: WorkerPlan,
    root: Seq<char>,
    label: Seq<char>,
    testcase: Seq<char>,
    binary: Seq<char>,
    settings: ExecutionSettings,
)
    requires
        plans(plan, root, label, testcase, binary, settings),
        root.len() > 0,
        root.last() != '/',
        is_single_name(label),
    ensures
        plan.source@ == root + "/"@ + label + ".cpp"@,
        plan.compile.working_dir@ == root,
        plan.run.program@ == root + "/cpstt_out/bin/"@ + binary,
{
    reveal_strlit("/");
    reveal_strlit(".cpp");
    let name = label + ".cpp"@;
    assert forall|i: int| 0 <= i < name.len() implies name[i] != '/' by {
        if i < label.len() {
            assert(name[i] == label[i]);
        }
    }
    lemma_joined_splits(root, name);
    assert(joined(root, name) =~= root + "/"@ + label + ".cpp"@);
}

/// The output of a test case is stored under the name of its input file
/// with the configured extension in place of its own, in the directory of
/// the variant: for a directory `base` that is not empty and does not end in
/// `/`, a label that is not empty and ends in no `/`, and a test case whose
/// path does not end in `/`.
pub proof fn lemma_output_is_named_after_input(
    base: Seq<char>,
    label: Seq<char>,
    testcase: Seq<char>,
    ext: Seq<char>,
)
    requires
        base.len() > 0,
        base.last() != '/',
        label.len() > 0,
        label.last() != '/',
        file_name_of(testcase).len() > 0,
    ensures
        output_path_of(base, label, testcase, ext) == base + "/cpstt_out/"@ + label + "/"@
            + with_extension_of(file_name_of(testcase), ext),
{
    reveal_strlit("/");
    reveal_strlit("/cpstt_out/");
    reveal_strlit("cpstt_out/");
    let name = file_name_of(testcase);
    let dir = joined(base, "cpstt_out/"@ + label);
    assert(dir =~= base + "/cpstt_out/"@ + label);
    assert(dir.last() == label.last());
    lemma_last_index_of(testcase, '/');
    assert forall|i: int| 0 <= i < name.len() implies name[i] != '/' by {
        assert(name[i] == testcase[file_name_start(testcase) + i]);
    }
    lemma_extension_under_join(dir, name, ext);
    assert(joined(dir, with_extension_of(name, ext)) =~= base + "/cpstt_out/"@ + label + "/"@
        + with_extension_of(name, ext));
}

/// Where the variant `label` stores its output for the test case at
/// `testcase`, under the directory `base`.
pub fn output_path(base: &str, label: &str, testcase: &str, extension: &str) -> (path: String)
    ensures
        path@ == output_path_of(base@, label@, testcase@, extension@),
{
    let mut variant_dir = String::from_str("cpstt_out/");
    variant_dir.append(label);
    let stored = join(
        join(base, variant_dir.as_str()).as_str(),
        file_name(testcase).as_str(),
    );
    with_extension(stored.as_str(), extension)
}

/// The plan of the variant `label` under `root` for the test case
/// `testcase`, with the binary called `binary`.
pub fn plan_worker(
    root: &str,
    label: &str,
    testcase: &str,
    binary: &str,
    settings: &ExecutionSettings,
) -> (plan: WorkerPlan)
    ensures
        plans(plan, root@, label@, testcase@, binary@, *settings),
{
    let mut source_name = String::from_str(label);
    source_name.append(".cpp");
    let source = join(root, source_name.as_str());
    let base = parent(source.as_str());
    let command = compile(source.as_str(), binary);
    let program = binary_path(base.as_str(), binary);
    let run = run_command(program.as_str(), testcase);
    let output_path = output_path(
        base.as_str(),
        label,
        testcase,
        settings.bin_extension.as_str(),
    );
    WorkerPlan {
        label: String::from_str(label),
        source,
        compile: command,
        run,
        output_path,
        limit_ms: settings.time_limit,
    }
}

/// Where a worker stands.
#[derive(Debug)]
pub enum WorkerState {
    /// Nothing has been asked for yet.
    Created,
    /// The toolchain is at work.
    Compiling,
    /// The binary runs on the test case.
    Running,
    /// The toolchain wrote diagnostics; nothing was run.
    Failed { diagnostics: String },
    /// The run is over, or was ended at the deadline.
    Finished(ExecutionResult),
}

/// A `WorkerState` as plain text and numbers.
pub ghost enum Stage {
    Created,
    Compiling,
    Running,
    Failed { diagnostics: Seq<char> },
    Finished(RunRecord),
}

impl View for WorkerState {
    type V = Stage;

    open spec fn view(&self) -> Stage {
        match self {
            WorkerState::Created => Stage::Created,
            WorkerState::Compiling => Stage::Compiling,
            WorkerState::Running => Stage::Running,
            WorkerState::Failed { diagnostics } => Stage::Failed { diagnostics: diagnostics@ },
            WorkerState::Finished(result) => Stage::Finished(result@),
        }
    }
}

/// What the caller tells a worker.
#[derive(Debug)]
pub enum WorkerEvent {
    /// The worker may begin.
    Started,
    /// The toolchain ended and wrote `diagnostics` to its error stream.
    Compiled { diagnostics: String },
    /// News of the run.
    Run(RunEvent),
}

/// A `WorkerEvent` as plain text and numbers.
pub ghost enum Signal {
    Started,
    Compiled { diagnostics: Seq<char> },
    Run(RunSignal),
}

impl View for WorkerEvent {
    type V = Signal;

    open spec fn view(&self) -> Signal {
        match self {
            WorkerEvent::Started => Signal::Started,
            WorkerEvent::Compiled { diagnostics } => Signal::Compiled { diagnostics: diagnostics@ },
            WorkerEvent::Run(event) => Signal::Run(event@),
        }
    }
}

/// What the caller does next for a worker.
#[derive(Clone, Copy, Debug, PartialEq, Eq, Structural)]
pub enum WorkerAction {
    /// Perform the compile command of the plan, then report `Compiled`.
    Compile,
    /// Start the run command of the plan and wait for the program to end or
    /// for the time limit to pass, whichever is first; report that.
    Run,
    /// Terminate the process group of the run, then report the outcome.
    Terminate,
    /// Report the outcome; no process of this worker is left.
    Report,
    /// Nothing: the event changes nothing.
    Nothing,
}

/// Whether a worker at `stage` has its outcome.
pub open spec fn is_settled(stage: Stage) -> bool {
    stage is Failed || stage is Finished
}

/// The stage that follows `stage` on `signal`, under the limit `limit_ms`.
/// A signal that the stage does not wait for changes nothing; a settled
/// stage waits for none.
pub open spec fn next_stage(limit_ms: u64, stage: Stage, signal: Signal) -> Stage {
    match (stage, signal) {
        (Stage::Created, Signal::Started) => Stage::Compiling,
        (Stage::Compiling, Signal::Compiled { diagnostics }) => {
            if diagnostics.len() == 0 {
                Stage::Running
            } else {
                Stage::Failed { diagnostics }
            }
        },
        (Stage::Running, Signal::Run(news)) => Stage::Finished(settled_by(limit_ms, news)),
        _ => stage,
    }
}

/// The action that a worker at `stage` hands out on `signal`.
pub open spec fn action_on(stage: Stage, signal: Signal) -> WorkerAction {
    match (stage, signal) {
        (Stage::Created, Signal::Started) => WorkerAction::Compile,
        (Stage::Compiling, Signal::Compiled { diagnostics }) => {
            if diagnostics.len() == 0 {
                WorkerAction::Run
            } else {
                WorkerAction::Report
            }
        },
        (Stage::Running, Signal::Run(news)) => {
            if news is DeadlinePassed {
                WorkerAction::Terminate
            } else {
                WorkerAction::Report
            }
        },
        _ => WorkerAction::Nothing,
    }
}

/// The stage that a worker at `stage` reaches once it has taken all of
/// `signals`, in order.
pub open spec fn stage_after(limit_ms: u64, stage: Stage, signals: Seq<Signal>) -> Stage
    decreases signals.len(),
{
    if signals.len() == 0 {
        stage
    } else {
        stage_after(limit_ms, next_stage(limit_ms, stage, signals[0]), signals.skip(1))
    }
}

/// A settled worker stays as it is: whatever it is told later, its outcome
/// is not replaced and nothing is asked of the caller. So a program that
/// ends after its deadline does not change what was settled at the deadline.
pub proof fn lemma_settled_stays(limit_ms: u64, stage: Stage, signals: Seq<Signal>)
    requires
        is_settled(stage),
    ensures
        stage_after(limit_ms, stage, signals) == stage,
        forall|i: int|
            0 <= i < signals.len() ==> action_on(
                stage_after(limit_ms, stage, signals.take(i)),
                #[trigger] signals[i],
            ) == WorkerAction::Nothing,
    decreases signals.len(),
{
    if signals.len() > 0 {
        assert(next_stage(limit_ms, stage, signals[0]) == stage);
        lemma_settled_stays(limit_ms, stage, signals.skip(1));
        assert forall|i: int| 0 <= i < signals.len() implies action_on(
            stage_after(limit_ms, stage, signals.take(i)),
            #[trigger] signals[i],
        ) == WorkerAction::Nothing by {
            lemma_settled_stays(limit_ms, stage, signals.take(i));
        }
    }
}

/// The binary is started on one occasion only: when the toolchain has ended
/// without diagnostics. The process group is terminated on one occasion
/// only: when the deadline passes while the binary runs.
pub proof fn lemma_when_run_and_terminate(stage: Stage, signal: Signal)
    ensures
        action_on(stage, signal) == WorkerAction::Run <==> stage is Compiling && signal is Compiled
            && signal->Compiled_diagnostics.len() == 0,
        action_on(stage, signal) == WorkerAction::Terminate <==> stage is Running && signal is Run
            && signal->Run_0 is DeadlinePassed,
        action_on(stage, signal) == WorkerAction::Compile <==> stage is Created
            && signal is Started,
{
}

/// A worker whose source does not compile never runs its test case: once
/// the toolchain has written diagnostics the worker is settled with them,
/// and no later event makes it ask for anything.
pub proof fn lemma_compile_error_runs_nothing(
    limit_ms: u64,
    diagnostics: Seq<char>,
    later: Seq<Signal>,
)
    requires
        diagnostics.len() > 0,
    ensures
        stage_after(
            limit_ms,
            Stage::Created,
            seq![Signal::Started, Signal::Compiled { diagnostics }] + later,
        ) == (Stage::Failed { diagnostics }),
        forall|i: int|
            0 <= i < later.len() ==> action_on(
                stage_after(limit_ms, Stage::Failed { diagnostics }, later.take(i)),
                #[trigger] later[i],
            ) == WorkerAction::Nothing,
{
    let failed = Stage::Failed { diagnostics };
    let all = seq![Signal::Started, Signal::Compiled { diagnostics }] + later;
    assert(all[0] == Signal::Started);
    assert(all.skip(1)[0] == Signal::Compiled { diagnostics });
    assert(all.skip(1).skip(1) =~= later);
    lemma_settled_stays(limit_ms, failed, later);
    assert(stage_after(limit_ms, Stage::Created, all) == stage_after(
        limit_ms,
        Stage::Compiling,
        all.skip(1),
    ));
    assert(stage_after(limit_ms, Stage::Compiling, all.skip(1)) == stage_after(
        limit_ms,
        failed,
        later,
    ));
}

/// The first news of the run settles the worker: after a clean compilation
/// the outcome is what that news settles under the limit, whatever follows.
pub proof fn lemma_first_news_settles(limit_ms: u64, news: RunSignal, later: Seq<Signal>)
    ensures
        stage_after(
            limit_ms,
            Stage::Created,
            seq![
                Signal::Started,
                Signal::Compiled { diagnostics: Seq::empty() },
                Signal::Run(news),
            ] + later,
        ) == Stage::Finished(settled_by(limit_ms, news)),
{
    let all = seq![
        Signal::Started,
        Signal::Compiled { diagnostics: Seq::empty() },
        Signal::Run(news),
    ] + later;
    assert(all[0] == Signal::Started);
    assert(all.skip(1)[0] == Signal::Compiled { diagnostics: Seq::<char>::empty() });
    assert(all.skip(1).skip(1)[0] == Signal::Run(news));
    assert(all.skip(1).skip(1).skip(1) =~= later);
    lemma_settled_stays(limit_ms, Stage::Finished(settled_by(limit_ms, news)), later);
    assert(stage_after(limit_ms, Stage::Created, all) == stage_after(
        limit_ms,
        Stage::Compiling,
        all.skip(1),
    ));
    assert(stage_after(limit_ms, Stage::Compiling, all.skip(1)) == stage_after(
        limit_ms,
        Stage::Running,
        all.skip(1).skip(1),
    ));
    assert(stage_after(limit_ms, Stage::Running, all.skip(1).skip(1)) == stage_after(
        limit_ms,
        Stage::Finished(settled_by(limit_ms, news)),
        later,
    ));
}

/// A worker: its plan and where it stands.
#[derive(Debug)]
pub struct Worker {
    pub plan: WorkerPlan,
    pub state: WorkerState,
}

impl Worker {
    /// A worker that has not begun.
    pub fn new(plan: WorkerPlan) -> (worker: Worker)
        ensures
            worker.plan == plan,
            worker.state@ == Stage::Created,
    {
        Worker { plan, state: WorkerState::Created }
    }

    /// Takes one event: the worker moves to the stage that follows and says
    /// what the caller does next. The plan is never changed.
    pub fn step(self, event: WorkerEvent) -> (next: (Worker, WorkerAction))
        ensures
            next.0.plan == self.plan,
            next.0.state@ == next_stage(self.plan.limit_ms, self.state@, event@),
            next.1 == action_on(self.state@, event@),
    {
        let Worker { plan, state } = self;
        match (state, event) {
            (WorkerState::Created, WorkerEvent::Started) => {
                (Worker { plan, state: WorkerState::Compiling }, WorkerAction::Compile)
            },
            (WorkerState::Compiling, WorkerEvent::Compiled { diagnostics }) => {
                if diagnostics.as_str().is_empty() {
                    (Worker { plan, state: WorkerState::Running }, WorkerAction::Run)
                } else {
                    (
                        Worker { plan, state: WorkerState::Failed { diagnostics } },
                        WorkerAction::Report,
                    )
                }
            },
            (WorkerState::Running, WorkerEvent::Run(news)) => {
                let action = match news {
                    RunEvent::DeadlinePassed => WorkerAction::Terminate,
                    RunEvent::Exited { .. } => WorkerAction::Report,
                };
                let result = settle(plan.limit_ms, news);
                (Worker { plan, state: WorkerState::Finished(result) }, action)
            },
            (state, _) => (Worker { plan, state }, WorkerAction::Nothing),
        }
    }

    /// Takes the worker apart into its plan and its outcome: the result of
    /// its run, or the error that kept it from one. A worker that is not
    /// settled has no outcome.
    pub fn finish(self) -> (parts: (WorkerPlan, Option<Result<ExecutionResult, EngineError>>))
        ensures
            parts.0 == self.plan,
            viewed(parts.1) == outcome_of(self.state@, self.plan.source@),
    {
        let Worker { plan, state } = self;
        let outcome = match state {
            WorkerState::Failed { diagnostics } => Some(
                Err(EngineError::CompileError { diagnostics }),
            ),
            WorkerState::Finished(result) => Some(result.checked(plan.source.as_str())),
            _ => None,
        };
        (plan, outcome)
    }
}

/// An outcome as plain text and numbers.
pub open spec fn plain(outcome: Result<ExecutionResult, EngineError>) -> Result<
    RunRecord,
    Failure,
> {
    match outcome {
        Ok(result) => Ok(result@),
        Err(error) => Err(error@),
    }
}

/// The outcome of a worker, if it has one, as plain text and numbers.
pub open spec fn viewed(outcome: Option<Result<ExecutionResult, EngineError>>) -> Option<
    Result<RunRecord, Failure>,
> {
    match outcome {
        Some(settled) => Some(plain(settled)),
        None => None,
    }
}

/// The outcome of a worker at `stage` whose program has the source `source`:
/// a compile error where the toolchain wrote diagnostics, a runtime error
/// where the program wrote to its error stream, the record of the run
/// otherwise, and none before the worker is settled.
pub open spec fn outcome_of(stage: Stage, source: Seq<char>) -> Option<Result<RunRecord, Failure>> {
    match stage {
        Stage::Failed { diagnostics } => Some(Err(Failure::CompileError { diagnostics })),
        Stage::Finished(record) => {
            if record.status() == Status::RuntimeError {
                Some(Err(Failure::RuntimeError { program: source, diagnostics: record.stderr }))
            } else {
                Some(Ok(record))
            }
        },
        _ => None,
    }
}

/// Whether an outcome counts against the whole run: the program did not
/// compile, wrote to its error stream, or passed its time limit.
pub open spec fn counts_as_failure(outcome: Result<RunRecord, Failure>) -> bool {
    match outcome {
        Ok(record) => record.timed_out,
        Err(_) => true,
    }
}

/// Whether `outcome` counts against the whole run.
pub fn is_failure(outcome: &Result<ExecutionResult, EngineError>) -> (failed: bool)
    ensures
        failed == counts_as_failure(plain(*outcome)),
{
    match outcome {
        Ok(result) => result.timed_out,
        Err(_) => true,
    }
}

/// Whether every worker of a sweep has its outcome, so that the next stage
/// may begin.
pub fn sweep_is_over(workers: &Vec<Worker>) -> (over: bool)
    ensures
        over <==> forall|i: int| 0 <= i < workers.len() ==> is_settled(#[trigger] workers[i].state@),
{
    let mut i: usize = 0;
    while i < workers.len()
        invariant
            i <= workers.len(),
            forall|k: int| 0 <= k < i ==> is_settled(#[trigger] workers[k].state@),
        decreases workers.len() - i,
    {
        let settled = match &workers[i].state {
            WorkerState::Failed { .. } => true,
            WorkerState::Finished(_) => true,
            _ => false,
        };
        if !settled {
            assert(!is_settled(workers[i as int].state@));
            return false;
        }
        i += 1;
    }
    true
}

/// What a worker hands over once its run has a result: a line for the
/// console, the output to show after it where the settings ask for that,
/// and the file to store the output in.
#[derive(Debug)]
pub struct RunReport {
    pub progress: String,
    pub dump: Option<String>,
    pub output_path: String,
    pub content: String,
}

/// The report of the run that left `result`, for the worker on the test case
/// at `index`, counted from 0, once `finished` of the `total` runs of the
/// sweep are over. What is stored is the standard output of the run.
pub fn report_run(
    plan: &WorkerPlan,
    result: &ExecutionResult,
    index: usize,
    finished: usize,
    total: usize,
    settings: &SettingsClass,
) -> (report: RunReport)
    ensures
        report.progress@ == progress_text(
            plan.label@,
            (index + 1) as nat,
            finished as nat,
            total as nat,
            result.timed_out,
            result.elapsed_ms as nat,
        ),
        report.dump is Some <==> settings.logging.dump_exe_result,
        report.dump is Some ==> report.dump->0@ == dump_text(result.stdout@, settings.execution),
        report.output_path@ == plan.output_path@,
        report.content@ == result.stdout@,
{
    let progress = progress_line(
        plan.label.as_str(),
        index,
        finished,
        total,
        result.timed_out,
        result.elapsed_ms,
    );
    let shown = if settings.logging.dump_exe_result {
        Some(dump(result.stdout.as_str(), &settings.execution))
    } else {
        None
    };
    RunReport {
        progress,
        dump: shown,
        output_path: plan.output_path.clone(),
        content: result.stdout.clone(),
    }
}

/// What the notice of `failure` says.
pub open spec fn failure_text(failure: Failure) -> Seq<char> {
    match failure {
        Failure::CompileError { .. } => "It seems compile error"@,
        Failure::RuntimeError { program, .. } => {
            if program.len() == 0 {
                "It seems execution error"@
            } else {
                "It seems execution error ["@ + program + "]"@
            }
        },
    }
}

/// The notice that follows the diagnostics of a failed program on the error
/// channel.
pub fn failure_notice(error: &EngineError) -> (notice: PrintError)
    ensures
        notice.line@ == diagnostic(Hue::Red, "Error"@, failure_text(error@)),
{
    match error {
        EngineError::CompileError { .. } => PrintError::print_error(
            String::from_str("It seems compile error"),
        ),
        EngineError::RuntimeError { program, .. } => {
            if program.as_str().is_empty() {
                PrintError::print_error(String::from_str("It seems execution error"))
            } else {
                let mut text = String::from_str("It seems execution error [");
                text.append(program.as_str());
                text.append("]");
                PrintError::print_error(text)
            }
        },
    }
}

/// Whether `workers` are the workers of the sweep that drew `seed`: one for
/// each of `testcases`, in their order, none of which has begun, each planned
/// for the variant `label` under `root` with the binary named by the numeral
/// of its number and the configured extension.
pub open spec fn sweeps(
    workers: Seq<Worker>,
    seed: u32,
    root: Seq<char>,
    testcases: Seq<Seq<char>>,
    label: Seq<char>,
    settings: ExecutionSettings,
) -> bool {
    &&& workers.len() == testcases.len()
    &&& forall|i: int|
        0 <= i < workers.len() ==> (#[trigger] workers[i]).state@ == Stage::Created && plans(
            workers[i].plan,
            root,
            label,
            testcases[i],
            binary_name_of(decimal(worker_id(seed, i as nat) as nat), settings.bin_extension@),
            settings,
        )
}

/// No two workers of a sweep compile into the same file, whatever seed was
/// drawn, as long as fewer than 2^32 positions lie between them and the
/// configured extension holds no `/`.
pub proof fn lemma_sweep_binaries_differ(
    workers: Seq<Worker>,
    seed: u32,
    root: Seq<char>,
    testcases: Seq<Seq<char>>,
    label: Seq<char>,
    settings: ExecutionSettings,
    i: int,
    j: int,
)
    requires
        sweeps(workers, seed, root, testcases, label, settings),
        0 <= i < j < workers.len(),
        j - i < 0x1_0000_0000,
        is_single_name(settings.bin_extension@),
    ensures
        workers[i].plan.run.program@ != workers[j].plan.run.program@,
{
    let ext = settings.bin_extension@;
    let first = binary_name_of(decimal(worker_id(seed, i as nat) as nat), ext);
    let second = binary_name_of(decimal(worker_id(seed, j as nat) as nat), ext);
    lemma_binaries_differ(seed, i as nat, j as nat, ext);
    let dir = parent_of(source_of(root, label)) + "/cpstt_out/bin/"@;
    assert(workers[i].plan.run.program@ == dir + first);
    assert(workers[j].plan.run.program@ == dir + second);
    if dir + first == dir + second {
        assert((dir + first).subrange(dir.len() as int, (dir + first).len() as int) =~= first);
        assert((dir + second).subrange(dir.len() as int, (dir + second).len() as int)
            =~= second);
    }
}

/// The workers of the sweep that drew `seed`, for the variant `program_type`
/// under `program_path`.
pub fn plan_sweep(
    seed: u32,
    program_path: &str,
    testcase_paths: &Vec<String>,
    program_type: &str,
    settings: &ExecutionSettings,
) -> (workers: Vec<Worker>)
    ensures
        sweeps(workers@, seed, program_path@, texts(testcase_paths@), program_type@, *settings),
{
    let mut workers: Vec<Worker> = Vec::new();
    let mut i: usize = 0;
    while i < testcase_paths.len()
        invariant
            i <= testcase_paths.len(),
            workers.len() == i,
            forall|k: int|
                0 <= k < i ==> (#[trigger] workers[k]).state@ == Stage::Created && plans(
                    workers[k].plan,
                    program_path@,
                    program_type@,
                    testcase_paths[k]@,
                    binary_name_of(
                        decimal(worker_id(seed, k as nat) as nat),
                        settings.bin_extension@,
                    ),
                    *settings,
                ),
        decreases testcase_paths.len() - i,
    {
        let binary = numbered_binary_name(nth_id(seed, i), settings.bin_extension.as_str());
        let plan = plan_worker(
            program_path,
            program_type,
            testcase_paths[i].as_str(),
            binary.as_str(),
            settings,
        );
        workers.push(Worker::new(plan));
        i += 1;
    }
    workers
}

/// The workers of one sweep: for the variant `program_type` under
/// `program_path`, one worker for each test case, in the order of the test
/// cases. The binaries are numbered from a seed drawn at random, so that
/// workers that compile at the same time write to different files.
pub fn exec_user_program(
    program_path: &str,
    testcase_paths: &Vec<String>,
    program_type: &str,
    settings: &ExecutionSettings,
) -> (workers: Vec<Worker>)
    ensures
        exists|seed: u32|
            sweeps(
                workers@,
                seed,
                program_path@,
                texts(testcase_paths@),
                program_type@,
                *settings,
            ),
{
    let seed = random_id();
    plan_sweep(seed, program_path, testcase_paths, program_type, settings)
}

} // verus!
