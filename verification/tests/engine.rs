use cpstt::compiler::{
    binary_name, binary_path, check_compile, compile, nth_id, numbered_binary_name, EngineError,
};
use cpstt::executor::{classify, run_command, settle, ExecutionResult, RunEvent, Status};
use cpstt::fileio::{ExecutionSettings, LoggingSettings, SettingsClass};
use cpstt::worker::{
    exec_user_program, failure_notice, is_failure, output_path, plan_sweep, plan_worker,
    report_run, sweep_is_over, Worker, WorkerAction, WorkerEvent, WorkerState,
};

fn execution() -> ExecutionSettings {
    ExecutionSettings {
        max_output_len: 1000,
        max_output_line: 10,
        time_limit: 2000,
        bin_extension: "out".to_string(),
    }
}

fn settings(dump: bool) -> SettingsClass {
    SettingsClass { execution: execution(), logging: LoggingSettings { dump_exe_result: dump } }
}

fn worker_on(testcase: &str) -> Worker {
    Worker::new(plan_worker("/work", "stupid", testcase, "77.out", &execution()))
}

fn exited(stdout: &str, stderr: &str, elapsed_ms: u64) -> WorkerEvent {
    WorkerEvent::Run(RunEvent::Exited {
        stdout: stdout.to_string(),
        stderr: stderr.to_string(),
        elapsed_ms,
    })
}

fn compiled(diagnostics: &str) -> WorkerEvent {
    WorkerEvent::Compiled { diagnostics: diagnostics.to_string() }
}

#[test]
fn compile_command_has_the_fixed_flags() {
    let command = compile("/work/smart.cpp", "123.out");
    assert_eq!(command.program, "g++");
    assert_eq!(
        command.args,
        vec![
            "-std=c++1z",
            "-O3",
            "-fsanitize=undefined",
            "-I",
            ".",
            "-o",
            "cpstt_out/bin/123.out",
            "/work/smart.cpp"
        ]
    );
    assert_eq!(command.working_dir, "/work");
}

#[test]
fn any_diagnostic_output_is_a_compile_error() {
    assert!(check_compile(String::new()).is_ok());
    match check_compile("smart.cpp:3:1: error: expected ';'".to_string()) {
        Err(EngineError::CompileError { diagnostics }) => {
            assert_eq!(diagnostics, "smart.cpp:3:1: error: expected ';'")
        }
        other => panic!("{:?}", other),
    }
    assert!(matches!(
        check_compile("warning: unused variable".to_string()),
        Err(EngineError::CompileError { .. })
    ));
}

#[test]
fn binaries_are_named_with_the_configured_extension() {
    assert_eq!(binary_name("generator", "out"), "generator.out");
    assert_eq!(binary_name("generator", ""), "generator");
    assert_eq!(numbered_binary_name(0, "out"), "0.out");
    assert_eq!(numbered_binary_name(4294967295, "exe"), "4294967295.exe");
    assert_eq!(numbered_binary_name(31, ""), "31");
    assert_eq!(binary_path("/work", "31.out"), "/work/cpstt_out/bin/31.out");
}

#[test]
fn workers_are_numbered_upwards_from_the_seed() {
    assert_eq!(nth_id(0, 0), 0);
    assert_eq!(nth_id(41, 1), 42);
    assert_eq!(nth_id(u32::MAX, 0), u32::MAX);
    assert_eq!(nth_id(u32::MAX, 1), 0);
    assert_eq!(nth_id(u32::MAX - 1, 5), 3);
    assert_eq!(nth_id(7, usize::MAX), ((7u128 + usize::MAX as u128) % (1u128 << 32)) as u32);
}

#[test]
fn the_workers_of_a_sweep_compile_into_different_files() {
    let cases: Vec<String> = (0..50).map(|i| format!("/work/testcase/{}.in", i)).collect();
    let workers = plan_sweep(u32::MAX - 3, "/work", &cases, "smart", &execution());
    assert_eq!(workers.len(), 50);
    assert_eq!(workers[0].plan.run.program, "/work/cpstt_out/bin/4294967292.out");
    assert_eq!(workers[3].plan.run.program, "/work/cpstt_out/bin/4294967295.out");
    assert_eq!(workers[4].plan.run.program, "/work/cpstt_out/bin/0.out");
    assert_eq!(workers[4].plan.compile.args[6], "cpstt_out/bin/0.out");
    assert_eq!(workers[49].plan.run.program, "/work/cpstt_out/bin/45.out");
    assert_eq!(workers[49].plan.run.input, "/work/testcase/49.in");
    assert_eq!(workers[49].plan.output_path, "/work/cpstt_out/smart/49.out");
    let mut programs: Vec<&String> = workers.iter().map(|w| &w.plan.run.program).collect();
    programs.sort();
    programs.dedup();
    assert_eq!(programs.len(), 50);
}

#[test]
fn status_depends_on_limit_and_error_stream_alone() {
    assert_eq!(classify(true, true), Status::Done);
    assert_eq!(classify(false, true), Status::Tle);
    assert_eq!(classify(true, false), Status::RuntimeError);
    assert_eq!(classify(false, false), Status::RuntimeError);
}

#[test]
fn run_command_feeds_the_input_through_cat() {
    let command = run_command("/work/cpstt_out/bin/5.out", "/work/testcase/1.in");
    assert_eq!(command.feeder, "cat");
    assert_eq!(command.input, "/work/testcase/1.in");
    assert_eq!(command.program, "/work/cpstt_out/bin/5.out");
    assert_eq!(command.args, vec!["<", "/work/testcase/1.in"]);
}

#[test]
fn a_run_within_the_limit_keeps_its_output() {
    let result = settle(
        2000,
        RunEvent::Exited { stdout: "42\n".to_string(), stderr: String::new(), elapsed_ms: 2000 },
    );
    assert_eq!(result.stdout, "42\n");
    assert_eq!(result.stderr, "");
    assert_eq!(result.elapsed_ms, 2000);
    assert!(!result.timed_out);
    assert_eq!(result.status(), Status::Done);
}

#[test]
fn a_clean_run_beyond_the_limit_is_timed_out_without_output() {
    let result = settle(
        2000,
        RunEvent::Exited { stdout: "42\n".to_string(), stderr: String::new(), elapsed_ms: 2001 },
    );
    assert_eq!(result.stdout, "");
    assert_eq!(result.elapsed_ms, 2001);
    assert!(result.timed_out);
    assert_eq!(result.status(), Status::Tle);
}

#[test]
fn a_passed_deadline_is_timed_out_at_the_limit() {
    let result = settle(1500, RunEvent::DeadlinePassed);
    assert_eq!(result.stdout, "");
    assert_eq!(result.stderr, "");
    assert_eq!(result.elapsed_ms, 1500);
    assert!(result.timed_out);
    assert_eq!(result.status(), Status::Tle);
}

#[test]
fn a_written_error_stream_overrides_the_time() {
    let late = settle(
        2000,
        RunEvent::Exited {
            stdout: "4".to_string(),
            stderr: "runtime error: signed integer overflow".to_string(),
            elapsed_ms: 9000,
        },
    );
    assert_eq!(late.status(), Status::RuntimeError);
    assert_eq!(late.stderr, "runtime error: signed integer overflow");
    let early = settle(
        2000,
        RunEvent::Exited { stdout: String::new(), stderr: "x".to_string(), elapsed_ms: 1 },
    );
    assert_eq!(early.status(), Status::RuntimeError);
    match early.checked("/work/smart.cpp") {
        Err(EngineError::RuntimeError { program, diagnostics }) => {
            assert_eq!(program, "/work/smart.cpp");
            assert_eq!(diagnostics, "x");
        }
        other => panic!("{:?}", other),
    }
}

#[test]
fn results_without_error_output_pass_the_check() {
    let result = ExecutionResult {
        stdout: "1\n".to_string(),
        stderr: String::new(),
        elapsed_ms: 3,
        timed_out: false,
    };
    let checked = result.checked("/work/smart.cpp").unwrap();
    assert_eq!(checked.stdout, "1\n");
    assert_eq!(checked.elapsed_ms, 3);
}

#[test]
fn plan_lays_out_source_binary_and_output() {
    let plan = plan_worker("/work", "smart", "/work/testcase/07.in", "123.out", &execution());
    assert_eq!(plan.label, "smart");
    assert_eq!(plan.source, "/work/smart.cpp");
    assert_eq!(plan.compile.program, "g++");
    assert_eq!(plan.compile.args[6], "cpstt_out/bin/123.out");
    assert_eq!(plan.compile.args[7], "/work/smart.cpp");
    assert_eq!(plan.compile.working_dir, "/work");
    assert_eq!(plan.run.feeder, "cat");
    assert_eq!(plan.run.input, "/work/testcase/07.in");
    assert_eq!(plan.run.program, "/work/cpstt_out/bin/123.out");
    assert_eq!(plan.run.args, vec!["<", "/work/testcase/07.in"]);
    assert_eq!(plan.output_path, "/work/cpstt_out/smart/07.out");
    assert_eq!(plan.limit_ms, 2000);
}

#[test]
fn outputs_are_stored_under_the_name_of_the_test_case() {
    assert_eq!(output_path("/work", "smart", "/work/testcase/07.in", "out"), "/work/cpstt_out/smart/07.out");
    assert_eq!(output_path("/work", "stupid", "/work/testcase/a.b.in", "txt"), "/work/cpstt_out/stupid/a.b.txt");
    assert_eq!(output_path("/work", "smart", "plain", "out"), "/work/cpstt_out/smart/plain.out");
}

#[test]
fn a_sweep_has_one_worker_for_each_test_case() {
    let cases = vec!["/work/testcase/1.in".to_string(), "/work/testcase/2.in".to_string()];
    let workers = exec_user_program("/work", &cases, "stupid", &execution());
    assert_eq!(workers.len(), 2);
    for (worker, case) in workers.iter().zip(cases.iter()) {
        assert!(matches!(worker.state, WorkerState::Created));
        assert_eq!(&worker.plan.run.input, case);
        assert_eq!(worker.plan.source, "/work/stupid.cpp");
        let binary = worker.plan.run.program.strip_prefix("/work/cpstt_out/bin/").unwrap();
        assert_eq!(worker.plan.compile.args[6], format!("cpstt_out/bin/{}", binary));
        let id: u32 = binary.strip_suffix(".out").unwrap().parse().unwrap();
        assert_eq!(numbered_binary_name(id, "out"), binary);
    }
    let first: u32 = workers[0].plan.run.program["/work/cpstt_out/bin/".len()..]
        .strip_suffix(".out")
        .unwrap()
        .parse()
        .unwrap();
    assert_eq!(
        workers[1].plan.run.program,
        format!("/work/cpstt_out/bin/{}.out", first.wrapping_add(1))
    );
    assert_eq!(workers[0].plan.output_path, "/work/cpstt_out/stupid/1.out");
    assert_eq!(workers[1].plan.output_path, "/work/cpstt_out/stupid/2.out");
    assert!(!sweep_is_over(&workers));
    assert!(sweep_is_over(&Vec::new()));
}

#[test]
fn a_worker_compiles_runs_and_reports() {
    let worker = worker_on("/work/testcase/1.in");
    let (worker, action) = worker.step(WorkerEvent::Started);
    assert_eq!(action, WorkerAction::Compile);
    assert!(matches!(worker.state, WorkerState::Compiling));
    let (worker, action) = worker.step(compiled(""));
    assert_eq!(action, WorkerAction::Run);
    assert!(matches!(worker.state, WorkerState::Running));
    let (worker, action) = worker.step(exited("7\n", "", 15));
    assert_eq!(action, WorkerAction::Report);
    assert!(sweep_is_over(&vec![worker_settled(), worker_settled()]));
    let result = worker.finish().1.unwrap().unwrap();
    assert_eq!(result.stdout, "7\n");
    assert_eq!(result.status(), Status::Done);
    assert!(!is_failure(&Ok(result)));
}

fn worker_settled() -> Worker {
    let worker = worker_on("/work/testcase/1.in");
    let (worker, _) = worker.step(WorkerEvent::Started);
    let (worker, _) = worker.step(compiled("oops"));
    worker
}

#[test]
fn a_candidate_that_sleeps_past_the_limit_reports_tle() {
    let worker = worker_on("/work/testcase/1.in");
    let (worker, _) = worker.step(WorkerEvent::Started);
    let (worker, _) = worker.step(compiled(""));
    let (worker, action) = worker.step(WorkerEvent::Run(RunEvent::DeadlinePassed));
    assert_eq!(action, WorkerAction::Terminate);
    let (worker, action) = worker.step(exited("late answer\n", "", 5000));
    assert_eq!(action, WorkerAction::Nothing);
    let (plan, outcome) = worker.finish();
    let result = outcome.unwrap().unwrap();
    assert_eq!(result.status(), Status::Tle);
    assert!(result.timed_out);
    assert_eq!(result.stdout, "");
    assert_eq!(result.elapsed_ms, 2000);
    assert_eq!(plan.label, "stupid");
    let report = report_run(&plan, &result, 0, 1, 1, &settings(false));
    assert_eq!(
        report.progress,
        "\x1b[1;36m[ stupid ]\x1b[0m testcase::01 ( 1/ 1) is \x1b[1;33mTLE\x1b[0m. (2.000 sec)"
    );
    assert_eq!(report.dump, None);
    assert_eq!(report.output_path, "/work/cpstt_out/stupid/1.out");
    assert_eq!(report.content, "");
    assert!(is_failure(&Ok(result)));
}

#[test]
fn a_syntax_error_is_raised_before_any_test_case_runs() {
    let cases = vec!["/work/testcase/1.in".to_string(), "/work/testcase/2.in".to_string()];
    let workers = exec_user_program("/work", &cases, "smart", &execution());
    let mut settled = Vec::new();
    for worker in workers {
        let (worker, action) = worker.step(WorkerEvent::Started);
        assert_eq!(action, WorkerAction::Compile);
        let (worker, action) = worker.step(compiled("smart.cpp:1:1: error: expected ';'"));
        assert_eq!(action, WorkerAction::Report);
        let (worker, action) = worker.step(exited("1\n", "", 1));
        assert_eq!(action, WorkerAction::Nothing);
        let (worker, action) = worker.step(compiled(""));
        assert_eq!(action, WorkerAction::Nothing);
        settled.push(worker);
    }
    assert!(sweep_is_over(&settled));
    for worker in settled {
        let outcome = worker.finish().1.unwrap();
        assert!(is_failure(&outcome));
        match outcome {
            Err(EngineError::CompileError { diagnostics }) => {
                assert_eq!(diagnostics, "smart.cpp:1:1: error: expected ';'")
            }
            other => panic!("{:?}", other),
        }
    }
}

#[test]
fn a_runtime_error_is_the_outcome_of_its_own_worker_only() {
    let worker = worker_on("/work/testcase/1.in");
    let (worker, _) = worker.step(WorkerEvent::Started);
    let (worker, _) = worker.step(compiled(""));
    let (worker, action) = worker.step(exited("", "runtime error: index out of bounds", 3));
    assert_eq!(action, WorkerAction::Report);
    let outcome = worker.finish().1.unwrap();
    assert!(is_failure(&outcome));
    let error = outcome.unwrap_err();
    assert_eq!(
        failure_notice(&error).line,
        "\x1b[1;31mError\x1b[0m: It seems execution error [/work/stupid.cpp]"
    );
    match error {
        EngineError::RuntimeError { program, diagnostics } => {
            assert_eq!(program, "/work/stupid.cpp");
            assert_eq!(diagnostics, "runtime error: index out of bounds");
        }
        other => panic!("{:?}", other),
    }
}

#[test]
fn events_out_of_turn_change_nothing() {
    let worker = worker_on("/work/testcase/1.in");
    assert!(worker.finish().1.is_none());
    let worker = worker_on("/work/testcase/1.in");
    let (worker, action) = worker.step(compiled(""));
    assert_eq!(action, WorkerAction::Nothing);
    assert!(matches!(worker.state, WorkerState::Created));
    let (worker, action) = worker.step(exited("1", "", 1));
    assert_eq!(action, WorkerAction::Nothing);
    assert!(matches!(worker.state, WorkerState::Created));
    let (worker, _) = worker.step(WorkerEvent::Started);
    let (worker, action) = worker.step(WorkerEvent::Started);
    assert_eq!(action, WorkerAction::Nothing);
    assert!(matches!(worker.state, WorkerState::Compiling));
    let (worker, action) = worker.step(WorkerEvent::Run(RunEvent::DeadlinePassed));
    assert_eq!(action, WorkerAction::Nothing);
    assert!(matches!(worker.state, WorkerState::Compiling));
    assert!(worker.finish().1.is_none());
}

#[test]
fn notices_name_the_failure() {
    let not_compiled = EngineError::CompileError { diagnostics: "d".to_string() };
    assert_eq!(
        failure_notice(&not_compiled).line,
        "\x1b[1;31mError\x1b[0m: It seems compile error"
    );
    let generator_error =
        EngineError::RuntimeError { program: String::new(), diagnostics: "d".to_string() };
    assert_eq!(
        failure_notice(&generator_error).line,
        "\x1b[1;31mError\x1b[0m: It seems execution error"
    );
}

#[test]
fn reports_show_the_output_where_the_settings_ask_for_it() {
    let plan = plan_worker("/work", "smart", "/work/testcase/3.in", "9.out", &execution());
    let result = ExecutionResult {
        stdout: "6\n".to_string(),
        stderr: String::new(),
        elapsed_ms: 1234,
        timed_out: false,
    };
    let report = report_run(&plan, &result, 2, 3, 5, &settings(true));
    assert_eq!(
        report.progress,
        "\x1b[1;36m[ smart ]\x1b[0m testcase::03 ( 3/ 5) is done. (1.234 sec)"
    );
    assert_eq!(report.dump, Some("6\n".to_string()));
    assert_eq!(report.output_path, "/work/cpstt_out/smart/3.out");
    assert_eq!(report.content, "6\n");
    let quiet = report_run(&plan, &result, 2, 3, 5, &settings(false));
    assert_eq!(quiet.dump, None);
}
