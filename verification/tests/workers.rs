use khronos::activity::{ActivityTask, RetryPolicy};
use khronos::worker::config::{register_default_handlers, BuiltinHandler, Worker, WorkerConfig};
use khronos::worker::executor::{dispatch, report_outcome, trim, Report};
use khronos::worker::handler::{
    fail_to_spawn, finish_script, ActivityHandler, DummyHandler, Plan, ProgramOutput, PythonHandler, ScriptHandler,
};
use khronos::worker::handlers::{
    finish_python_script, finish_shell_script, register_default_handlers as register_scripts,
};
use khronos::worker::poller::{ConnectionState, PollAction, PollOutcome, PollerState};
use khronos::worker::registry::ActivityRegistry;

fn task(name: &str) -> ActivityTask {
    ActivityTask {
        activity_id: "activity-1".to_string(),
        step_id: "step-1".to_string(),
        workflow_run_id: "run-1".to_string(),
        name: name.to_string(),
        args: Vec::new(),
        retry_policy: RetryPolicy::default(),
        heartbeat_timeout_secs: 30,
        start_to_close_timeout_secs: 60,
    }
}

fn output(success: bool, code: Option<i32>, stdout: &str, stderr: &str) -> ProgramOutput {
    ProgramOutput {
        success,
        code,
        stdout: stdout.as_bytes().to_vec(),
        stderr: stderr.as_bytes().to_vec(),
    }
}

#[test]
fn a_registry_finds_what_was_registered() {
    let mut registry: ActivityRegistry<u32> = ActivityRegistry::new();
    assert!(!registry.has("a"));
    assert!(registry.get("a").is_none());
    registry.register("a", 1);
    registry.register("b", 2);
    registry.register("a", 3);
    assert_eq!(registry.len(), 2);
    assert!(registry.has("a"));
    assert_eq!(registry.get("a"), Some(&3));
    assert_eq!(registry.get("b"), Some(&2));
}

#[test]
fn default_handlers() {
    let mut registry: ActivityRegistry<BuiltinHandler> = ActivityRegistry::new();
    register_default_handlers(&mut registry, "/home/me");
    assert_eq!(registry.len(), 8);
    assert!(matches!(registry.get("dummy-activity"), Some(BuiltinHandler::Dummy(_))));
    match registry.get("lycus-cron-notifier") {
        Some(BuiltinHandler::Script(h)) => {
            assert_eq!(h.script_path, ["/home/me/scripts/cron_notifier", "sh"].join("."));
            assert_eq!(h.workdir, "/home/me");
        }
        _ => panic!("Expected a script"),
    }
    match registry.get("lycus-memory-condenser") {
        Some(BuiltinHandler::Python(h)) => {
            assert_eq!(h.script_path, ["/home/me/scripts/memory_condenser", "py"].join("."));
        }
        _ => panic!("Expected a Python script"),
    }
    let mut scripts: ActivityRegistry<BuiltinHandler> = ActivityRegistry::new();
    register_scripts(&mut scripts, "/tmp");
    assert_eq!(scripts.len(), 7);
    assert!(!scripts.has("dummy-activity"));
    match scripts.get("lycus-arxiv-factory") {
        Some(BuiltinHandler::Script(h)) => {
            assert_eq!(h.script_path, ["/home/waymore/scripts/arxiv_factory", "sh"].join("."));
            assert_eq!(h.workdir, "/tmp");
        }
        _ => panic!("Expected a script"),
    }
}

#[test]
fn handlers_plan_programs() {
    let script = ScriptHandler { script_path: "/s".to_string(), workdir: "/w".to_string() };
    match script.plan(&task("t")) {
        Plan::Run { program, args, workdir } => {
            assert_eq!(program, "bash");
            assert_eq!(args, vec!["-c", "/s"]);
            assert_eq!(workdir, "/w");
        }
        _ => panic!("Expected a program"),
    }
    let python = BuiltinHandler::Python(PythonHandler { script_path: "/p".to_string(), workdir: "/w".to_string() });
    match python.plan(&task("t")) {
        Plan::Run { program, args, workdir } => {
            assert_eq!(program, "python3");
            assert_eq!(args, vec!["/p"]);
            assert_eq!(workdir, "/w");
        }
        _ => panic!("Expected a program"),
    }
    match DummyHandler.plan(&task("t")) {
        Plan::Done { output } => assert_eq!(output, "Dummy result for activity t"),
        _ => panic!("Expected an output"),
    }
}

#[test]
fn results_of_programs() {
    assert_eq!(finish_script(&output(true, Some(0), "out", "err")).unwrap(), "out");
    assert_eq!(finish_script(&output(true, Some(0), "", "err")).unwrap(), "err");
    assert_eq!(finish_script(&output(false, Some(12), "out", "err")).unwrap_err(), "Exit code Some(12): err");
    assert_eq!(finish_script(&output(false, Some(-3), "", "")).unwrap_err(), "Exit code Some(-3): ");
    assert_eq!(
        finish_shell_script(&output(false, None, "", "e")).unwrap_err(),
        "Script failed with exit code None: e"
    );
    assert_eq!(
        finish_python_script(&output(false, Some(0), "", "e")).unwrap_err(),
        "Python script failed with exit code Some(0): e"
    );
    let mut broken = output(true, Some(0), "", "");
    broken.stdout = vec![b'a', 0xff];
    assert_eq!(finish_script(&broken).unwrap(), "a\u{fffd}");
    assert_eq!(fail_to_spawn("no such file").unwrap_err(), "Failed to spawn: no such file");
}

#[test]
fn tasks_are_dispatched_and_reported() {
    let mut registry: ActivityRegistry<BuiltinHandler> = ActivityRegistry::new();
    registry.register("t", BuiltinHandler::Dummy(DummyHandler));
    assert!(dispatch(&registry, &task("t")).is_ok());
    match dispatch(&registry, &task("other")) {
        Err(Report::Failure { activity_id, error_message }) => {
            assert_eq!(activity_id, "activity-1");
            assert_eq!(error_message, "No handler registered for activity: other");
        }
        _ => panic!("Expected a failure"),
    }
    match report_outcome("a", Ok(" done\n".to_string())) {
        Report::Success { activity_id, result_json } => {
            assert_eq!(activity_id, "a");
            assert_eq!(result_json, "{\"stdout\":\"done\"}");
        }
        _ => panic!("Expected a success"),
    }
    match report_outcome("a", Err("broken".to_string())) {
        Report::Failure { activity_id, error_message } => {
            assert_eq!(activity_id, "a");
            assert_eq!(error_message, "broken");
        }
        _ => panic!("Expected a failure"),
    }
}

#[test]
fn whitespace_is_trimmed() {
    for text in ["", "a", " a b ", "\n\t\u{3000}x\u{a0}", "   ", "\u{200b}x"] {
        assert_eq!(trim(text), text.trim());
    }
    for n in 0..=0x10ffffu32 {
        if let Some(c) = char::from_u32(n) {
            assert_eq!(trim(&c.to_string()).is_empty(), c.is_whitespace());
        }
    }
}

#[test]
fn the_poller_counts_its_attempts() {
    let mut state = PollerState::new();
    assert_eq!(state.connection, ConnectionState::Disconnected);
    assert_eq!(state.step(PollOutcome::Error), PollAction::BackOff(1));
    assert_eq!(state.step(PollOutcome::Error), PollAction::BackOff(2));
    assert_eq!(state.step(PollOutcome::Task), PollAction::Forward);
    assert_eq!(state.connection, ConnectionState::Connected);
    assert_eq!(state.reconnect_attempt, 0);
    assert_eq!(state.step(PollOutcome::Empty), PollAction::Again);
    assert_eq!(state.step(PollOutcome::Error), PollAction::BackOff(1));
    assert_eq!(state.step(PollOutcome::Error), PollAction::BackOff(2));
}

#[test]
fn worker_settings() {
    let config = WorkerConfig::default();
    let worker = Worker::new(config);
    assert_eq!(worker.config.server_url, "127.0.0.1:50053");
    assert_eq!(worker.config.task_queue, "default");
    assert_eq!(worker.config.max_concurrent, 4);
}
