use khronos::activity::{ActivityResult, ActivityState, ActivityTask, RetryPolicy};
use khronos::clock::Timestamp;
use khronos::json::Json;
use khronos::schedule::{Interval, OverlapPolicy, Schedule, ScheduleSpec, Timeouts, WorkflowAction};
use khronos::seconds::Seconds;
use khronos::task_queue::TaskQueue;
use khronos::workflow::{str_to_workflow_state, workflow_state_to_str, ActivityStep, WorkflowDefinition, WorkflowInstance, WorkflowState};

fn seconds(value: f64) -> Seconds {
    Seconds { bits: value.to_bits() }
}

// ---- activities -----------------------------------------------------------------------------

#[test]
fn test_activity_state_default() {
    let state = ActivityState::default();
    assert_eq!(state, ActivityState::Pending);
}

#[test]
fn test_activity_state_equality() {
    assert_eq!(ActivityState::Pending, ActivityState::Pending);
    assert_ne!(ActivityState::Running, ActivityState::Completed);
    assert_ne!(ActivityState::Failed, ActivityState::Retried);
}

#[test]
fn test_retry_policy_default() {
    let policy = RetryPolicy::default();
    assert_eq!(policy.maximum_attempts, 0);
    assert_eq!(f64::from_bits(policy.initial_interval_secs.bits), 0.0);
}

#[test]
fn test_retry_policy_new() {
    let policy = RetryPolicy::new();
    assert_eq!(policy.maximum_attempts, 0);
    assert_eq!(f64::from_bits(policy.initial_interval_secs.bits), 0.0);
}

#[test]
fn test_retry_policy_clone() {
    let policy = RetryPolicy { maximum_attempts: 3, initial_interval_secs: seconds(1.5) };
    let cloned = policy.clone();
    assert_eq!(policy.maximum_attempts, cloned.maximum_attempts);
    assert_eq!(policy.initial_interval_secs, cloned.initial_interval_secs);
}

#[test]
fn test_activity_task_clone() {
    let task = ActivityTask {
        activity_id: uuid::Uuid::new_v4().to_string(),
        step_id: uuid::Uuid::new_v4().to_string(),
        workflow_run_id: uuid::Uuid::new_v4().to_string(),
        name: "test".to_string(),
        args: Vec::new(),
        retry_policy: RetryPolicy::default(),
        heartbeat_timeout_secs: 30,
        start_to_close_timeout_secs: 120,
    };

    let cloned = task.clone();
    assert_eq!(task.activity_id, cloned.activity_id);
    assert_eq!(task.name, cloned.name);
}

#[test]
fn activity_results_hold_a_value_or_a_message() {
    let done = ActivityResult::Success(Json::parse("{\"output\": \"done\"}").unwrap());
    match done {
        ActivityResult::Success(value) => assert_eq!(value.to_text(), "{\"output\":\"done\"}"),
        _ => panic!("Expected Success variant"),
    }
    let failed = ActivityResult::Failure("connection timeout".to_string());
    match failed {
        ActivityResult::Failure(message) => assert_eq!(message, "connection timeout"),
        _ => panic!("Expected Failure variant"),
    }
}

/// The number of seconds that floating-point arithmetic gives for the same backoff.
fn float_backoff(interval: f64, attempt: u32) -> i64 {
    (interval * 2.0_f64.powi(attempt.saturating_sub(1) as i32)) as i64
}

#[test]
fn backoff_is_exact() {
    let policy = RetryPolicy { maximum_attempts: 3, initial_interval_secs: seconds(2.0) };
    assert_eq!(policy.backoff_secs(0), 2);
    assert_eq!(policy.backoff_secs(1), 2);
    assert_eq!(policy.backoff_secs(2), 4);
    assert_eq!(policy.backoff_secs(3), 8);

    let policy = RetryPolicy { maximum_attempts: 3, initial_interval_secs: seconds(1.5) };
    assert_eq!(policy.backoff_secs(1), 1);
    assert_eq!(policy.backoff_secs(2), 3);

    let intervals = [
        0.0, -0.0, 0.1, 0.3, 0.5, 1.0, 1.0e-9, 5.0e-324, 3.75, 123456.789, 1.0e18, 1.0e300, -1.0, -2.75,
        -1.0e300, f64::INFINITY, f64::NEG_INFINITY, f64::NAN, f64::MAX, f64::MIN_POSITIVE,
    ];
    let attempts = [0, 1, 2, 3, 4, 10, 31, 52, 62, 63, 64, 65, 100, 1000, 1023, 1024, 1025, 5000];
    for interval in intervals {
        for attempt in attempts {
            let policy = RetryPolicy { maximum_attempts: 1, initial_interval_secs: seconds(interval) };
            assert_eq!(
                policy.backoff_secs(attempt),
                float_backoff(interval, attempt),
                "interval {} attempt {}",
                interval,
                attempt
            );
        }
    }
}

#[test]
fn backoff_doubles() {
    let policy = RetryPolicy { maximum_attempts: 9, initial_interval_secs: seconds(0.75) };
    let waits: Vec<i64> = (1..6).map(|attempt| policy.backoff_secs(attempt)).collect();
    assert_eq!(waits, vec![0, 1, 3, 6, 12]);
}

// ---- schedules ------------------------------------------------------------------------------

#[test]
fn test_cron_spec_display() {
    let spec = ScheduleSpec::Cron(vec!["0 * * * *".into()]);
    assert_eq!(spec.to_text(), "Cron(0 * * * *)");
}

#[test]
fn cron_expressions_are_joined_by_commas() {
    let spec = ScheduleSpec::Cron(vec!["0 * * * *".into(), "*/5 * * * *".into()]);
    assert_eq!(spec.to_text(), "Cron(0 * * * *, */5 * * * *)");
    assert_eq!(ScheduleSpec::Cron(Vec::new()).to_text(), "Cron()");
}

#[test]
fn test_interval_spec_display() {
    let spec = ScheduleSpec::Interval(Interval { secs: 60, nanos: 0 });
    let display = spec.to_text();
    assert!(display.starts_with("Interval("));
    assert!(display.ends_with(')'));
    assert_eq!(display, format!("Interval({:?})", std::time::Duration::from_secs(60)));
}

#[test]
fn test_overlap_policy_display() {
    assert_eq!(OverlapPolicy::Skip.to_text(), "Skip");
    assert_eq!(OverlapPolicy::Buffer(3).to_text(), "Buffer(3)");
    assert_eq!(OverlapPolicy::TerminateExisting.to_text(), "TerminateExisting");
    assert_eq!(OverlapPolicy::Buffer(1200345).to_text(), "Buffer(1200345)");
}

#[test]
fn test_timeouts_default() {
    let timeouts = Timeouts::default();
    assert!(timeouts.execution_timeout_secs.is_none());
    assert!(timeouts.run_timeout_secs.is_none());
    assert!(timeouts.task_timeout_secs.is_none());
}

#[test]
fn test_schedule_clone() {
    let now = Timestamp::now();
    let schedule = Schedule {
        schedule_id: "test-schedule".to_string(),
        namespace: "default".to_string(),
        spec: ScheduleSpec::Cron(vec!["0 * * * *".to_string()]),
        action: WorkflowAction {
            workflow_name: "my_workflow".to_string(),
            args: Vec::new(),
            task_queue: "default".to_string(),
            id: "action-1".to_string(),
            timeouts: Timeouts::default(),
        },
        policy: OverlapPolicy::Skip,
        created_at: now,
        updated_at: now,
    };
    let cloned = schedule.clone();
    assert_eq!(schedule.schedule_id, cloned.schedule_id);
    assert_eq!(schedule.namespace, cloned.namespace);
}

// ---- workflows ------------------------------------------------------------------------------

#[test]
fn test_workflow_state_default() {
    let state = WorkflowState::default();
    assert_eq!(state, WorkflowState::Pending);
}

#[test]
fn test_workflow_state_equality() {
    assert_eq!(WorkflowState::Pending, WorkflowState::Pending);
    assert_ne!(WorkflowState::Pending, WorkflowState::Running);
    assert_ne!(WorkflowState::Completed, WorkflowState::Failed);
}

#[test]
fn workflow_state_words_read_back() {
    for (state, word) in [
        (WorkflowState::Pending, "pending"),
        (WorkflowState::Running, "running"),
        (WorkflowState::Completed, "completed"),
        (WorkflowState::Failed, "failed"),
        (WorkflowState::Cancelled, "cancelled"),
    ] {
        assert_eq!(workflow_state_to_str(state), word);
        assert_eq!(str_to_workflow_state(word).unwrap(), state);
    }
    assert_eq!(str_to_workflow_state("retried").unwrap_err(), "Unknown workflow state: retried");
    assert_eq!(str_to_workflow_state("").unwrap_err(), "Unknown workflow state: ");
}

#[test]
fn test_workflow_instance_clone() {
    let wf = WorkflowInstance {
        run_id: uuid::Uuid::new_v4().as_u128(),
        workflow_id: "wf-001".to_string(),
        name: "test_workflow".to_string(),
        task_queue: "default".to_string(),
        state: WorkflowState::Pending,
        args_json: Json::parse("{\"key\": \"value\"}").unwrap(),
        result_json: None,
        timeouts: Timeouts {
            execution_timeout_secs: Some(3600),
            run_timeout_secs: Some(1800),
            task_timeout_secs: Some(300),
        },
        started_at: None,
        completed_at: None,
        namespace: "default".to_string(),
    };
    let cloned = wf.clone();
    assert_eq!(wf.run_id, cloned.run_id);
    assert_eq!(wf.workflow_id, cloned.workflow_id);
}

#[test]
fn a_definition_lists_its_steps() {
    let definition = WorkflowDefinition {
        name: "multi_step".to_string(),
        steps: vec![ActivityStep {
            activity_name: "step1".to_string(),
            args_template: vec![("input".to_string(), "{{data}}".to_string())],
            retry_policy: RetryPolicy::default(),
            timeout_secs: 60,
            heartbeat_timeout_secs: None,
        }],
    };
    assert_eq!(definition.clone().steps[0].activity_name, "step1");
}

// ---- task queues ----------------------------------------------------------------------------

#[test]
fn test_register_and_unregister_worker() {
    let mut queue = TaskQueue::new("default");
    assert_eq!(queue.worker_count(), 0);

    queue.register_worker("w1".into(), vec!["activity_a".into()]);
    assert_eq!(queue.worker_count(), 1);
    assert!(queue.has_handler("activity_a"));

    let removed = queue.unregister_worker("w1");
    assert!(removed.is_some());
    assert_eq!(queue.worker_count(), 0);
}

#[test]
fn test_update_heartbeat() {
    let mut queue = TaskQueue::new("default");
    queue.register_worker("w1".into(), vec!["activity_a".into()]);

    assert!(queue.update_heartbeat("w1"));
    assert!(!queue.update_heartbeat("nonexistent"));
}

#[test]
fn test_get_handlers() {
    let mut queue = TaskQueue::new("default");
    queue.register_worker("w1".into(), vec!["activity_a".into(), "activity_b".into()]);
    queue.register_worker("w2".into(), vec!["activity_a".into()]);

    let handlers = queue.get_handlers("activity_a");
    assert_eq!(handlers.len(), 2);

    let handlers = queue.get_handlers("activity_b");
    assert_eq!(handlers.len(), 1);
}

#[test]
fn registering_again_replaces() {
    let mut queue = TaskQueue::new("default");
    let first = Timestamp::new(100, 0).unwrap();
    let second = Timestamp::new(200, 5).unwrap();
    queue.register_worker_at("w1".into(), vec!["activity_a".into()], &first);
    queue.register_worker_at("w2".into(), vec!["activity_c".into()], &first);
    queue.register_worker_at("w1".into(), vec!["activity_b".into()], &second);
    assert_eq!(queue.worker_count(), 2);
    assert!(!queue.has_handler("activity_a"));
    assert!(queue.has_handler("activity_b"));
    assert_eq!(queue.get_worker("w1").unwrap().last_heartbeat, second);
    assert_eq!(queue.get_worker("w2").unwrap().last_heartbeat, first);
    assert!(queue.update_heartbeat_at("w2", &second));
    assert_eq!(queue.get_worker("w2").unwrap().last_heartbeat, second);
    assert!(queue.get_worker("w3").is_none());
    assert!(queue.unregister_worker("w3").is_none());
    assert_eq!(queue.unregister_worker("w1").unwrap().activity_types, vec!["activity_b"]);
    assert!(queue.get_worker("w1").is_none());
    assert!(queue.get_worker("w2").is_some());
}
