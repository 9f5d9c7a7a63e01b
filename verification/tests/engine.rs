use khronos::activity::{ActivityState, RetryPolicy};
use khronos::clock::{format_datetime, Timestamp};
use khronos::db::activities::{get_pending_steps_at, heartbeat_update_at, insert_activity_attempt_at};
use khronos::db::rows::{Database, PolicyColumn, StepRow, WorkflowRow};
use khronos::engine::{
    check_heartbeats, check_heartbeats_at, check_retries, handle_event, handle_event_at, handle_heartbeat_timeout, handle_retry_due,
    handle_step_completed, handle_workflow_created, process_single_workflow, process_workflows,
    schedule_timers_for_workflow, timeout_fits, timeouts_fit, timer_delay, workflow_outlook, EngineEvent, Outlook, Timer,
};
use khronos::ids::uuid_to_text;
use khronos::seconds::Seconds;
use khronos::workflow::WorkflowState;

fn new_id() -> u128 {
    uuid::Uuid::new_v4().as_u128()
}

fn at(secs: i64) -> Timestamp {
    Timestamp::new(secs, 0).unwrap()
}

fn insert_workflow(db: &mut Database, run_id: u128) {
    db.workflows.push(WorkflowRow {
        run_id: uuid_to_text(run_id),
        workflow_id: format!("wf-{}", uuid_to_text(run_id)),
        name: "test_wf".to_string(),
        task_queue: "default".to_string(),
        state: WorkflowState::Pending,
        args_json: "{}".to_string(),
        result_json: None,
        execution_timeout_secs: None,
        run_timeout_secs: None,
        task_timeout_secs: None,
        started_at: None,
        completed_at: None,
        namespace: "default".to_string(),
    });
}

fn insert_step(db: &mut Database, run_id: u128, index: i64) -> String {
    let id = uuid_to_text(new_id());
    db.steps.push(StepRow {
        id: id.clone(),
        workflow_run_id: uuid_to_text(run_id),
        step_index: index,
        activity_name: "test_activity".to_string(),
        args_json: "{}".to_string(),
        retry_policy: PolicyColumn::Policy(RetryPolicy {
            maximum_attempts: 3,
            initial_interval_secs: Seconds { bits: 2.0f64.to_bits() },
        }),
        timeout_secs: 60,
        heartbeat_timeout_secs: Some(30),
        state: ActivityState::Pending,
        attempt: 0,
        result_json: None,
        next_retry_at: None,
        created_at: format_datetime(&Timestamp::now()),
    });
    id
}

#[test]
fn test_process_pending_workflow_transitions_to_running() {
    let mut db = Database::new();
    let run_id = new_id();
    insert_workflow(&mut db, run_id);

    process_workflows(&mut db, &Timestamp::now()).unwrap();

    assert_eq!(db.workflows[0].state, WorkflowState::Running);
    assert!(db.workflows[0].started_at.is_some());
}

#[test]
fn test_process_workflow_with_completed_steps() {
    let mut db = Database::new();
    let run_id = new_id();
    insert_workflow(&mut db, run_id);
    insert_step(&mut db, run_id, 0);
    db.steps[0].state = ActivityState::Completed;

    process_workflows(&mut db, &Timestamp::now()).unwrap();

    assert_eq!(db.workflows[0].state, WorkflowState::Completed);
}

#[test]
fn test_process_workflow_with_failed_step() {
    let mut db = Database::new();
    let run_id = new_id();
    insert_workflow(&mut db, run_id);
    insert_step(&mut db, run_id, 0);
    db.steps[0].state = ActivityState::Failed;

    process_workflows(&mut db, &Timestamp::now()).unwrap();

    assert_eq!(db.workflows[0].state, WorkflowState::Failed);
}

#[test]
fn test_step_ordering_dependency_check() {
    let mut db = Database::new();
    let run_id = new_id();
    insert_workflow(&mut db, run_id);
    insert_step(&mut db, run_id, 0);
    insert_step(&mut db, run_id, 1);
    insert_step(&mut db, run_id, 2);

    process_workflows(&mut db, &Timestamp::now()).unwrap();
    assert_eq!(db.steps[0].state, ActivityState::Pending);

    db.steps[0].state = ActivityState::Completed;
    process_workflows(&mut db, &Timestamp::now()).unwrap();
    assert_eq!(db.steps[1].state, ActivityState::Pending);
}

#[test]
fn test_check_retries_resets_ready_steps() {
    let mut db = Database::new();
    let run_id = new_id();
    insert_workflow(&mut db, run_id);
    insert_step(&mut db, run_id, 0);
    let now = Timestamp::now();
    db.steps[0].state = ActivityState::Retried;
    db.steps[0].next_retry_at = Some(format_datetime(&now.plus(-60).unwrap()));

    check_retries(&mut db, &now).unwrap();

    assert_eq!(db.steps[0].state, ActivityState::Pending);
    assert!(db.steps[0].next_retry_at.is_none());
}

#[test]
fn test_check_retries_skips_future_steps() {
    let mut db = Database::new();
    let run_id = new_id();
    insert_workflow(&mut db, run_id);
    insert_step(&mut db, run_id, 0);
    let now = Timestamp::now();
    db.steps[0].state = ActivityState::Retried;
    db.steps[0].next_retry_at = Some(format_datetime(&now.plus(3600).unwrap()));

    check_retries(&mut db, &now).unwrap();

    assert_eq!(db.steps[0].state, ActivityState::Retried);
    assert!(db.steps[0].next_retry_at.is_some());
}

fn running_activity(db: &mut Database, attempt: u32, started: i64) -> (String, String) {
    let run_id = new_id();
    insert_workflow(db, run_id);
    let step_id = insert_step(db, run_id, 0);
    let step = db.steps.len() - 1;
    db.steps[step].state = ActivityState::Running;
    db.steps[step].attempt = attempt as i64;
    insert_activity_attempt_at(db, "activity-1", &step_id, attempt, &at(started)).unwrap();
    (uuid_to_text(run_id), step_id)
}

#[test]
fn test_heartbeat_timeout_detection() {
    let mut db = Database::new();
    running_activity(&mut db, 1, 1_000);
    check_heartbeats_at(&mut db, &at(1_030)).unwrap();
    assert_eq!(db.activities[0].state, ActivityState::Running);
    check_heartbeats_at(&mut db, &at(1_060)).unwrap();
    assert_eq!(db.activities[0].state, ActivityState::Failed);
    assert_eq!(db.activities[0].error_message.as_deref(), Some("Heartbeat timeout"));
}

#[test]
fn test_heartbeat_timeout_with_retry() {
    let mut db = Database::new();
    running_activity(&mut db, 2, 1_000);
    check_heartbeats_at(&mut db, &at(1_031)).unwrap();
    assert_eq!(db.steps[0].state, ActivityState::Pending);
    assert_eq!(db.steps[0].attempt, 2);
    assert_eq!(db.steps[0].next_retry_at, Some(format_datetime(&at(1_035))));
}

#[test]
fn test_heartbeat_timeout_max_retries_exceeded() {
    let mut db = Database::new();
    running_activity(&mut db, 3, 1_000);
    check_heartbeats_at(&mut db, &at(1_031)).unwrap();
    assert_eq!(db.steps[0].state, ActivityState::Failed);
    assert_eq!(db.steps[0].attempt, 3);
    assert_eq!(db.steps[0].next_retry_at, None);
}

#[test]
fn test_process_empty_workflows() {
    let mut db = Database::new();
    process_workflows(&mut db, &Timestamp::now()).unwrap();
}

#[test]
fn test_check_retries_empty() {
    let mut db = Database::new();
    check_retries(&mut db, &Timestamp::now()).unwrap();
}

#[test]
fn test_check_heartbeats_empty() {
    let mut db = Database::new();
    check_heartbeats(&mut db).unwrap().unwrap();
}

#[test]
fn test_engine_event_workflow_created() {
    let mut db = Database::new();
    let run_id = new_id();
    insert_workflow(&mut db, run_id);
    insert_step(&mut db, run_id, 0);

    handle_workflow_created(&mut db, &uuid_to_text(run_id), &Timestamp::now()).unwrap();

    assert_eq!(db.workflows[0].state, WorkflowState::Running);
}

#[test]
fn test_engine_event_step_completed() {
    let mut db = Database::new();
    let run_id = new_id();
    insert_workflow(&mut db, run_id);
    insert_step(&mut db, run_id, 0);
    db.steps[0].state = ActivityState::Completed;

    handle_step_completed(&mut db, &uuid_to_text(run_id), &Timestamp::now()).unwrap();

    assert_eq!(db.workflows[0].state, WorkflowState::Completed);
}

#[test]
fn test_engine_event_retry_due() {
    let mut db = Database::new();
    let run_id = new_id();
    insert_workflow(&mut db, run_id);
    let step_id = insert_step(&mut db, run_id, 0);
    let now = Timestamp::now();
    db.steps[0].state = ActivityState::Retried;
    db.steps[0].next_retry_at = Some(format_datetime(&now.plus(-60).unwrap()));

    handle_retry_due(&mut db, &step_id, &now).unwrap();

    assert_eq!(db.steps[0].state, ActivityState::Pending);
}

#[test]
fn test_broadcast_channel_basic() {
    let (tx, mut rx) = tokio::sync::broadcast::channel::<EngineEvent>(256);

    let event = EngineEvent::WorkflowCreated { run_id: "test-123".to_string() };
    tx.send(event.clone()).unwrap();

    let received = rx.try_recv().unwrap();
    assert!(matches!(received, EngineEvent::WorkflowCreated { .. }));
}

#[test]
fn a_run_follows_its_steps() {
    let mut db = Database::new();
    let run_id = new_id();
    insert_workflow(&mut db, run_id);
    let run = uuid_to_text(run_id);
    assert_eq!(process_single_workflow(&mut db, &run, &at(1_000)), Outlook::Open);
    assert_eq!(db.workflows[0].state, WorkflowState::Running);
    assert_eq!(db.workflows[0].started_at, Some(format_datetime(&at(1_000))));
    for i in 0..3 {
        insert_step(&mut db, run_id, i);
    }
    assert_eq!(process_single_workflow(&mut db, &run, &at(1_001)), Outlook::Ready(0));
    db.steps[0].state = ActivityState::Running;
    assert_eq!(process_single_workflow(&mut db, &run, &at(1_002)), Outlook::Waiting(1));
    db.steps[0].state = ActivityState::Completed;
    assert_eq!(process_single_workflow(&mut db, &run, &at(1_003)), Outlook::Ready(1));
    db.steps[1].state = ActivityState::Failed;
    assert_eq!(process_single_workflow(&mut db, &run, &at(1_004)), Outlook::Waiting(2));
    assert_eq!(workflow_outlook(&db, &run), Outlook::Waiting(2));
    assert_eq!(db.workflows[0].state, WorkflowState::Running);
    assert_eq!(db.workflows[0].completed_at, None);
    db.steps[2].state = ActivityState::Running;
    assert_eq!(process_single_workflow(&mut db, &run, &at(1_005)), Outlook::Failed);
    assert_eq!(db.workflows[0].state, WorkflowState::Failed);
    assert_eq!(db.workflows[0].completed_at, Some(format_datetime(&at(1_005))));
    db.steps[1].state = ActivityState::Completed;
    assert_eq!(process_single_workflow(&mut db, &run, &at(1_006)), Outlook::Open);
    db.steps[2].state = ActivityState::Completed;
    assert_eq!(process_single_workflow(&mut db, &run, &at(1_007)), Outlook::Completed);
    assert_eq!(db.workflows[0].state, WorkflowState::Completed);
    assert_eq!(db.workflows[0].started_at, Some(format_datetime(&at(1_000))));
    assert_eq!(process_single_workflow(&mut db, "nonexistent", &at(1_008)), Outlook::Open);
}

#[test]
fn a_heartbeat_timeout_asks_for_a_retry() {
    let mut db = Database::new();
    let (_, step_id) = running_activity(&mut db, 1, 1_000);
    let now = Timestamp::new(1_050, 250).unwrap();
    assert!(timeout_fits(&db, "activity-1", &now));
    let timers = handle_heartbeat_timeout(&mut db, "activity-1", &now).unwrap();
    assert_eq!(timers.len(), 1);
    match &timers[0] {
        Timer::Retry { step_id: id, at } => {
            assert_eq!(*id, step_id);
            assert_eq!(*at, Timestamp::new(1_052, 250).unwrap());
        }
        _ => panic!("Expected a retry"),
    }
    assert_eq!(db.activities[0].state, ActivityState::Failed);
    assert_eq!(db.steps[0].state, ActivityState::Pending);
    assert!(get_pending_steps_at(&db, &at(1_051)).unwrap().is_empty());
    assert_eq!(get_pending_steps_at(&db, &at(1_052)).unwrap().len(), 1);
    assert!(handle_heartbeat_timeout(&mut db, "activity-1", &now).unwrap().is_empty());
}

#[test]
fn a_heartbeat_timeout_at_the_limit_fails_the_run() {
    let mut db = Database::new();
    running_activity(&mut db, 3, 1_000);
    assert!(handle_heartbeat_timeout(&mut db, "activity-1", &at(1_050)).unwrap().is_empty());
    assert_eq!(db.steps[0].state, ActivityState::Failed);
    assert_eq!(db.workflows[0].state, WorkflowState::Failed);
    assert_eq!(
        handle_heartbeat_timeout(&mut db, "nonexistent", &at(1_050)).unwrap_err(),
        "Query returned no rows"
    );
}

#[test]
fn a_policy_that_cannot_be_read_allows_no_retry() {
    let mut db = Database::new();
    running_activity(&mut db, 1, 1_000);
    db.steps[0].retry_policy = PolicyColumn::Malformed("bad".to_string());
    handle_heartbeat_timeout(&mut db, "activity-1", &at(1_050)).unwrap();
    assert_eq!(db.steps[0].state, ActivityState::Failed);
}

#[test]
fn a_heartbeat_keeps_an_activity_alive() {
    let mut db = Database::new();
    running_activity(&mut db, 1, 1_000);
    heartbeat_update_at(&mut db, "activity-1", &at(1_025)).unwrap();
    check_heartbeats_at(&mut db, &at(1_055)).unwrap();
    assert_eq!(db.activities[0].state, ActivityState::Running);
    check_heartbeats_at(&mut db, &at(1_056)).unwrap();
    assert_eq!(db.activities[0].state, ActivityState::Failed);
}

#[test]
fn a_heartbeat_moves_the_timeout_ahead() {
    let mut db = Database::new();
    running_activity(&mut db, 1, 1_000);
    heartbeat_update_at(&mut db, "activity-1", &at(1_025)).unwrap();
    assert!(timeout_fits(&db, "activity-1", &at(1_030)));
    let timers = handle_heartbeat_timeout(&mut db, "activity-1", &at(1_030)).unwrap();
    assert_eq!(timers.len(), 1);
    match &timers[0] {
        Timer::Heartbeat { activity_id, at: deadline } => {
            assert_eq!(activity_id, "activity-1");
            assert_eq!(*deadline, at(1_055));
        }
        _ => panic!("Expected a heartbeat"),
    }
    assert_eq!(db.activities[0].state, ActivityState::Running);
    assert_eq!(db.steps[0].state, ActivityState::Running);
    handle_heartbeat_timeout(&mut db, "activity-1", &at(1_055)).unwrap();
    assert_eq!(db.activities[0].state, ActivityState::Failed);
}

#[test]
fn times_of_activities_that_cannot_be_read() {
    let mut db = Database::new();
    let (run, _) = running_activity(&mut db, 1, 1_000);
    db.activities[0].started_at = Some("long ago".to_string());
    assert_eq!(
        check_heartbeats_at(&mut db, &at(2_000)).unwrap_err(),
        "Failed to parse datetime: long ago"
    );
    assert!(schedule_timers_for_workflow(&db, &run).unwrap().is_empty());
    db.activities[0].started_at = None;
    check_heartbeats_at(&mut db, &at(2_000)).unwrap();
    assert_eq!(db.activities[0].state, ActivityState::Running);
}

#[test]
fn timers_of_a_run() {
    let mut db = Database::new();
    let (run, step_id) = running_activity(&mut db, 1, 1_000);
    let timers = schedule_timers_for_workflow(&db, &run).unwrap();
    assert_eq!(timers.len(), 1);
    match &timers[0] {
        Timer::Heartbeat { activity_id, at: deadline } => {
            assert_eq!(activity_id, "activity-1");
            assert_eq!(*deadline, at(1_030));
        }
        _ => panic!("Expected a heartbeat"),
    }
    db.steps[0].state = ActivityState::Retried;
    db.steps[0].next_retry_at = Some(format_datetime(&at(1_500)));
    let timers = schedule_timers_for_workflow(&db, &run).unwrap();
    assert_eq!(timers.len(), 2);
    match &timers[0] {
        Timer::Retry { step_id: id, at: due } => {
            assert_eq!(*id, step_id);
            assert_eq!(*due, at(1_500));
        }
        _ => panic!("Expected a retry"),
    }
    db.steps[0].heartbeat_timeout_secs = Some(i64::MAX);
    assert_eq!(
        schedule_timers_for_workflow(&db, &run).unwrap_err(),
        "heartbeat deadline is outside the calendar"
    );
    assert!(schedule_timers_for_workflow(&db, "other").unwrap().is_empty());
}

#[test]
fn timers_wait_for_their_time() {
    assert_eq!(timer_delay(&at(110), &at(100)), (10, 0));
    assert_eq!(timer_delay(&Timestamp::new(110, 5).unwrap(), &at(110)), (0, 5));
    assert_eq!(timer_delay(&at(100), &at(100)), (0, 0));
    assert_eq!(timer_delay(&at(100), &Timestamp::new(100, 1).unwrap()), (0, 1_000_000));
    assert_eq!(timer_delay(&at(100), &at(200)), (0, 1_000_000));
}

#[test]
fn events_are_handled() {
    let mut db = Database::new();
    let run_id = new_id();
    insert_workflow(&mut db, run_id);
    let step_id = insert_step(&mut db, run_id, 0);
    let run = uuid_to_text(run_id);
    handle_event_at(&mut db, &EngineEvent::ScheduleChange, &at(1_000)).unwrap();
    assert_eq!(db.workflows[0].state, WorkflowState::Running);
    assert!(handle_event_at(&mut db, &EngineEvent::RetryDue { step_id: step_id.clone() }, &at(1_000)).unwrap().is_empty());
    assert_eq!(
        handle_event_at(&mut db, &EngineEvent::RetryDue { step_id: "none".to_string() }, &at(1_000)).unwrap_err(),
        "Query returned no rows"
    );
    db.steps[0].state = ActivityState::Completed;
    let event = EngineEvent::StepCompleted { workflow_run_id: run };
    assert!(handle_event(&mut db, &event).unwrap().unwrap().is_empty());
    assert_eq!(db.workflows[0].state, WorkflowState::Completed);
}

#[test]
fn a_retry_beyond_the_calendar_is_not_taken() {
    let mut db = Database::new();
    running_activity(&mut db, 1, 1_000);
    db.steps[0].retry_policy = PolicyColumn::Policy(RetryPolicy {
        maximum_attempts: 3,
        initial_interval_secs: Seconds { bits: 1.0e18f64.to_bits() },
    });
    assert!(!timeout_fits(&db, "activity-1", &at(2_000)));
    let event = EngineEvent::HeartbeatTimeout { activity_id: "activity-1".to_string() };
    assert!(handle_event(&mut db, &event).is_none());
    assert!(timeouts_fit(&db, &at(1_020)));
    assert!(!timeouts_fit(&db, &at(2_000)));
    assert!(check_heartbeats(&mut db).is_none());
    assert_eq!(db.activities[0].state, ActivityState::Running);
}
