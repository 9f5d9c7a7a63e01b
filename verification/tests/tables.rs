use khronos::activity::{ActivityState, RetryPolicy};
use khronos::clock::{format_datetime, Timestamp};
use khronos::db::activities::{
    get_next_step_for_workflow, get_pending_steps, get_pending_steps_at, get_running_activities, heartbeat_update,
    heartbeat_update_at, insert_activity_attempt, insert_activity_attempt_at, insert_workflow_step,
    insert_workflow_step_at, row_to_step, update_activity_state, update_activity_state_at, update_step_state,
};
use khronos::db::rows::{
    Database, OverlapColumn, PolicyColumn, ScheduleRow, SpecType, TimeoutsColumn, WorkflowRow,
};
use khronos::db::schedules::{
    delete_schedule, get_schedule, insert_schedule, insert_schedule_at, list_schedules, row_to_schedule,
    update_schedule_spec, update_schedule_spec_at,
};
use khronos::db::workflows::{
    cancel_workflow, cancel_workflow_at, get_workflow, insert_workflow, list_workflows, row_to_workflow,
    update_workflow_state,
};
use khronos::ids::uuid_to_text;
use khronos::json::Json;
use khronos::schedule::{Interval, OverlapPolicy, Schedule, ScheduleSpec, Timeouts, WorkflowAction};
use khronos::seconds::Seconds;
use khronos::workflow::{WorkflowInstance, WorkflowState, WorkflowStepInstance};

fn new_id() -> u128 {
    uuid::Uuid::new_v4().as_u128()
}

fn at(secs: i64) -> Timestamp {
    Timestamp::new(secs, 0).unwrap()
}

fn json(text: &str) -> Json {
    Json::parse(text).unwrap()
}

fn make_workflow(run_id: u128) -> WorkflowInstance {
    WorkflowInstance {
        run_id,
        workflow_id: format!("wf-{}", &uuid_to_text(run_id)[..8]),
        name: "test_workflow".to_string(),
        task_queue: "default".to_string(),
        state: WorkflowState::Pending,
        args_json: json("{\"input\": \"data\"}"),
        result_json: None,
        timeouts: Timeouts {
            execution_timeout_secs: Some(3600),
            run_timeout_secs: Some(1800),
            task_timeout_secs: Some(300),
        },
        started_at: None,
        completed_at: None,
        namespace: "default".to_string(),
    }
}

fn insert_parent_workflow(db: &mut Database, run_id: u128) {
    db.workflows.push(WorkflowRow {
        run_id: uuid_to_text(run_id),
        workflow_id: format!("wf-{}", uuid_to_text(run_id)),
        name: "test_wf".to_string(),
        task_queue: "default".to_string(),
        state: WorkflowState::Pending,
        args_json: "{}".to_string(),
        result_json: None,
        execution_timeout_secs: None,
        run_timeout_secs: None,
        task_timeout_secs: None,
        started_at: None,
        completed_at: None,
        namespace: "default".to_string(),
    });
}

fn make_step(workflow_run_id: u128, index: usize) -> WorkflowStepInstance {
    WorkflowStepInstance {
        id: new_id(),
        workflow_run_id,
        step_index: index,
        activity_name: "test_activity".to_string(),
        args_json: json("{\"input\": \"data\"}"),
        retry_policy: RetryPolicy {
            maximum_attempts: 3,
            initial_interval_secs: Seconds { bits: 2.0f64.to_bits() },
        },
        timeout_secs: 60,
        heartbeat_timeout_secs: Some(30),
        state: WorkflowState::Pending,
        attempt: 0,
        result_json: None,
        next_retry_at: None,
    }
}

fn make_cron_schedule(id: &str) -> Schedule {
    let now = Timestamp::now();
    Schedule {
        schedule_id: id.to_string(),
        namespace: "default".to_string(),
        spec: ScheduleSpec::Cron(vec!["0 * * * *".to_string()]),
        action: WorkflowAction {
            workflow_name: "test_wf".to_string(),
            args: Vec::new(),
            task_queue: "default".to_string(),
            id: "action-1".to_string(),
            timeouts: Timeouts::default(),
        },
        policy: OverlapPolicy::Skip,
        created_at: now,
        updated_at: now,
    }
}

fn make_interval_schedule(id: &str) -> Schedule {
    let now = Timestamp::now();
    Schedule {
        schedule_id: id.to_string(),
        namespace: "default".to_string(),
        spec: ScheduleSpec::Interval(Interval { secs: 300, nanos: 0 }),
        action: WorkflowAction {
            workflow_name: "interval_wf".to_string(),
            args: Vec::new(),
            task_queue: "default".to_string(),
            id: "action-2".to_string(),
            timeouts: Timeouts::default(),
        },
        policy: OverlapPolicy::Buffer(5),
        created_at: now,
        updated_at: now,
    }
}

// ---- steps ----------------------------------------------------------------------------------

#[test]
fn test_insert_and_get_step() {
    let mut db = Database::new();
    let run_id = new_id();
    insert_parent_workflow(&mut db, run_id);
    let step = make_step(run_id, 0);
    insert_workflow_step(&mut db, &step).unwrap();

    let result = get_next_step_for_workflow(&db, &uuid_to_text(run_id)).unwrap().expect("Step should exist");
    assert_eq!(result.step_index, 0);
    assert_eq!(result.activity_name, "test_activity");
    assert_eq!(result.state, WorkflowState::Pending);
    assert_eq!(result.id, step.id);
    assert_eq!(result.workflow_run_id, run_id);
    assert_eq!(result.args_json.to_text(), "{\"input\":\"data\"}");
    assert_eq!(result.retry_policy, step.retry_policy);
    assert_eq!(result.timeout_secs, 60);
    assert_eq!(result.heartbeat_timeout_secs, Some(30));
}

#[test]
fn test_get_next_step_returns_lowest_index() {
    let mut db = Database::new();
    let run_id = new_id();
    insert_parent_workflow(&mut db, run_id);

    insert_workflow_step(&mut db, &make_step(run_id, 2)).unwrap();
    insert_workflow_step(&mut db, &make_step(run_id, 0)).unwrap();
    insert_workflow_step(&mut db, &make_step(run_id, 1)).unwrap();

    let result = get_next_step_for_workflow(&db, &uuid_to_text(run_id)).unwrap().expect("Step should exist");
    assert_eq!(result.step_index, 0);
}

#[test]
fn test_get_pending_steps() {
    let mut db = Database::new();
    let run_id1 = new_id();
    insert_parent_workflow(&mut db, run_id1);
    let run_id2 = new_id();
    insert_parent_workflow(&mut db, run_id2);

    insert_workflow_step(&mut db, &make_step(run_id1, 0)).unwrap();
    insert_workflow_step(&mut db, &make_step(run_id2, 0)).unwrap();

    let pending = get_pending_steps(&db).unwrap();
    assert_eq!(pending.len(), 2);
}

#[test]
fn test_update_step_state() {
    let mut db = Database::new();
    let run_id = new_id();
    insert_parent_workflow(&mut db, run_id);
    let step = make_step(run_id, 0);
    insert_workflow_step(&mut db, &step).unwrap();

    update_step_state(&mut db, &uuid_to_text(step.id), WorkflowState::Running, Some(1), None, None).unwrap();

    let result = get_next_step_for_workflow(&db, &uuid_to_text(run_id)).unwrap();
    assert!(result.is_none());
}

#[test]
fn test_update_step_state_with_retry() {
    let mut db = Database::new();
    let run_id = new_id();
    insert_parent_workflow(&mut db, run_id);
    let step = make_step(run_id, 0);
    insert_workflow_step(&mut db, &step).unwrap();

    db.steps[0].state = ActivityState::Pending;
    db.steps[0].attempt = 2;
    db.steps[0].next_retry_at = Some(format_datetime(&Timestamp::now().plus(-60).unwrap()));

    let pending = get_pending_steps(&db).unwrap();
    assert!(pending.iter().any(|s| s.id == step.id));
}

#[test]
fn test_insert_activity_attempt() {
    let mut db = Database::new();
    let run_id = new_id();
    insert_parent_workflow(&mut db, run_id);
    let step = make_step(run_id, 0);
    insert_workflow_step(&mut db, &step).unwrap();

    let activity_id = "activity-1";
    insert_activity_attempt(&mut db, activity_id, &uuid_to_text(step.id), 1).unwrap();

    let running = get_running_activities(&db).unwrap();
    assert_eq!(running.len(), 1);
    assert_eq!(running[0].id, activity_id);
    assert_eq!(running[0].step_id, uuid_to_text(step.id));
    assert_eq!(running[0].workflow_run_id, uuid_to_text(run_id));
    assert_eq!(running[0].activity_name, "test_activity");
    assert_eq!(running[0].attempt, 1);
    assert_eq!(running[0].heartbeat_timeout_secs, Some(30));
    assert!(running[0].started_at_str.is_some());
    assert!(running[0].last_heartbeat_at_str.is_none());
}

#[test]
fn test_update_activity_state() {
    let mut db = Database::new();
    let run_id = new_id();
    insert_parent_workflow(&mut db, run_id);
    let step = make_step(run_id, 0);
    insert_workflow_step(&mut db, &step).unwrap();

    let activity_id = "activity-1";
    insert_activity_attempt(&mut db, activity_id, &uuid_to_text(step.id), 1).unwrap();

    update_activity_state(&mut db, activity_id, ActivityState::Completed, Some(&json("{\"result\": \"ok\"}")), None)
        .unwrap();

    let running = get_running_activities(&db).unwrap();
    assert!(running.is_empty());
}

#[test]
fn test_heartbeat_update() {
    let mut db = Database::new();
    let run_id = new_id();
    insert_parent_workflow(&mut db, run_id);
    let step = make_step(run_id, 0);
    insert_workflow_step(&mut db, &step).unwrap();

    let activity_id = "activity-1";
    insert_activity_attempt(&mut db, activity_id, &uuid_to_text(step.id), 1).unwrap();

    heartbeat_update(&mut db, activity_id).unwrap();
}

#[test]
fn test_heartbeat_nonexistent() {
    let mut db = Database::new();
    assert!(heartbeat_update(&mut db, "nonexistent").is_err());
}

#[test]
fn test_get_running_activities_empty() {
    let db = Database::new();
    let running = get_running_activities(&db).unwrap();
    assert!(running.is_empty());
}

#[test]
fn test_step_completion_with_result() {
    let mut db = Database::new();
    let run_id = new_id();
    insert_parent_workflow(&mut db, run_id);
    let step = make_step(run_id, 0);
    insert_workflow_step(&mut db, &step).unwrap();

    update_step_state(
        &mut db,
        &uuid_to_text(step.id),
        WorkflowState::Completed,
        Some(1),
        Some(&json("{\"output\": \"done\"}")),
        None,
    )
    .unwrap();

    let result = get_next_step_for_workflow(&db, &uuid_to_text(run_id)).unwrap();
    assert!(result.is_none());
    assert_eq!(db.steps[0].result_json.as_deref(), Some("{\"output\":\"done\"}"));
}

#[test]
fn test_multiple_steps_in_workflow() {
    let mut db = Database::new();
    let run_id = new_id();
    insert_parent_workflow(&mut db, run_id);

    for i in 0..3 {
        insert_workflow_step(&mut db, &make_step(run_id, i)).unwrap();
    }

    let pending = get_pending_steps(&db).unwrap();
    assert_eq!(pending.len(), 3);

    update_step_state(&mut db, &uuid_to_text(pending[0].id), WorkflowState::Completed, Some(1), None, None).unwrap();

    let pending = get_pending_steps(&db).unwrap();
    assert_eq!(pending.len(), 2);
}

#[test]
fn steps_are_refused_by_the_rules() {
    let mut db = Database::new();
    let run_id = new_id();
    let step = make_step(run_id, 0);
    assert_eq!(insert_workflow_step(&mut db, &step).unwrap_err(), "FOREIGN KEY constraint failed");
    insert_parent_workflow(&mut db, run_id);
    insert_workflow_step(&mut db, &step).unwrap();
    assert_eq!(
        insert_workflow_step(&mut db, &step).unwrap_err(),
        "UNIQUE constraint failed: workflow_steps.id"
    );
    let mut gone = make_step(run_id, 1);
    gone.state = WorkflowState::Cancelled;
    let refusal = "CHECK constraint failed: state IN ('pending', 'running', 'completed', 'failed', 'retried')";
    assert_eq!(insert_workflow_step(&mut db, &gone).unwrap_err(), refusal);
    assert_eq!(
        update_step_state(&mut db, &uuid_to_text(step.id), WorkflowState::Cancelled, None, None, None).unwrap_err(),
        refusal
    );
    update_step_state(&mut db, "nonexistent", WorkflowState::Cancelled, None, None, None).unwrap();
    assert_eq!(db.steps.len(), 1);
    assert_eq!(db.steps[0].state, ActivityState::Pending);
}

#[test]
fn an_attempt_that_is_not_given_stays() {
    let mut db = Database::new();
    let run_id = new_id();
    insert_parent_workflow(&mut db, run_id);
    let step = make_step(run_id, 0);
    insert_workflow_step_at(&mut db, &step, &at(1_000)).unwrap();
    let id = uuid_to_text(step.id);
    update_step_state(&mut db, &id, WorkflowState::Running, Some(7), None, None).unwrap();
    update_step_state(&mut db, &id, WorkflowState::Pending, None, None, Some(at(2_000))).unwrap();
    assert_eq!(db.steps[0].attempt, 7);
    assert_eq!(db.steps[0].next_retry_at.as_deref(), Some("1970-01-01 00:33:20"));
    assert_eq!(db.steps[0].created_at, "1970-01-01 00:16:40");
}

#[test]
fn steps_are_ready_when_their_time_has_come() {
    let mut db = Database::new();
    let run_id = new_id();
    insert_parent_workflow(&mut db, run_id);
    let late = make_step(run_id, 0);
    let early = make_step(run_id, 1);
    let retry = make_step(run_id, 2);
    insert_workflow_step_at(&mut db, &late, &at(200)).unwrap();
    insert_workflow_step_at(&mut db, &early, &at(100)).unwrap();
    insert_workflow_step_at(&mut db, &retry, &at(100)).unwrap();
    update_step_state(&mut db, &uuid_to_text(retry.id), WorkflowState::Pending, Some(1), None, Some(at(500))).unwrap();
    let before: Vec<u128> = get_pending_steps_at(&db, &at(499)).unwrap().iter().map(|s| s.id).collect();
    assert_eq!(before, vec![early.id, late.id]);
    let after: Vec<u128> = get_pending_steps_at(&db, &at(500)).unwrap().iter().map(|s| s.id).collect();
    assert_eq!(after, vec![early.id, retry.id, late.id]);
}

#[test]
fn a_retried_step_is_ready_when_its_time_has_come() {
    let mut db = Database::new();
    let run_id = new_id();
    insert_parent_workflow(&mut db, run_id);
    let step = make_step(run_id, 0);
    insert_workflow_step_at(&mut db, &step, &at(100)).unwrap();
    db.steps[0].state = ActivityState::Retried;
    assert!(get_pending_steps_at(&db, &at(200)).unwrap().is_empty());
    db.steps[0].next_retry_at = Some(format_datetime(&at(150)));
    assert!(get_pending_steps_at(&db, &at(149)).unwrap().is_empty());
    let ready = get_pending_steps_at(&db, &at(210)).unwrap();
    assert_eq!(ready.len(), 1);
    assert_eq!(ready[0].id, step.id);
    assert_eq!(ready[0].state, WorkflowState::Pending);
    let next = get_next_step_for_workflow(&db, &uuid_to_text(run_id)).unwrap().unwrap();
    assert_eq!(next.id, step.id);
}

#[test]
fn columns_of_steps_that_cannot_be_read() {
    let mut db = Database::new();
    let run_id = new_id();
    insert_parent_workflow(&mut db, run_id);
    insert_workflow_step_at(&mut db, &make_step(run_id, 0), &at(100)).unwrap();
    let row = &mut db.steps[0];
    row.next_retry_at = Some("never".to_string());
    assert_eq!(row_to_step(row).unwrap_err(), "Failed to parse datetime: never");
    row.result_json = Some("[".to_string());
    assert!(row_to_step(row).unwrap_err().starts_with("EOF while parsing"));
    row.retry_policy = PolicyColumn::Malformed("missing field".to_string());
    assert_eq!(row_to_step(row).unwrap_err(), "missing field");
    row.args_json = "nonsense".to_string();
    assert!(row_to_step(row).unwrap_err().starts_with("expected ident"));
    row.workflow_run_id = "w".to_string();
    assert!(row_to_step(row).unwrap_err().starts_with("Invalid workflow_run_id UUID: "));
    row.id = "s".to_string();
    assert!(row_to_step(row).unwrap_err().starts_with("Invalid step ID UUID: "));
}

#[test]
fn attempts_are_refused_by_the_rules() {
    let mut db = Database::new();
    let run_id = new_id();
    insert_parent_workflow(&mut db, run_id);
    let step = make_step(run_id, 0);
    insert_workflow_step(&mut db, &step).unwrap();
    let step_id = uuid_to_text(step.id);
    assert_eq!(
        insert_activity_attempt(&mut db, "a", "nonexistent", 1).unwrap_err(),
        "FOREIGN KEY constraint failed"
    );
    insert_activity_attempt_at(&mut db, "a", &step_id, 1, &at(100)).unwrap();
    assert_eq!(
        insert_activity_attempt(&mut db, "a", &step_id, 2).unwrap_err(),
        "UNIQUE constraint failed: activities.id"
    );
    assert_eq!(
        update_activity_state(&mut db, "a", ActivityState::Retried, None, None).unwrap_err(),
        "CHECK constraint failed: state IN ('pending', 'running', 'completed', 'failed')"
    );
    update_activity_state(&mut db, "b", ActivityState::Retried, None, None).unwrap();
    heartbeat_update_at(&mut db, "a", &at(160)).unwrap();
    assert_eq!(db.activities[0].last_heartbeat_at.as_deref(), Some("1970-01-01 00:02:40"));
    update_activity_state_at(&mut db, "a", ActivityState::Failed, None, Some("broken"), &at(200)).unwrap();
    assert_eq!(db.activities[0].state, ActivityState::Failed);
    assert_eq!(db.activities[0].error_message.as_deref(), Some("broken"));
    assert_eq!(db.activities[0].completed_at.as_deref(), Some("1970-01-01 00:03:20"));
    assert_eq!(
        heartbeat_update_at(&mut db, "a", &at(260)).unwrap_err(),
        "Activity not found or not in running state"
    );
}

// ---- workflows ------------------------------------------------------------------------------

#[test]
fn test_insert_and_get_workflow() {
    let mut db = Database::new();
    let run_id = new_id();
    let wf = make_workflow(run_id);
    insert_workflow(&mut db, &wf).unwrap();

    let result = get_workflow(&db, &uuid_to_text(run_id)).unwrap().expect("Workflow should exist");
    assert_eq!(result.run_id, run_id);
    assert_eq!(result.name, "test_workflow");
    assert_eq!(result.state, WorkflowState::Pending);
}

#[test]
fn workflows_test_get_nonexistent_workflow() {
    let db = Database::new();
    let result = get_workflow(&db, "00000000-0000-0000-0000-000000000000").unwrap();
    assert!(result.is_none());
}

#[test]
fn test_list_workflows_empty() {
    let db = Database::new();
    let workflows = list_workflows(&db, "default", None).unwrap();
    assert!(workflows.is_empty());
}

#[test]
fn test_list_workflows_multiple() {
    let mut db = Database::new();
    insert_workflow(&mut db, &make_workflow(new_id())).unwrap();
    insert_workflow(&mut db, &make_workflow(new_id())).unwrap();

    let workflows = list_workflows(&db, "default", None).unwrap();
    assert_eq!(workflows.len(), 2);
}

#[test]
fn test_list_workflows_state_filter() {
    let mut db = Database::new();
    let mut wf1 = make_workflow(new_id());
    wf1.state = WorkflowState::Pending;
    insert_workflow(&mut db, &wf1).unwrap();

    let mut wf2 = make_workflow(new_id());
    wf2.state = WorkflowState::Running;
    insert_workflow(&mut db, &wf2).unwrap();

    assert_eq!(list_workflows(&db, "default", Some(WorkflowState::Pending)).unwrap().len(), 1);
    assert_eq!(list_workflows(&db, "default", Some(WorkflowState::Running)).unwrap().len(), 1);
    assert_eq!(list_workflows(&db, "default", None).unwrap().len(), 2);
}

#[test]
fn test_update_workflow_state() {
    let mut db = Database::new();
    let run_id = new_id();
    insert_workflow(&mut db, &make_workflow(run_id)).unwrap();

    update_workflow_state(&mut db, &uuid_to_text(run_id), WorkflowState::Running, None, None).unwrap();
    let result = get_workflow(&db, &uuid_to_text(run_id)).unwrap().expect("Workflow should exist");
    assert_eq!(result.state, WorkflowState::Running);

    let completed_at = Timestamp::now();
    update_workflow_state(
        &mut db,
        &uuid_to_text(run_id),
        WorkflowState::Completed,
        Some(&json("{\"output\": \"done\"}")),
        Some(completed_at),
    )
    .unwrap();

    let result = get_workflow(&db, &uuid_to_text(run_id)).unwrap().expect("Workflow should exist");
    assert_eq!(result.state, WorkflowState::Completed);
    assert!(result.result_json.is_some());
    assert!(result.completed_at.is_some());
    assert_eq!(result.completed_at.unwrap().seconds(), completed_at.seconds());
}

#[test]
fn workflows_test_cancel_workflow() {
    let mut db = Database::new();
    let run_id = new_id();
    insert_workflow(&mut db, &make_workflow(run_id)).unwrap();

    cancel_workflow(&mut db, &uuid_to_text(run_id)).unwrap();
    let result = get_workflow(&db, &uuid_to_text(run_id)).unwrap().expect("Workflow should exist");
    assert_eq!(result.state, WorkflowState::Cancelled);
}

#[test]
fn test_cancel_already_completed_workflow() {
    let mut db = Database::new();
    let run_id = new_id();
    let mut wf = make_workflow(run_id);
    wf.state = WorkflowState::Completed;
    insert_workflow(&mut db, &wf).unwrap();

    assert!(cancel_workflow(&mut db, &uuid_to_text(run_id)).is_err());
}

#[test]
fn workflows_test_cancel_nonexistent_workflow() {
    let mut db = Database::new();
    assert!(cancel_workflow(&mut db, "00000000-0000-0000-0000-000000000000").is_err());
}

#[test]
fn test_workflow_namespace_filter() {
    let mut db = Database::new();
    insert_workflow(&mut db, &make_workflow(new_id())).unwrap();

    let mut wf2 = make_workflow(new_id());
    wf2.namespace = "other".to_string();
    insert_workflow(&mut db, &wf2).unwrap();

    assert_eq!(list_workflows(&db, "default", None).unwrap().len(), 1);
    assert_eq!(list_workflows(&db, "other", None).unwrap().len(), 1);
}

#[test]
fn test_workflow_round_trip_with_timeouts() {
    let mut db = Database::new();
    let run_id = new_id();
    let wf = WorkflowInstance {
        run_id,
        workflow_id: "timeout-test".to_string(),
        name: "wf".to_string(),
        task_queue: "default".to_string(),
        state: WorkflowState::Pending,
        args_json: json("{}"),
        result_json: None,
        timeouts: Timeouts {
            execution_timeout_secs: Some(7200),
            run_timeout_secs: Some(3600),
            task_timeout_secs: Some(600),
        },
        started_at: None,
        completed_at: None,
        namespace: "default".to_string(),
    };

    insert_workflow(&mut db, &wf).unwrap();
    let result = get_workflow(&db, &uuid_to_text(run_id)).unwrap().expect("Workflow should exist");

    assert_eq!(result.timeouts.execution_timeout_secs, Some(7200));
    assert_eq!(result.timeouts.run_timeout_secs, Some(3600));
    assert_eq!(result.timeouts.task_timeout_secs, Some(600));
}

#[test]
fn a_workflow_reads_back_to_the_second() {
    let mut db = Database::new();
    let run_id = new_id();
    let mut wf = make_workflow(run_id);
    wf.started_at = Timestamp::new(1_700_000_000, 500);
    wf.completed_at = Timestamp::new(1_700_000_060, 999_999_999);
    wf.result_json = Some(json("[1, \"two\", null]"));
    wf.timeouts.run_timeout_secs = Some(u64::MAX);
    insert_workflow(&mut db, &wf).unwrap();
    let result = get_workflow(&db, &uuid_to_text(run_id)).unwrap().unwrap();
    assert_eq!(result.workflow_id, wf.workflow_id);
    assert_eq!(result.task_queue, "default");
    assert_eq!(result.args_json.to_text(), "{\"input\":\"data\"}");
    assert_eq!(result.result_json.unwrap().to_text(), "[1,\"two\",null]");
    assert_eq!(result.started_at, Timestamp::new(1_700_000_000, 0));
    assert_eq!(result.completed_at, Timestamp::new(1_700_000_060, 0));
    assert_eq!(result.timeouts, wf.timeouts);
    assert_eq!(
        insert_workflow(&mut db, &wf).unwrap_err(),
        "UNIQUE constraint failed: workflows.run_id"
    );
}

#[test]
fn workflows_are_listed_latest_first() {
    let mut db = Database::new();
    let mut ids = Vec::new();
    for started in [Some(100), None, Some(300), Some(100), Some(200)] {
        let run_id = new_id();
        let mut wf = make_workflow(run_id);
        wf.started_at = started.map(at);
        insert_workflow(&mut db, &wf).unwrap();
        ids.push(run_id);
    }
    let listed: Vec<u128> = list_workflows(&db, "default", None).unwrap().iter().map(|wf| wf.run_id).collect();
    assert_eq!(listed, vec![ids[2], ids[4], ids[0], ids[3], ids[1]]);
}

#[test]
fn a_run_is_cancelled_once() {
    let mut db = Database::new();
    let run_id = new_id();
    let other = new_id();
    insert_workflow(&mut db, &make_workflow(run_id)).unwrap();
    insert_workflow(&mut db, &make_workflow(other)).unwrap();
    cancel_workflow_at(&mut db, &uuid_to_text(run_id), &at(1_000)).unwrap();
    assert_eq!(
        cancel_workflow_at(&mut db, &uuid_to_text(run_id), &at(2_000)).unwrap_err(),
        "Workflow not found or already in terminal state"
    );
    let result = get_workflow(&db, &uuid_to_text(run_id)).unwrap().unwrap();
    assert_eq!(result.completed_at, Some(at(1_000)));
    assert_eq!(get_workflow(&db, &uuid_to_text(other)).unwrap().unwrap().state, WorkflowState::Pending);
}

#[test]
fn columns_of_workflows_that_cannot_be_read() {
    let mut db = Database::new();
    let run_id = new_id();
    insert_workflow(&mut db, &make_workflow(run_id)).unwrap();
    let row = &mut db.workflows[0];
    row.completed_at = Some("later".to_string());
    assert_eq!(row_to_workflow(row).unwrap_err(), "Failed to parse datetime: later");
    row.started_at = Some("sooner".to_string());
    assert_eq!(row_to_workflow(row).unwrap_err(), "Failed to parse datetime: sooner");
    row.result_json = Some("".to_string());
    assert!(row_to_workflow(row).unwrap_err().starts_with("EOF while parsing"));
    row.args_json = "{".to_string();
    assert!(row_to_workflow(row).unwrap_err().starts_with("EOF while parsing"));
    row.run_id = "x".to_string();
    assert!(row_to_workflow(row).unwrap_err().starts_with("Invalid run_id UUID: "));
    assert!(list_workflows(&db, "default", None).is_err());
    assert!(list_workflows(&db, "other", None).unwrap().is_empty());
}

// ---- schedules ------------------------------------------------------------------------------

#[test]
fn test_insert_and_get_cron_schedule() {
    let mut db = Database::new();
    let schedule = make_cron_schedule("cron-1");
    insert_schedule(&mut db, &schedule).unwrap();

    let result = get_schedule(&db, "cron-1").unwrap().expect("Schedule should exist");
    assert_eq!(result.schedule_id, "cron-1");
    assert_eq!(result.namespace, "default");
    match result.spec {
        ScheduleSpec::Cron(exprs) => {
            assert_eq!(exprs.len(), 1);
            assert_eq!(exprs[0], "0 * * * *");
        }
        _ => panic!("Expected Cron spec"),
    }
}

#[test]
fn test_insert_and_get_interval_schedule() {
    let mut db = Database::new();
    let schedule = make_interval_schedule("interval-1");
    insert_schedule(&mut db, &schedule).unwrap();

    let result = get_schedule(&db, "interval-1").unwrap().expect("Schedule should exist");
    assert_eq!(result.schedule_id, "interval-1");
    match result.spec {
        ScheduleSpec::Interval(dur) => assert_eq!(dur.secs, 300),
        _ => panic!("Expected Interval spec"),
    }
}

#[test]
fn test_get_nonexistent_schedule() {
    let db = Database::new();
    let result = get_schedule(&db, "nonexistent").unwrap();
    assert!(result.is_none());
}

#[test]
fn schedules_test_list_schedules_empty() {
    let db = Database::new();
    let schedules = list_schedules(&db, "default").unwrap();
    assert!(schedules.is_empty());
}

#[test]
fn test_list_schedules_multiple() {
    let mut db = Database::new();
    insert_schedule(&mut db, &make_cron_schedule("cron-1")).unwrap();
    insert_schedule(&mut db, &make_interval_schedule("interval-1")).unwrap();

    let schedules = list_schedules(&db, "default").unwrap();
    assert_eq!(schedules.len(), 2);
}

#[test]
fn test_list_schedules_namespace_filter() {
    let mut db = Database::new();
    insert_schedule(&mut db, &make_cron_schedule("cron-1")).unwrap();

    let mut ns_schedule = make_interval_schedule("interval-ns");
    ns_schedule.namespace = "other".to_string();
    insert_schedule(&mut db, &ns_schedule).unwrap();

    assert_eq!(list_schedules(&db, "default").unwrap().len(), 1);
    assert_eq!(list_schedules(&db, "other").unwrap().len(), 1);
}

#[test]
fn test_update_schedule_spec() {
    let mut db = Database::new();
    let schedule = make_cron_schedule("update-test");
    insert_schedule(&mut db, &schedule).unwrap();

    let mut updated = schedule.clone();
    updated.spec = ScheduleSpec::Interval(Interval { secs: 600, nanos: 0 });
    update_schedule_spec(&mut db, "update-test", "default", &updated).unwrap();

    let result = get_schedule(&db, "update-test").unwrap().expect("Schedule should exist");
    match result.spec {
        ScheduleSpec::Interval(dur) => assert_eq!(dur.secs, 600),
        _ => panic!("Expected Interval spec after update"),
    }
}

#[test]
fn schedules_test_delete_schedule() {
    let mut db = Database::new();
    insert_schedule(&mut db, &make_cron_schedule("delete-test")).unwrap();

    assert!(get_schedule(&db, "delete-test").unwrap().is_some());

    let rows = delete_schedule(&mut db, "delete-test", "default").unwrap();
    assert_eq!(rows, 1);

    assert!(get_schedule(&db, "delete-test").unwrap().is_none());
}

#[test]
fn schedules_test_delete_nonexistent_schedule() {
    let mut db = Database::new();
    let rows = delete_schedule(&mut db, "nonexistent", "default").unwrap();
    assert_eq!(rows, 0);
}

#[test]
fn test_schedule_with_args_round_trip() {
    let mut db = Database::new();
    let args = vec![
        ("key1".to_string(), "val1".to_string()),
        ("key2".to_string(), "val2".to_string()),
    ];

    let schedule = Schedule {
        schedule_id: "args-test".to_string(),
        namespace: "default".to_string(),
        spec: ScheduleSpec::Cron(vec!["*/5 * * * *".to_string()]),
        action: WorkflowAction {
            workflow_name: "wf_with_args".to_string(),
            args: args.clone(),
            task_queue: "workers".to_string(),
            id: "action-args".to_string(),
            timeouts: Timeouts {
                execution_timeout_secs: Some(3600),
                run_timeout_secs: None,
                task_timeout_secs: Some(300),
            },
        },
        policy: OverlapPolicy::TerminateExisting,
        created_at: Timestamp::now(),
        updated_at: Timestamp::now(),
    };

    insert_schedule(&mut db, &schedule).unwrap();
    let result = get_schedule(&db, "args-test").unwrap().expect("Schedule should exist");

    assert_eq!(result.action.args, args);
    assert_eq!(result.action.timeouts.execution_timeout_secs, Some(3600));
    assert_eq!(result.action.timeouts, schedule.action.timeouts);
    assert_eq!(result.action.workflow_name, "wf_with_args");
    assert_eq!(result.action.task_queue, "workers");
    assert_eq!(result.action.id, "action-args");
    assert_eq!(result.policy, OverlapPolicy::TerminateExisting);
}

#[test]
fn a_schedule_reads_back_in_whole_seconds() {
    let mut db = Database::new();
    let mut schedule = make_interval_schedule("kept");
    schedule.spec = ScheduleSpec::Interval(Interval { secs: u64::MAX, nanos: 500 });
    insert_schedule_at(&mut db, &schedule, &Timestamp::new(1_000, 7).unwrap()).unwrap();
    let result = get_schedule(&db, "kept").unwrap().unwrap();
    match result.spec {
        ScheduleSpec::Interval(dur) => assert_eq!(dur, Interval { secs: u64::MAX, nanos: 0 }),
        _ => panic!("Expected Interval spec"),
    }
    assert_eq!(result.policy, OverlapPolicy::Buffer(5));
    assert_eq!(result.created_at, at(1_000));
    assert_eq!(result.updated_at, at(1_000));
    schedule.namespace = "other".to_string();
    assert_eq!(
        insert_schedule_at(&mut db, &schedule, &at(1_000)).unwrap_err(),
        "UNIQUE constraint failed: schedules.schedule_id"
    );
}

#[test]
fn a_schedule_changes_only_in_its_namespace() {
    let mut db = Database::new();
    insert_schedule_at(&mut db, &make_cron_schedule("s"), &at(1_000)).unwrap();
    let mut updated = make_interval_schedule("renamed");
    updated.namespace = "elsewhere".to_string();
    update_schedule_spec_at(&mut db, "s", "other", &updated, &at(2_000)).unwrap();
    assert_eq!(db.schedules[0].updated_at, format_datetime(&at(1_000)));
    update_schedule_spec_at(&mut db, "s", "default", &updated, &at(2_000)).unwrap();
    assert_eq!(db.schedules[0].schedule_id, "s");
    assert_eq!(db.schedules[0].namespace, "default");
    assert_eq!(db.schedules[0].created_at, format_datetime(&at(1_000)));
    assert_eq!(db.schedules[0].updated_at, format_datetime(&at(2_000)));
    assert_eq!(db.schedules[0].spec_type, SpecType::Interval);
    assert_eq!(db.schedules[0].cron_expressions, None);
    assert_eq!(db.schedules[0].interval_seconds, Some(300));
    assert_eq!(db.schedules[0].overlap_policy, OverlapColumn::Buffer(5));
    assert_eq!(db.schedules[0].action_workflow_name, "interval_wf");
    assert_eq!(delete_schedule(&mut db, "s", "other").unwrap(), 0);
    assert_eq!(delete_schedule(&mut db, "s", "default").unwrap(), 1);
}

#[test]
fn schedules_are_listed_in_the_order_of_creation() {
    let mut db = Database::new();
    for (id, secs) in [("c", 300), ("a", 100), ("b", 100)] {
        insert_schedule_at(&mut db, &make_cron_schedule(id), &at(secs)).unwrap();
    }
    let ids: Vec<String> = list_schedules(&db, "default").unwrap().into_iter().map(|s| s.schedule_id).collect();
    assert_eq!(ids, vec!["a", "b", "c"]);
    delete_schedule(&mut db, "b", "default").unwrap();
    let ids: Vec<String> = list_schedules(&db, "default").unwrap().into_iter().map(|s| s.schedule_id).collect();
    assert_eq!(ids, vec!["a", "c"]);
}

#[test]
fn columns_of_schedules_that_cannot_be_read() {
    let mut row = ScheduleRow {
        schedule_id: "s".to_string(),
        namespace: "default".to_string(),
        spec_type: SpecType::Cron,
        cron_expressions: None,
        interval_seconds: None,
        overlap_policy: OverlapColumn::Terminate,
        action_workflow_name: "wf".to_string(),
        action_task_queue: "q".to_string(),
        action_args_json: "{}".to_string(),
        action_id: None,
        timeouts: TimeoutsColumn::Timeouts(Timeouts::default()),
        created_at: "1970-01-01 00:00:00".to_string(),
        updated_at: "1970-01-01 00:00:00".to_string(),
    };
    let schedule = row_to_schedule(&row).unwrap();
    assert_eq!(schedule.action.id, "");
    match schedule.spec {
        ScheduleSpec::Cron(list) => assert!(list.is_empty()),
        _ => panic!("Expected Cron spec"),
    }
    row.spec_type = SpecType::Interval;
    match row_to_schedule(&row).unwrap().spec {
        ScheduleSpec::Interval(interval) => assert_eq!(interval, Interval { secs: 0, nanos: 0 }),
        _ => panic!("Expected Interval spec"),
    }
    row.updated_at = "then".to_string();
    assert_eq!(row_to_schedule(&row).unwrap_err(), "Failed to parse datetime: then");
    row.created_at = "now".to_string();
    assert_eq!(row_to_schedule(&row).unwrap_err(), "Failed to parse datetime: now");
    row.timeouts = TimeoutsColumn::Malformed("no timeouts".to_string());
    assert_eq!(row_to_schedule(&row).unwrap_err(), "no timeouts");
    row.action_args_json = "job-1".to_string();
    assert!(row_to_schedule(&row).unwrap_err().starts_with("expected value"));
    row.spec_type = SpecType::Cron;
    row.cron_expressions = Some("0 * * * *".to_string());
    assert!(row_to_schedule(&row).unwrap_err().contains("expected"));
}
