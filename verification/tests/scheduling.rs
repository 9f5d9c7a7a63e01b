use khronos::activity::ActivityState;
use khronos::clock::{format_datetime, Timestamp};
use khronos::db::rows::{Database, OverlapColumn, ScheduleRow, SpecType, TimeoutsColumn, WorkflowRow};
use khronos::engine::EngineEvent;
use khronos::queue::{FireQueue, ScheduleEntry};
use khronos::schedule::Timeouts;
use khronos::scheduler::{
    calculate_next_cron_fire, calculate_next_interval_fire, check_interval, check_running_workflow, count_pending_runs, fire_due, fire_due_at, get_last_started,
    next_interval_fire, process_schedule, process_schedule_at, reload_all_schedules, should_fire, sleep_duration,
    start_schedule_workflow_at, terminate_existing, update_schedule_next_fire,
};
use khronos::workflow::WorkflowState;

/// The start of an hour.
const HOUR: i64 = 1_699_999_200;

fn at(secs: i64) -> Timestamp {
    Timestamp::new(secs, 0).unwrap()
}

fn ids() -> Vec<u128> {
    vec![11, 12, 13, 14, 15]
}

fn row(schedule_id: &str, spec_type: SpecType) -> ScheduleRow {
    ScheduleRow {
        schedule_id: schedule_id.to_string(),
        namespace: "default".to_string(),
        spec_type,
        cron_expressions: Some("[\"0 0 * * * *\"]".to_string()),
        interval_seconds: Some(60),
        overlap_policy: OverlapColumn::Skip,
        action_workflow_name: "wf".to_string(),
        action_task_queue: "queue".to_string(),
        action_args_json: "job-1".to_string(),
        action_id: None,
        timeouts: TimeoutsColumn::Timeouts(Timeouts {
            execution_timeout_secs: Some(9),
            run_timeout_secs: None,
            task_timeout_secs: None,
        }),
        created_at: format_datetime(&at(0)),
        updated_at: format_datetime(&at(0)),
    }
}

fn run(db: &mut Database, run_id: &str, workflow_id: &str, state: WorkflowState, started: Option<i64>) {
    db.workflows.push(WorkflowRow {
        run_id: run_id.to_string(),
        workflow_id: workflow_id.to_string(),
        name: "wf".to_string(),
        task_queue: "queue".to_string(),
        state,
        args_json: "{}".to_string(),
        result_json: None,
        execution_timeout_secs: None,
        run_timeout_secs: None,
        task_timeout_secs: None,
        started_at: started.map(|secs| format_datetime(&at(secs))),
        completed_at: None,
        namespace: "default".to_string(),
    });
}

fn entry(secs: i64, schedule_id: &str) -> ScheduleEntry {
    ScheduleEntry { next_fire_time: at(secs), schedule_id: schedule_id.to_string() }
}

// ---- the queue ------------------------------------------------------------------------------

#[test]
fn the_earliest_entry_leaves_first() {
    let mut queue = FireQueue::new();
    assert_eq!(queue.next_fire_time(), None);
    assert!(queue.pop().is_none());
    for (secs, id) in [(30, "c"), (10, "b"), (20, "x"), (10, "a")] {
        queue.push(entry(secs, id));
    }
    assert_eq!(queue.len(), 4);
    assert_eq!(queue.next_fire_time(), Some(at(10)));
    let mut order = Vec::new();
    while let Some(e) = queue.pop() {
        order.push((e.next_fire_time.seconds(), e.schedule_id));
    }
    let expected: Vec<(i64, String)> =
        [(10, "a"), (10, "b"), (20, "x"), (30, "c")].iter().map(|(s, i)| (*s, i.to_string())).collect();
    assert_eq!(order, expected);
}

#[test]
fn due_entries_are_taken() {
    let mut queue = FireQueue::new();
    for (secs, id) in [(30, "c"), (10, "b"), (20, "a")] {
        queue.push(entry(secs, id));
    }
    assert!(queue.take_due(&at(9)).is_empty());
    assert_eq!(queue.take_due(&at(20)), vec!["b", "a"]);
    assert_eq!(queue.len(), 1);
    queue.clear();
    assert_eq!(queue.len(), 0);
    assert!(queue.take_due(&at(100)).is_empty());
}

// ---- times ----------------------------------------------------------------------------------

#[test]
fn the_scheduler_sleeps_until_the_next_fire() {
    assert_eq!(sleep_duration(&None, &at(0)), (31_536_000, 0));
    assert_eq!(sleep_duration(&Some(at(100)), &at(40)), (60, 0));
    assert_eq!(sleep_duration(&Some(at(100)), &at(200)), (0, 500_000_000));
    assert_eq!(sleep_duration(&Some(at(100)), &at(100)), (0, 500_000_000));
    let half = Timestamp::new(99, 400_000_000).unwrap();
    assert_eq!(sleep_duration(&Some(at(100)), &half), (0, 600_000_000));
    let third = Timestamp::new(99, 700_000_000).unwrap();
    assert_eq!(sleep_duration(&Some(at(100)), &third), (0, 500_000_000));
}

#[test]
fn the_last_start_among_own_runs_counts() {
    let mut db = Database::new();
    assert_eq!(get_last_started(&db, "s").unwrap(), None);
    run(&mut db, "1", "schedule:s-00000001", WorkflowState::Completed, Some(200));
    run(&mut db, "2", "schedule:s-00000002", WorkflowState::Completed, Some(100));
    run(&mut db, "3", "schedule:s-00000003", WorkflowState::Completed, None);
    run(&mut db, "4", "schedule:other-00000004", WorkflowState::Completed, Some(300));
    run(&mut db, "5", "schedule:s-s-00000005", WorkflowState::Completed, Some(400));
    run(&mut db, "6", "SCHEDULE:S-00000006", WorkflowState::Completed, Some(500));
    assert_eq!(get_last_started(&db, "s").unwrap(), Some(at(200)));
    db.workflows[0].started_at = Some("x".to_string());
    assert_eq!(get_last_started(&db, "s").unwrap_err(), "Failed to parse datetime: x");
}

#[test]
fn intervals_count_from_the_last_start() {
    assert_eq!(next_interval_fire(&None, 60, &at(500)).unwrap(), Some(at(500)));
    assert_eq!(next_interval_fire(&Some(at(480)), 60, &at(500)).unwrap(), Some(at(540)));
    assert_eq!(next_interval_fire(&Some(at(440)), 60, &at(500)).unwrap(), Some(at(560)));
    let beyond = "next fire time is outside the calendar";
    assert_eq!(next_interval_fire(&Some(at(0)), i64::MAX as u64, &at(0)).unwrap_err(), beyond);
    let mut db = Database::new();
    let mut schedule = row("s", SpecType::Interval);
    assert_eq!(calculate_next_interval_fire(&db, &schedule, &at(500)).unwrap(), Some(at(500)));
    assert!(check_interval(&db, "s", 60, &at(500)).unwrap());
    run(&mut db, "1", "schedule:s-00000001", WorkflowState::Completed, Some(480));
    assert_eq!(calculate_next_interval_fire(&db, &schedule, &at(500)).unwrap(), Some(at(540)));
    assert!(!check_interval(&db, "s", 60, &at(539)).unwrap());
    assert!(check_interval(&db, "s", 60, &at(540)).unwrap());
    assert!(should_fire(&db, &schedule, &at(540)).unwrap());
    schedule.interval_seconds = Some(0);
    assert_eq!(calculate_next_interval_fire(&db, &schedule, &at(500)).unwrap(), None);
    schedule.interval_seconds = None;
    assert_eq!(calculate_next_interval_fire(&db, &schedule, &at(500)).unwrap(), None);
    assert!(!should_fire(&db, &schedule, &at(540)).unwrap());
}

#[test]
fn cron_schedules_fire_at_their_occurrences() {
    let db = Database::new();
    let mut schedule = row("s", SpecType::Cron);
    assert_eq!(calculate_next_cron_fire(&schedule, &at(HOUR)), Some(at(HOUR + 3600)));
    assert!(should_fire(&db, &schedule, &at(HOUR)).unwrap());
    assert!(!should_fire(&db, &schedule, &at(HOUR + 10)).unwrap());
    schedule.cron_expressions = Some("0 0 * * * *".to_string());
    assert_eq!(calculate_next_cron_fire(&schedule, &at(HOUR)), None);
    assert!(!should_fire(&db, &schedule, &at(HOUR)).unwrap());
    schedule.cron_expressions = None;
    assert_eq!(calculate_next_cron_fire(&schedule, &at(HOUR)), None);
}

#[test]
fn the_queue_is_rebuilt_from_the_tables() {
    let mut db = Database::new();
    db.schedules.push(row("cron", SpecType::Cron));
    db.schedules.push(row("interval", SpecType::Interval));
    let mut idle = row("idle", SpecType::Interval);
    idle.interval_seconds = Some(0);
    db.schedules.push(idle);
    let mut queue = FireQueue::new();
    queue.push(entry(5, "old"));
    reload_all_schedules(&db, &mut queue, &at(HOUR)).unwrap();
    assert_eq!(queue.len(), 2);
    assert_eq!(queue.next_fire_time(), Some(at(HOUR)));
    assert_eq!(queue.take_due(&at(HOUR)), vec!["interval"]);
    assert_eq!(queue.next_fire_time(), Some(at(HOUR + 3600)));
    run(&mut db, "1", "schedule:interval-00000001", WorkflowState::Running, Some(HOUR));
    update_schedule_next_fire(&db, "interval", &mut queue, &at(HOUR)).unwrap();
    update_schedule_next_fire(&db, "idle", &mut queue, &at(HOUR)).unwrap();
    update_schedule_next_fire(&db, "gone", &mut queue, &at(HOUR)).unwrap();
    assert_eq!(queue.len(), 2);
    assert_eq!(queue.next_fire_time(), Some(at(HOUR + 60)));
    db.workflows[0].started_at = Some("x".to_string());
    assert!(reload_all_schedules(&db, &mut queue, &at(HOUR)).is_err());
    assert!(update_schedule_next_fire(&db, "interval", &mut queue, &at(HOUR)).is_err());
    assert_eq!(queue.len(), 2);
}

// ---- runs -----------------------------------------------------------------------------------

#[test]
fn running_workflows_of_a_schedule() {
    let mut db = Database::new();
    run(&mut db, "1", "schedule:s-00000001", WorkflowState::Completed, Some(1));
    run(&mut db, "2", "schedule:other-00000002", WorkflowState::Running, Some(1));
    assert!(!check_running_workflow(&db, "s"));
    run(&mut db, "3", "schedule:s-00000003", WorkflowState::Pending, Some(1));
    assert!(check_running_workflow(&db, "s"));
    run(&mut db, "4", "schedule:s-00000004", WorkflowState::Running, Some(1));
    terminate_existing(&mut db, "s", &at(50));
    assert!(!check_running_workflow(&db, "s"));
    let states: Vec<WorkflowState> = db.workflows.iter().map(|w| w.state).collect();
    assert_eq!(
        states,
        vec![
            WorkflowState::Completed,
            WorkflowState::Running,
            WorkflowState::Cancelled,
            WorkflowState::Cancelled
        ]
    );
    assert_eq!(db.workflows[2].completed_at, Some(format_datetime(&at(50))));
    assert_eq!(db.workflows[0].completed_at, None);
}

#[test]
fn runs_of_other_schedules_do_not_count() {
    let mut db = Database::new();
    run(&mut db, "1", "schedule:a-b-12345678", WorkflowState::Running, Some(1));
    assert!(!check_running_workflow(&db, "a"));
    assert!(check_running_workflow(&db, "a-b"));
    assert!(!check_running_workflow(&db, "a_b"));
    assert!(!check_running_workflow(&db, "%"));
    assert!(!check_running_workflow(&db, "A-B"));
    terminate_existing(&mut db, "a", &at(50));
    assert_eq!(db.workflows[0].state, WorkflowState::Running);
    assert_eq!(count_pending_runs(&db, "a-b"), 0);
    db.workflows[0].state = WorkflowState::Pending;
    assert_eq!(count_pending_runs(&db, "a-b"), 1);
    assert_eq!(count_pending_runs(&db, "a"), 0);
}

#[test]
fn arguments_of_a_schedule_reach_the_run() {
    let start = |column: &str| {
        let mut db = Database::new();
        let mut schedule = row("s", SpecType::Interval);
        schedule.action_args_json = column.to_string();
        db.schedules.push(schedule);
        start_schedule_workflow_at(&mut db, 0, 1, &ids(), &at(100)).unwrap();
        (db.workflows[0].args_json.clone(), db.steps[0].args_json.clone())
    };
    let both = |a: &str, b: &str| (a.to_string(), b.to_string());
    assert_eq!(start("{\"k\": \"v\"}"), both("{\"k\":\"v\"}", "\"{\\\"k\\\": \\\"v\\\"}\""));
    assert_eq!(start("{\"job_id\":\"j\"}"), both("{\"job_id\":\"j\"}", "\"j\""));
    assert_eq!(start("{\"lycus_origin_id\":\"o\"}"), both("{\"lycus_origin_id\":\"o\"}", "\"o\""));
    assert_eq!(start("{}"), both("{}", "\"{}\""));
    assert_eq!(start(""), both("{}", "null"));
    assert_eq!(start("plain"), both("{\"job_id\":\"plain\"}", "\"plain\""));
}

#[test]
fn a_schedule_starts_a_run() {
    let mut db = Database::new();
    db.schedules.push(row("s", SpecType::Interval));
    let event = start_schedule_workflow_at(&mut db, 0, 1, &ids(), &at(100)).unwrap();
    match event {
        EngineEvent::WorkflowCreated { run_id } => {
            assert_eq!(run_id, "00000000-0000-0000-0000-000000000001");
        }
        _ => panic!("Expected a created workflow"),
    }
    let started = &db.workflows[0];
    assert_eq!(started.workflow_id, "schedule:s-00000000");
    assert_eq!(started.name, "wf");
    assert_eq!(started.task_queue, "queue");
    assert_eq!(started.args_json, "{\"job_id\":\"job-1\"}");
    assert_eq!(started.execution_timeout_secs, Some(9));
    assert_eq!(started.started_at, Some(format_datetime(&at(100))));
    assert_eq!(started.state, WorkflowState::Pending);
    assert!(!db.steps.is_empty());
    for step in &db.steps {
        assert_eq!(step.args_json, "\"job-1\"");
        assert_eq!(step.state, ActivityState::Pending);
    }
    assert_eq!(
        start_schedule_workflow_at(&mut db, 0, 1, &ids(), &at(100)).unwrap_err(),
        "UNIQUE constraint failed: workflows.run_id"
    );
    assert_eq!(
        start_schedule_workflow_at(&mut db, 0, 2, &ids(), &at(100)).unwrap_err(),
        "UNIQUE constraint failed: workflow_steps.id"
    );
}

#[test]
fn a_schedule_without_a_job_gives_no_arguments() {
    let mut db = Database::new();
    let mut schedule = row("s", SpecType::Interval);
    schedule.action_args_json = "".to_string();
    schedule.timeouts = TimeoutsColumn::Malformed("bad".to_string());
    db.schedules.push(schedule);
    start_schedule_workflow_at(&mut db, 0, 1, &ids(), &at(100)).unwrap();
    assert_eq!(db.workflows[0].args_json, "{}");
    assert_eq!(db.workflows[0].execution_timeout_secs, None);
    assert_eq!(db.steps[0].args_json, "null");
}

#[test]
fn what_is_due_fires_and_is_queued_again() {
    let mut db = Database::new();
    db.schedules.push(row("a", SpecType::Interval));
    db.schedules.push(row("b", SpecType::Interval));
    db.schedules.push(row("later", SpecType::Cron));
    run(&mut db, "x", "schedule:b-00000009", WorkflowState::Running, None);
    let mut queue = FireQueue::new();
    queue.push(entry(HOUR, "a"));
    queue.push(entry(HOUR, "b"));
    queue.push(entry(HOUR - 1, "gone"));
    queue.push(entry(HOUR + 3600, "later"));
    let step_ids: Vec<Vec<u128>> = (0..4u128).map(|i| (0..5u128).map(|j| 100 + 10 * i + j).collect()).collect();
    let fired = fire_due_at(&mut db, &mut queue, &vec![1, 2, 3, 4], &step_ids, &at(HOUR));
    let ids: Vec<&str> = fired.iter().map(|f| f.schedule_id.as_str()).collect();
    assert_eq!(ids, vec!["gone", "a", "b"]);
    assert!(matches!(fired[0].started, Ok(None)));
    assert!(matches!(fired[1].started, Ok(Some(EngineEvent::WorkflowCreated { .. }))));
    assert!(matches!(fired[2].started, Ok(None)));
    assert!(fired.iter().all(|f| f.requeued.is_ok()));
    assert_eq!(db.workflows.len(), 2);
    assert_eq!(queue.len(), 3);
    assert_eq!(queue.next_fire_time(), Some(at(HOUR)));
    assert_eq!(queue.take_due(&at(HOUR)), vec!["b"]);
    assert_eq!(queue.take_due(&at(HOUR + 60)), vec!["a"]);
    let mut idle = FireQueue::new();
    assert!(fire_due(&mut db, &mut idle).is_empty());
}

#[test]
fn overlap_policies() {
    let mut db = Database::new();
    db.schedules.push(row("s", SpecType::Interval));
    assert!(process_schedule_at(&mut db, "gone", 1, &ids(), &at(100)).unwrap().is_none());
    assert!(process_schedule_at(&mut db, "s", 1, &ids(), &at(100)).unwrap().is_some());
    assert!(process_schedule_at(&mut db, "s", 2, &vec![21, 22, 23, 24, 25], &at(159)).unwrap().is_none());
    assert!(process_schedule_at(&mut db, "s", 2, &vec![21, 22, 23, 24, 25], &at(160)).unwrap().is_none());
    assert_eq!(db.workflows.len(), 1);
    db.schedules[0].overlap_policy = OverlapColumn::Buffer(1);
    assert!(process_schedule_at(&mut db, "s", 2, &vec![21, 22, 23, 24, 25], &at(160)).unwrap().is_none());
    db.workflows[0].state = WorkflowState::Running;
    assert!(process_schedule_at(&mut db, "s", 2, &vec![21, 22, 23, 24, 25], &at(160)).unwrap().is_some());
    assert_eq!(db.workflows[0].state, WorkflowState::Running);
    assert_eq!(db.workflows[1].state, WorkflowState::Pending);
    assert!(process_schedule_at(&mut db, "s", 3, &vec![31, 32, 33, 34, 35], &at(220)).unwrap().is_none());
    assert_eq!(db.workflows.len(), 2);
    db.schedules[0].overlap_policy = OverlapColumn::Terminate;
    assert!(process_schedule_at(&mut db, "s", 3, &vec![31, 32, 33, 34, 35], &at(220)).unwrap().is_some());
    let states: Vec<WorkflowState> = db.workflows.iter().map(|w| w.state).collect();
    assert_eq!(
        states,
        vec![WorkflowState::Cancelled, WorkflowState::Cancelled, WorkflowState::Pending]
    );
    db.workflows[2].started_at = Some("x".to_string());
    assert_eq!(
        process_schedule(&mut db, "s").unwrap_err(),
        "Failed to parse datetime: x"
    );
}
