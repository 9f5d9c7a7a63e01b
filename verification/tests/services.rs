use khronos::activity::{ActivityState, ActivityTask, RetryPolicy};
use khronos::clock::{format_datetime, Timestamp};
use khronos::db::rows::{Database, PolicyColumn, TimeoutsColumn};
use khronos::engine::{handle_event_at, EngineEvent};
use khronos::schedule::{Interval, OverlapPolicy, ScheduleSpec, Timeouts};
use khronos::seconds::Seconds;
use khronos::service::schedules::{
    create_schedule, create_schedule_at, delete_schedule, list_schedules, overlap_policy_to_proto,
    schedule_spec_to_proto, update_schedule, ActionMessage, CreateScheduleRequest, SpecMessage, TimeoutsMessage,
    UpdateScheduleRequest,
};
use khronos::service::status::{Code, Status};
use khronos::service::worker::{
    failure_fits, has_attempt_left, heartbeat, heartbeat_at, poll_activity, poll_activity_at,
    report_activity_failure, report_activity_failure_at, report_activity_result, report_activity_result_at,
};
use khronos::service::workflows::{
    cancel_workflow, cancel_workflow_request_at, get_workflow, list_workflows, start_workflow, start_workflow_at,
    StartWorkflowRequest,
};
use khronos::workflow::WorkflowState;

const NIL: &str = "00000000-0000-0000-0000-000000000000";

fn at(secs: i64) -> Timestamp {
    Timestamp::new(secs, 0).unwrap()
}

fn cron_spec() -> SpecMessage {
    SpecMessage {
        spec_type: "cron".to_string(),
        cron_expressions: vec!["0 * * * *".to_string()],
        interval_seconds: None,
    }
}

fn interval_spec(seconds: u64) -> SpecMessage {
    SpecMessage {
        spec_type: "interval".to_string(),
        cron_expressions: vec![],
        interval_seconds: Some(seconds),
    }
}

fn action(workflow_name: &str, task_queue: &str, id: &str) -> ActionMessage {
    ActionMessage {
        workflow_name: workflow_name.to_string(),
        args: Vec::new(),
        task_queue: task_queue.to_string(),
        id: id.to_string(),
        timeouts: None,
    }
}

fn cron_request(schedule_id: &str) -> CreateScheduleRequest {
    CreateScheduleRequest {
        schedule_id: schedule_id.to_string(),
        namespace: "default".to_string(),
        spec: Some(cron_spec()),
        action: Some(action("wf", "default", "action-1")),
        policy: None,
    }
}

fn start_request(workflow_name: &str) -> StartWorkflowRequest {
    StartWorkflowRequest {
        workflow_name: workflow_name.to_string(),
        args: Vec::new(),
        workflow_id: "".to_string(),
        task_queue: "default".to_string(),
        timeouts: None,
        namespace: "default".to_string(),
    }
}

fn poll(db: &mut Database, activity_type: &str) -> Option<ActivityTask> {
    poll_activity(db, "default", &vec![activity_type.to_string()]).unwrap().unwrap()
}

fn refused<T>(r: Result<T, Status>, code: Code, message: &str) {
    match r {
        Ok(_) => panic!("Expected a refusal"),
        Err(status) => {
            assert_eq!(status.code, code);
            assert_eq!(status.message, message);
        }
    }
}

// ---- schedules ------------------------------------------------------------------------------

#[test]
fn test_create_schedule_cron() {
    let mut db = Database::new();
    let request = CreateScheduleRequest {
        schedule_id: "cron-schedule-1".to_string(),
        namespace: "default".to_string(),
        spec: Some(cron_spec()),
        action: Some(action("test_workflow", "default", "action-1")),
        policy: Some("skip".to_string()),
    };
    let (schedule_id, event) = create_schedule(&mut db, request).unwrap();
    assert_eq!(schedule_id, "cron-schedule-1");
    assert!(matches!(event, EngineEvent::ScheduleChange));
}

#[test]
fn test_create_schedule_interval() {
    let mut db = Database::new();
    let request = CreateScheduleRequest {
        schedule_id: "interval-schedule-1".to_string(),
        namespace: "default".to_string(),
        spec: Some(interval_spec(300)),
        action: Some(action("cleanup_workflow", "maintenance", "action-cleanup")),
        policy: Some("buffer".to_string()),
    };
    let (schedule_id, _) = create_schedule(&mut db, request).unwrap();
    assert_eq!(schedule_id, "interval-schedule-1");
}

#[test]
fn test_create_schedule_missing_spec() {
    let mut db = Database::new();
    let request = CreateScheduleRequest {
        schedule_id: "bad-schedule".to_string(),
        namespace: "default".to_string(),
        spec: None,
        action: Some(action("wf", "default", "")),
        policy: None,
    };
    refused(create_schedule(&mut db, request), Code::InvalidArgument, "spec is required");
}

#[test]
fn test_create_schedule_missing_action() {
    let mut db = Database::new();
    let request = CreateScheduleRequest {
        schedule_id: "bad-schedule".to_string(),
        namespace: "default".to_string(),
        spec: Some(cron_spec()),
        action: None,
        policy: None,
    };
    refused(create_schedule(&mut db, request), Code::InvalidArgument, "action is required");
}

#[test]
fn test_create_schedule_invalid_spec_type() {
    let mut db = Database::new();
    let request = CreateScheduleRequest {
        schedule_id: "bad-schedule".to_string(),
        namespace: "default".to_string(),
        spec: Some(SpecMessage {
            spec_type: "invalid_type".to_string(),
            cron_expressions: vec![],
            interval_seconds: None,
        }),
        action: Some(action("wf", "default", "")),
        policy: None,
    };
    refused(create_schedule(&mut db, request), Code::InvalidArgument, "unknown spec_type: invalid_type");
}

#[test]
fn integration_tests_test_list_schedules_empty() {
    let db = Database::new();
    assert!(list_schedules(&db, "default").unwrap().is_empty());
}

#[test]
fn test_list_schedules_after_create() {
    let mut db = Database::new();
    create_schedule(&mut db, cron_request("list-test")).unwrap();
    assert_eq!(list_schedules(&db, "default").unwrap().len(), 1);
}

#[test]
fn test_update_schedule() {
    let mut db = Database::new();
    create_schedule(&mut db, cron_request("update-test")).unwrap();
    let update = UpdateScheduleRequest {
        schedule_id: "update-test".to_string(),
        namespace: "default".to_string(),
        spec: Some(interval_spec(600)),
    };
    let (success, event) = update_schedule(&mut db, update).unwrap();
    assert!(success);
    assert!(matches!(event, EngineEvent::ScheduleChange));
    let listed = list_schedules(&db, "default").unwrap();
    assert_eq!(listed[0].spec.spec_type, "interval");
    assert_eq!(listed[0].spec.interval_seconds, Some(600));
}

#[test]
fn test_update_nonexistent_schedule() {
    let mut db = Database::new();
    let update = UpdateScheduleRequest {
        schedule_id: "nonexistent".to_string(),
        namespace: "default".to_string(),
        spec: Some(cron_spec()),
    };
    refused(update_schedule(&mut db, update), Code::NotFound, "Schedule not found");
}

#[test]
fn integration_tests_test_delete_schedule() {
    let mut db = Database::new();
    create_schedule(&mut db, cron_request("delete-test")).unwrap();
    let (success, _) = delete_schedule(&mut db, "delete-test", "default").unwrap();
    assert!(success);
    assert!(list_schedules(&db, "default").unwrap().is_empty());
}

#[test]
fn integration_tests_test_delete_nonexistent_schedule() {
    let mut db = Database::new();
    let (success, _) = delete_schedule(&mut db, "nonexistent", "default").unwrap();
    assert!(!success);
}

#[test]
fn requests_for_schedules_that_are_refused() {
    let mut db = Database::new();
    let mut request = cron_request("s");
    request.policy = Some("queue".to_string());
    refused(create_schedule(&mut db, request), Code::InvalidArgument, "unknown policy: queue");
    let mut request = cron_request("s");
    request.spec = Some(SpecMessage {
        spec_type: "interval".to_string(),
        cron_expressions: vec![],
        interval_seconds: None,
    });
    refused(
        create_schedule(&mut db, request),
        Code::InvalidArgument,
        "interval seconds required for interval spec",
    );
    assert!(db.schedules.is_empty());
    create_schedule(&mut db, cron_request("s")).unwrap();
    refused(
        create_schedule(&mut db, cron_request("s")),
        Code::Internal,
        "Failed to create schedule: UNIQUE constraint failed: schedules.schedule_id",
    );
    let update = |spec: Option<SpecMessage>| UpdateScheduleRequest {
        schedule_id: "s".to_string(),
        namespace: "default".to_string(),
        spec,
    };
    refused(update_schedule(&mut db, update(None)), Code::InvalidArgument, "spec is required");
    let unknown = SpecMessage {
        spec_type: "hourly".to_string(),
        cron_expressions: vec![],
        interval_seconds: None,
    };
    refused(
        update_schedule(&mut db, update(Some(unknown))),
        Code::InvalidArgument,
        "unknown spec_type: hourly",
    );
    db.schedules[0].timeouts = TimeoutsColumn::Malformed("no timeouts".to_string());
    refused(
        update_schedule(&mut db, update(Some(cron_spec()))),
        Code::Internal,
        "Failed to get schedule: no timeouts",
    );
    refused(list_schedules(&db, "default"), Code::Internal, "Failed to list schedules: no timeouts");
}

#[test]
fn a_created_schedule_is_told_of() {
    let mut db = Database::new();
    let request = CreateScheduleRequest {
        schedule_id: "s".to_string(),
        namespace: "default".to_string(),
        spec: Some(interval_spec(90)),
        action: Some(ActionMessage {
            workflow_name: "wf".to_string(),
            args: vec![
                ("a".to_string(), "1".to_string()),
                ("b".to_string(), "\"two\"".to_string()),
            ],
            task_queue: "queue".to_string(),
            id: "id".to_string(),
            timeouts: Some(TimeoutsMessage {
                execution_timeout_secs: 0,
                run_timeout_secs: 20,
                task_timeout_secs: 30,
            }),
        }),
        policy: Some("terminate".to_string()),
    };
    create_schedule_at(&mut db, request, &at(1_000)).unwrap();
    let listed = list_schedules(&db, "").unwrap();
    assert_eq!(listed.len(), 1);
    let info = &listed[0];
    assert_eq!(info.schedule_id, "s");
    assert_eq!(info.namespace, "default");
    assert_eq!(info.spec.spec_type, "interval");
    assert!(info.spec.cron_expressions.is_empty());
    assert_eq!(info.spec.interval_seconds, Some(90));
    assert_eq!(info.action.workflow_name, "wf");
    assert_eq!(info.action.args.len(), 2);
    assert_eq!(info.action.args[1], ("b".to_string(), "\"two\"".to_string()));
    assert_eq!(info.action.task_queue, "queue");
    assert_eq!(info.action.id, "id");
    let timeouts = TimeoutsMessage { execution_timeout_secs: 0, run_timeout_secs: 20, task_timeout_secs: 30 };
    assert_eq!(info.action.timeouts, Some(timeouts));
    assert_eq!(info.policy, "terminate");
    assert_eq!(info.created_at, "1970-01-01 00:16:40");
    match &db.schedules[0].timeouts {
        TimeoutsColumn::Timeouts(t) => assert_eq!(
            *t,
            Timeouts { execution_timeout_secs: None, run_timeout_secs: Some(20), task_timeout_secs: Some(30) }
        ),
        TimeoutsColumn::Malformed(_) => panic!("Expected timeouts"),
    }
}

#[test]
fn an_update_in_another_namespace_changes_nothing() {
    let mut db = Database::new();
    create_schedule_at(&mut db, cron_request("s"), &at(1_000)).unwrap();
    let update = UpdateScheduleRequest {
        schedule_id: "s".to_string(),
        namespace: "other".to_string(),
        spec: Some(interval_spec(5)),
    };
    assert!(update_schedule(&mut db, update).unwrap().0);
    assert_eq!(list_schedules(&db, "default").unwrap()[0].spec.spec_type, "cron");
}

#[test]
fn triggers_and_policies_as_messages() {
    let cron = schedule_spec_to_proto(&ScheduleSpec::Cron(vec!["* * * * *".to_string()]));
    assert_eq!(cron.spec_type, "cron");
    assert_eq!(cron.cron_expressions, vec!["* * * * *"]);
    assert_eq!(cron.interval_seconds, None);
    let interval = schedule_spec_to_proto(&ScheduleSpec::Interval(Interval { secs: 7, nanos: 1 }));
    assert_eq!(interval.interval_seconds, Some(7));
    assert_eq!(overlap_policy_to_proto(&OverlapPolicy::Skip), "skip");
    assert_eq!(overlap_policy_to_proto(&OverlapPolicy::Buffer(9)), "buffer");
    assert_eq!(overlap_policy_to_proto(&OverlapPolicy::TerminateExisting), "terminate");
}

// ---- workflows ------------------------------------------------------------------------------

#[test]
fn test_start_workflow() {
    let mut db = Database::new();
    let (run_id, _) = start_workflow(&mut db, &start_request("my_workflow")).unwrap();
    assert!(!run_id.is_empty());
}

#[test]
fn test_start_workflow_with_args() {
    let mut db = Database::new();
    let request = StartWorkflowRequest {
        workflow_name: "my_workflow".to_string(),
        args: vec![
            ("input".to_string(), "data".to_string()),
            ("mode".to_string(), "fast".to_string()),
        ],
        workflow_id: "custom-wf-id".to_string(),
        task_queue: "workers".to_string(),
        timeouts: Some(TimeoutsMessage {
            execution_timeout_secs: 3600,
            run_timeout_secs: 1800,
            task_timeout_secs: 300,
        }),
        namespace: "default".to_string(),
    };
    let (run_id, _) = start_workflow(&mut db, &request).unwrap();
    assert!(!run_id.is_empty());
    let info = get_workflow(&db, &run_id).unwrap();
    assert_eq!(info.workflow_id, "custom-wf-id");
    assert_eq!(info.args, request.args);
    assert_eq!(db.workflows[0].execution_timeout_secs, Some(3600));
    assert_eq!(db.workflows[0].run_timeout_secs, Some(1800));
    assert_eq!(db.workflows[0].task_timeout_secs, Some(300));
    assert_eq!(db.workflows[0].task_queue, "workers");
}

#[test]
fn test_get_workflow() {
    let mut db = Database::new();
    let (run_id, _) = start_workflow(&mut db, &start_request("my_workflow")).unwrap();
    let info = get_workflow(&db, &run_id).unwrap();
    assert_eq!(info.workflow_run_id, run_id);
}

#[test]
fn integration_tests_test_get_nonexistent_workflow() {
    let db = Database::new();
    refused(get_workflow(&db, NIL), Code::NotFound, "Workflow not found");
}

#[test]
fn test_list_workflows() {
    let mut db = Database::new();
    for _ in 0..2 {
        start_workflow(&mut db, &start_request("my_workflow")).unwrap();
    }
    assert_eq!(list_workflows(&db, "default").unwrap().len(), 2);
}

#[test]
fn integration_tests_test_cancel_workflow() {
    let mut db = Database::new();
    let (run_id, _) = start_workflow(&mut db, &start_request("my_workflow")).unwrap();
    assert!(cancel_workflow(&mut db, &run_id).unwrap());
    let info = get_workflow(&db, &run_id).unwrap();
    assert_eq!(info.state, "cancelled");
}

#[test]
fn integration_tests_test_cancel_nonexistent_workflow() {
    let mut db = Database::new();
    assert!(cancel_workflow(&mut db, NIL).is_err());
}

#[test]
fn a_started_run_is_told_of() {
    let mut db = Database::new();
    let mut request = start_request("my_workflow");
    request.task_queue = "".to_string();
    request.namespace = "".to_string();
    let ids: Vec<u128> = vec![11, 12, 13, 14, 15];
    let run = 0x0123_4567_89ab_cdef_0123_4567_89ab_cdefu128;
    let (run_id, event) = start_workflow_at(&mut db, &request, run, &ids, &at(1_000)).unwrap();
    assert_eq!(run_id, "01234567-89ab-cdef-0123-456789abcdef");
    match event {
        EngineEvent::WorkflowCreated { run_id: told } => assert_eq!(told, run_id),
        _ => panic!("Expected a created workflow"),
    }
    let info = get_workflow(&db, &run_id).unwrap();
    assert_eq!(info.workflow_id, "my_workflow-01234567");
    assert_eq!(info.name, "my_workflow");
    assert_eq!(info.state, "pending");
    assert!(info.args.is_empty());
    assert_eq!(info.result_json, "");
    assert_eq!(info.started_at, "");
    assert_eq!(info.completed_at, "");
    assert_eq!(db.workflows[0].task_queue, "default");
    assert_eq!(db.workflows[0].namespace, "default");
    assert_eq!(db.steps.len(), 1);
    assert_eq!(db.steps[0].id, "00000000-0000-0000-0000-00000000000b");
    assert_eq!(db.steps[0].activity_name, "my_workflow");
    assert_eq!(db.steps[0].args_json, "{}");
    refused(
        start_workflow_at(&mut db, &request, run, &ids, &at(1_000)),
        Code::Internal,
        "Failed to create workflow: UNIQUE constraint failed: workflows.run_id",
    );
    refused(
        start_workflow_at(&mut db, &request, 7, &ids, &at(1_000)),
        Code::Internal,
        "Failed to create step 0: UNIQUE constraint failed: workflow_steps.id",
    );
}

#[test]
fn arguments_of_a_run_reach_its_steps() {
    let mut db = Database::new();
    let mut request = start_request("cron_job_workflow");
    request.args = vec![
        ("schedule_id".to_string(), "mine".to_string()),
        ("extra".to_string(), "1".to_string()),
    ];
    start_workflow_at(&mut db, &request, 1, &vec![11, 12, 13, 14, 15], &at(1_000)).unwrap();
    assert_eq!(db.steps.len(), 5);
    for (i, step) in db.steps.iter().enumerate() {
        assert_eq!(step.step_index, i as i64);
        assert!(step.args_json.contains("\"extra\":\"1\""));
    }
}

#[test]
fn runs_that_cannot_be_read() {
    let mut db = Database::new();
    let (run_id, _) = start_workflow(&mut db, &start_request("wf")).unwrap();
    db.workflows[0].started_at = Some("once".to_string());
    refused(
        get_workflow(&db, &run_id),
        Code::Internal,
        "Failed to get workflow: Failed to parse datetime: once",
    );
    refused(
        list_workflows(&db, "default"),
        Code::Internal,
        "Failed to list workflows: Failed to parse datetime: once",
    );
    assert!(cancel_workflow_request_at(&mut db, &run_id, &at(2_000)).unwrap());
    refused(
        cancel_workflow_request_at(&mut db, &run_id, &at(3_000)),
        Code::Internal,
        "Failed to cancel workflow: Workflow not found or already in terminal state",
    );
}

// ---- workers --------------------------------------------------------------------------------

#[test]
fn test_poll_activity_no_tasks() {
    let mut db = Database::new();
    assert!(poll(&mut db, "some_activity").is_none());
}

#[test]
fn test_poll_activity_returns_matching_task() {
    let mut db = Database::new();
    start_workflow(&mut db, &start_request("my_custom_activity")).unwrap();
    assert!(poll(&mut db, "my_custom_activity").is_some());
}

#[test]
fn test_poll_activity_no_matching_type() {
    let mut db = Database::new();
    start_workflow(&mut db, &start_request("my_custom_activity")).unwrap();
    assert!(poll(&mut db, "different_activity").is_none());
}

#[test]
fn test_report_activity_result() {
    let mut db = Database::new();
    start_workflow(&mut db, &start_request("report_test")).unwrap();
    let task = poll(&mut db, "report_test").expect("Should have a task");
    let (success, _) = report_activity_result(&mut db, &task.activity_id, r#"{"output": "success"}"#).unwrap();
    assert!(success);
}

#[test]
fn test_report_activity_failure() {
    let mut db = Database::new();
    start_workflow(&mut db, &start_request("failure_test")).unwrap();
    let task = poll(&mut db, "failure_test").expect("Should have a task");
    assert!(report_activity_failure(&mut db, &task.activity_id, "Something went wrong").unwrap().unwrap());
}

#[test]
fn test_heartbeat() {
    let mut db = Database::new();
    start_workflow(&mut db, &start_request("hb_test")).unwrap();
    let task = poll(&mut db, "hb_test").expect("Should have a task");
    assert!(heartbeat(&mut db, &task.activity_id).unwrap());
}

#[test]
fn test_full_schedule_workflow_lifecycle() {
    let mut db = Database::new();
    let request = CreateScheduleRequest {
        schedule_id: "e2e-schedule".to_string(),
        namespace: "default".to_string(),
        spec: Some(cron_spec()),
        action: Some(action("e2e_workflow", "default", "action-e2e")),
        policy: Some("skip".to_string()),
    };
    create_schedule(&mut db, request).unwrap();
    assert_eq!(list_schedules(&db, "default").unwrap().len(), 1);

    let (run_id, _) = start_workflow(&mut db, &start_request("e2e_workflow")).unwrap();
    assert_eq!(get_workflow(&db, &run_id).unwrap().state, "pending");

    let task = poll(&mut db, "e2e_workflow").expect("Should have a task");
    report_activity_result(&mut db, &task.activity_id, r#"{"status": "done"}"#).unwrap();
    assert_eq!(get_workflow(&db, &run_id).unwrap().state, "running");

    delete_schedule(&mut db, "e2e-schedule", "default").unwrap();
    assert!(list_schedules(&db, "default").unwrap().is_empty());
}

#[test]
fn test_multiple_workflows_in_namespace() {
    let mut db = Database::new();
    for i in 0..3 {
        let mut request = start_request("batch_workflow");
        request.args = vec![("index".to_string(), i.to_string())];
        request.workflow_id = format!("batch-{}", i);
        start_workflow(&mut db, &request).unwrap();
    }
    let listed = list_workflows(&db, "default").unwrap();
    assert_eq!(listed.len(), 3);
    for wf in &listed {
        cancel_workflow(&mut db, &wf.workflow_run_id).unwrap();
    }
    for wf in &list_workflows(&db, "default").unwrap() {
        assert_eq!(wf.state, "cancelled");
    }
}

#[test]
fn test_cron_job_workflow_definition() {
    let mut db = Database::new();
    let (run_id, _) = start_workflow(&mut db, &start_request("cron_job_workflow")).unwrap();
    assert_eq!(get_workflow(&db, &run_id).unwrap().name, "cron_job_workflow");
    assert!(poll(&mut db, "execute_cron_job").is_some());
}

#[test]
fn a_worker_without_types_takes_anything() {
    let mut db = Database::new();
    start_workflow(&mut db, &start_request("wf")).unwrap();
    let task = poll_activity(&mut db, "default", &Vec::new()).unwrap().unwrap().unwrap();
    assert_eq!(task.name, "wf");
    assert!(poll_activity(&mut db, "default", &Vec::new()).unwrap().unwrap().is_none());
}

#[test]
fn a_polled_step_runs_and_is_completed() {
    let mut db = Database::new();
    let mut request = start_request("wf");
    request.args = vec![("k".to_string(), "v".to_string())];
    start_workflow_at(&mut db, &request, 1, &vec![11, 12, 13, 14, 15], &at(1_000)).unwrap();
    let types = vec!["other".to_string(), "wf".to_string()];
    let task = poll_activity_at(&mut db, "default", &types, 21, &at(1_010)).unwrap().unwrap();
    assert_eq!(task.activity_id, "00000000-0000-0000-0000-000000000015");
    assert_eq!(task.step_id, "00000000-0000-0000-0000-00000000000b");
    assert_eq!(task.workflow_run_id, "00000000-0000-0000-0000-000000000001");
    assert_eq!(task.name, "wf");
    assert_eq!(task.args, request.args);
    assert_eq!(db.steps[0].state, ActivityState::Running);
    assert_eq!(db.steps[0].attempt, 1);
    assert_eq!(db.workflows[0].state, WorkflowState::Running);
    assert_eq!(db.activities[0].attempt, 1);
    assert_eq!(db.activities[0].started_at, Some(format_datetime(&at(1_010))));
    assert!(poll_activity_at(&mut db, "default", &types, 22, &at(1_011)).unwrap().is_none());
    let (success, event) =
        report_activity_result_at(&mut db, &task.activity_id, " [1, 2] ", &at(1_020)).unwrap();
    assert!(success);
    assert_eq!(db.steps[0].state, ActivityState::Completed);
    assert_eq!(db.steps[0].result_json.as_deref(), Some("[1,2]"));
    assert_eq!(db.steps[0].attempt, 1);
    assert_eq!(db.activities[0].state, ActivityState::Completed);
    handle_event_at(&mut db, &event, &at(1_030)).unwrap();
    assert_eq!(db.workflows[0].state, WorkflowState::Completed);
    assert_eq!(db.workflows[0].completed_at, Some(format_datetime(&at(1_030))));
}

#[test]
fn an_empty_result_is_an_empty_object() {
    let mut db = Database::new();
    start_workflow(&mut db, &start_request("wf")).unwrap();
    let task = poll(&mut db, "wf").unwrap();
    report_activity_result(&mut db, &task.activity_id, "").unwrap();
    assert_eq!(db.steps[0].result_json.as_deref(), Some("{}"));
}

#[test]
fn reports_that_are_refused() {
    let mut db = Database::new();
    start_workflow(&mut db, &start_request("wf")).unwrap();
    let task = poll(&mut db, "wf").unwrap();
    match report_activity_result(&mut db, &task.activity_id, "done") {
        Ok(_) => panic!("Expected a refusal"),
        Err(status) => {
            assert_eq!(status.code, Code::InvalidArgument);
            assert!(status.message.starts_with("Invalid result JSON: expected value"));
        }
    }
    let missing = "Failed to find activity: Query returned no rows";
    refused(report_activity_result(&mut db, "none", "{}"), Code::Internal, missing);
    refused(report_activity_failure(&mut db, "none", "").unwrap(), Code::Internal, missing);
    refused(
        heartbeat(&mut db, "none"),
        Code::Internal,
        "Failed to update heartbeat: Activity not found or not in running state",
    );
    db.steps[0].retry_policy = PolicyColumn::Malformed("no policy".to_string());
    refused(
        report_activity_failure(&mut db, &task.activity_id, "").unwrap(),
        Code::Internal,
        "Invalid retry policy JSON: no policy",
    );
    db.steps.clear();
    refused(
        report_activity_failure(&mut db, &task.activity_id, "").unwrap(),
        Code::Internal,
        "Failed to get retry policy: Query returned no rows",
    );
    refused(
        report_activity_result(&mut db, &task.activity_id, "{}"),
        Code::Internal,
        "Failed to find step: Query returned no rows",
    );
}

#[test]
fn polls_that_are_refused() {
    let mut db = Database::new();
    start_workflow_at(&mut db, &start_request("wf"), 1, &vec![11, 12, 13, 14, 15], &at(1_000)).unwrap();
    start_workflow_at(&mut db, &start_request("wf"), 2, &vec![21, 22, 23, 24, 25], &at(1_000)).unwrap();
    poll_activity_at(&mut db, "default", &Vec::new(), 31, &at(1_001)).unwrap().unwrap();
    refused(
        poll_activity_at(&mut db, "default", &Vec::new(), 31, &at(1_002)),
        Code::Internal,
        "Failed to insert activity: UNIQUE constraint failed: activities.id",
    );
    db.steps[1].state = ActivityState::Pending;
    db.steps[1].args_json = "".to_string();
    match poll_activity_at(&mut db, "default", &Vec::new(), 32, &at(1_003)) {
        Ok(_) => panic!("Expected a refusal"),
        Err(status) => {
            assert_eq!(status.code, Code::Internal);
            assert!(status.message.starts_with("Failed to get pending steps: EOF"));
        }
    }
    db.steps[1].args_json = "{}".to_string();
    assert!(has_attempt_left(&db, "default", &Vec::new(), &at(1_003)));
    db.steps[0].attempt = u32::MAX as i64;
    assert!(has_attempt_left(&db, "default", &Vec::new(), &at(1_003)));
    db.steps[1].attempt = u32::MAX as i64;
    assert!(!has_attempt_left(&db, "default", &Vec::new(), &at(1_003)));
    assert!(poll_activity(&mut db, "default", &Vec::new()).is_none());
}

#[test]
fn attempts_are_limited() {
    let mut db = Database::new();
    start_workflow_at(&mut db, &start_request("wf"), 1, &vec![11, 12, 13, 14, 15], &at(1_000)).unwrap();
    let policy = match &db.steps[0].retry_policy {
        PolicyColumn::Policy(policy) => *policy,
        PolicyColumn::Malformed(_) => panic!("Expected a policy"),
    };
    assert_eq!(policy.maximum_attempts, 3);
    let mut now = 1_000i64;
    for attempt in 1..=3u32 {
        now += 1_000_000;
        let task =
            poll_activity_at(&mut db, "default", &Vec::new(), attempt as u128, &at(now)).unwrap().unwrap();
        assert_eq!(db.steps[0].attempt, attempt as i64);
        assert!(failure_fits(&db, &task.activity_id, &at(now)));
        assert!(report_activity_failure_at(&mut db, &task.activity_id, "no", &at(now)).unwrap());
        assert_eq!(db.steps[0].attempt, attempt as i64);
        if attempt < 3 {
            assert_eq!(db.steps[0].state, ActivityState::Pending);
            let wait = 2 * (1 << (attempt - 1));
            assert_eq!(db.steps[0].next_retry_at, Some(format_datetime(&at(now + wait))));
        }
    }
    assert_eq!(db.steps[0].state, ActivityState::Failed);
    assert!(poll_activity_at(&mut db, "default", &Vec::new(), 9, &at(now + 1_000_000)).unwrap().is_none());
    assert_eq!(db.activities.len(), 3);
    assert_eq!(db.activities[0].error_message.as_deref(), Some("no"));
}

#[test]
fn a_limit_of_two_allows_a_second_attempt() {
    let mut db = Database::new();
    start_workflow_at(&mut db, &start_request("wf"), 1, &vec![11, 12, 13, 14, 15], &at(1_000)).unwrap();
    db.steps[0].retry_policy = PolicyColumn::Policy(RetryPolicy {
        maximum_attempts: 2,
        initial_interval_secs: Seconds { bits: 1.0f64.to_bits() },
    });
    let task = poll_activity_at(&mut db, "default", &Vec::new(), 1, &at(1_000)).unwrap().unwrap();
    assert!(report_activity_failure_at(&mut db, &task.activity_id, "no", &at(1_010)).unwrap());
    assert_eq!(db.activities[0].state, ActivityState::Failed);
    assert_eq!(db.steps[0].state, ActivityState::Pending);
    assert_eq!(db.steps[0].next_retry_at, Some(format_datetime(&at(1_011))));
}

#[test]
fn a_failure_beyond_the_calendar_is_not_taken() {
    let mut db = Database::new();
    start_workflow(&mut db, &start_request("wf")).unwrap();
    let task = poll(&mut db, "wf").unwrap();
    db.steps[0].retry_policy = PolicyColumn::Policy(RetryPolicy {
        maximum_attempts: 2,
        initial_interval_secs: Seconds { bits: 1.0e18f64.to_bits() },
    });
    assert!(!failure_fits(&db, &task.activity_id, &at(1_000)));
    assert!(report_activity_failure(&mut db, &task.activity_id, "no").is_none());
    assert_eq!(db.activities[0].state, ActivityState::Running);
}

#[test]
fn activities_are_executed_in_order() {
    let mut db = Database::new();
    let (run_id, _) = start_workflow(&mut db, &start_request("cron_job_workflow")).unwrap();
    assert!(poll(&mut db, "save_cron_output").is_none());
    let first = poll(&mut db, "execute_cron_job").unwrap();
    assert!(poll(&mut db, "save_cron_output").is_none());
    report_activity_result(&mut db, &first.activity_id, "{}").unwrap();
    let second = poll(&mut db, "save_cron_output").unwrap();
    assert_eq!(second.workflow_run_id, run_id);
    assert!(poll_activity(&mut db, "default", &Vec::new()).unwrap().unwrap().is_none());
}

#[test]
fn a_run_with_a_waiting_step_goes_on() {
    let mut db = Database::new();
    start_workflow_at(&mut db, &start_request("cron_job_workflow"), 1, &vec![11, 12, 13, 14, 15], &at(1_000))
        .unwrap();
    db.steps[0].state = ActivityState::Failed;
    assert!(poll_activity_at(&mut db, "default", &Vec::new(), 1, &at(1_001)).unwrap().is_none());
    handle_event_at(&mut db, &EngineEvent::ScheduleChange, &at(1_002)).unwrap();
    assert_eq!(db.workflows[0].state, WorkflowState::Running);
    assert_eq!(db.workflows[0].completed_at, None);
    for step in db.steps.iter_mut().skip(1) {
        step.state = ActivityState::Completed;
    }
    handle_event_at(&mut db, &EngineEvent::ScheduleChange, &at(1_003)).unwrap();
    assert_eq!(db.workflows[0].state, WorkflowState::Failed);
    assert_eq!(db.workflows[0].completed_at, Some(format_datetime(&at(1_003))));
}

#[test]
fn a_cancelled_run_stays_cancelled() {
    let mut db = Database::new();
    let (run_id, _) = start_workflow(&mut db, &start_request("wf")).unwrap();
    assert!(cancel_workflow(&mut db, &run_id).unwrap());
    poll(&mut db, "wf");
    assert_eq!(get_workflow(&db, &run_id).unwrap().state, "cancelled");
}

#[test]
fn a_run_that_starts_has_not_ended() {
    let mut db = Database::new();
    start_workflow_at(&mut db, &start_request("wf"), 1, &vec![11, 12, 13, 14, 15], &at(1_000)).unwrap();
    poll_activity_at(&mut db, "default", &Vec::new(), 1, &at(1_010)).unwrap().unwrap();
    assert_eq!(db.workflows[0].state, WorkflowState::Running);
    assert_eq!(db.workflows[0].started_at, Some(format_datetime(&at(1_010))));
    assert_eq!(db.workflows[0].completed_at, None);
}

#[test]
fn workers_poll_their_queue() {
    let mut db = Database::new();
    let mut request = start_request("wf");
    request.task_queue = "mine".to_string();
    start_workflow(&mut db, &request).unwrap();
    assert!(poll_activity(&mut db, "default", &Vec::new()).unwrap().unwrap().is_none());
    assert!(poll_activity(&mut db, "", &Vec::new()).unwrap().unwrap().is_none());
    assert!(poll_activity(&mut db, "mine", &Vec::new()).unwrap().unwrap().is_some());
    start_workflow(&mut db, &start_request("wf")).unwrap();
    assert!(poll_activity(&mut db, "", &Vec::new()).unwrap().unwrap().is_some());
}

#[test]
fn a_heartbeat_is_kept() {
    let mut db = Database::new();
    start_workflow(&mut db, &start_request("wf")).unwrap();
    let task = poll(&mut db, "wf").unwrap();
    assert!(heartbeat_at(&mut db, &task.activity_id, &at(5)).unwrap());
    assert_eq!(db.activities[0].last_heartbeat_at.as_deref(), Some("1970-01-01 00:00:05"));
}
