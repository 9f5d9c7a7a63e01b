use khronos::activity::ActivityState;
use khronos::clock::{format_datetime, Timestamp};
use khronos::db::rows::{Database, OverlapColumn, SpecType};
use khronos::scheduler::{calculate_next_cron_fire, process_schedule_at};
use khronos::service::schedules::list_schedules;
use khronos::service::status::{Code, Status};
use khronos::service::temporal::{
    create_schedule, create_schedule_at, delete_schedule, describe_namespace, describe_schedule, has_namespace,
    poll_activity_task_queue, poll_activity_task_queue_at, register_namespace, respond_activity_task_completed,
    respond_activity_task_completed_at, respond_activity_task_failed, respond_activity_task_failed_at,
    start_workflow_execution, start_workflow_execution_at, update_schedule, update_schedule_at, ScheduleAction,
    ScheduleBody, StartWorkflowAction, StartWorkflowExecutionRequest, TriggerSpec,
};
use khronos::service::workflows::get_workflow;
use khronos::workflow::WorkflowState;

fn at(secs: i64) -> Timestamp {
    Timestamp::new(secs, 0).unwrap()
}

fn ids() -> Vec<u128> {
    vec![11, 12, 13, 14, 15]
}

fn refused<T>(r: Result<T, Status>, code: Code, message: &str) {
    match r {
        Ok(_) => panic!("Expected a refusal"),
        Err(status) => {
            assert_eq!(status.code, code);
            assert_eq!(status.message, message);
        }
    }
}

fn execution(workflow_type: &str, input: Option<Vec<Vec<u8>>>) -> StartWorkflowExecutionRequest {
    StartWorkflowExecutionRequest {
        namespace: "".to_string(),
        workflow_id: "my-run".to_string(),
        workflow_type: Some(workflow_type.to_string()),
        task_queue: Some("queue".to_string()),
        input,
        execution_timeout: Some(60),
        run_timeout: None,
        task_timeout: Some(-1),
    }
}

fn start_action(input: Option<Vec<Vec<u8>>>) -> StartWorkflowAction {
    StartWorkflowAction {
        workflow_type: Some("CronJobWorkflow".to_string()),
        task_queue: Some("queue".to_string()),
        workflow_id: "wf".to_string(),
        input,
    }
}

fn body(spec: TriggerSpec, start: StartWorkflowAction, overlap_policy: Option<i32>) -> ScheduleBody {
    ScheduleBody {
        spec: Some(spec),
        action: Some(ScheduleAction { start_workflow: Some(start) }),
        overlap_policy,
    }
}

fn cron(list: &[&str]) -> TriggerSpec {
    TriggerSpec {
        cron_string: list.iter().map(|s| s.to_string()).collect(),
        interval: vec![],
    }
}

fn every(secs: i64) -> TriggerSpec {
    TriggerSpec { cron_string: vec![], interval: vec![Some(secs), Some(1)] }
}

#[test]
fn a_registered_namespace_is_there() {
    let mut db = Database::new();
    assert!(!has_namespace(&db, "mine"));
    refused(describe_namespace(&db, "mine"), Code::NotFound, "Namespace 'mine' not found");
    register_namespace(&mut db, "mine");
    register_namespace(&mut db, "mine");
    assert!(has_namespace(&db, "mine"));
    assert_eq!(describe_namespace(&db, "mine").unwrap(), "mine");
    assert_eq!(db.namespaces.iter().filter(|name| *name == "mine").count(), 1);
}

#[test]
fn an_execution_is_started() {
    let mut db = Database::new();
    let request = execution("wf", Some(vec![b"one".to_vec(), vec![0xff]]));
    let run_id = start_workflow_execution_at(&mut db, &request, 1, &ids(), &at(1_000)).unwrap();
    assert_eq!(run_id, "00000000-0000-0000-0000-000000000001");
    let row = &db.workflows[0];
    assert_eq!(row.workflow_id, "my-run");
    assert_eq!(row.name, "wf");
    assert_eq!(row.task_queue, "queue");
    assert_eq!(row.namespace, "default");
    assert_eq!(row.args_json, "[\"one\",\"\u{fffd}\"]");
    assert_eq!(row.execution_timeout_secs, Some(60));
    assert_eq!(row.run_timeout_secs, None);
    assert_eq!(row.task_timeout_secs, Some(-1));
    assert_eq!(db.steps.len(), 1);
    assert_eq!(db.steps[0].args_json, "[\"one\",\"\u{fffd}\"]");
    refused(
        start_workflow_execution_at(&mut db, &request, 1, &ids(), &at(1_000)),
        Code::Internal,
        "Failed to create workflow: UNIQUE constraint failed: workflows.run_id",
    );
    refused(
        start_workflow_execution_at(&mut db, &request, 2, &ids(), &at(1_000)),
        Code::Internal,
        "Failed to create step 0: UNIQUE constraint failed: workflow_steps.id",
    );
}

#[test]
fn an_execution_without_names_has_defaults() {
    let mut db = Database::new();
    let request = StartWorkflowExecutionRequest {
        namespace: "ns".to_string(),
        workflow_id: "".to_string(),
        workflow_type: None,
        task_queue: None,
        input: Some(vec![]),
        execution_timeout: None,
        run_timeout: None,
        task_timeout: None,
    };
    let run_id = start_workflow_execution(&mut db, &request).unwrap();
    let info = get_workflow(&db, &run_id).unwrap();
    assert_eq!(info.name, "");
    assert_eq!(info.workflow_id, "");
    assert_eq!(db.workflows[0].task_queue, "default");
    assert_eq!(db.workflows[0].namespace, "ns");
    assert_eq!(db.workflows[0].args_json, "{}");
}

#[test]
fn a_task_queue_is_polled() {
    let mut db = Database::new();
    let request = execution("wf", None);
    start_workflow_execution_at(&mut db, &request, 1, &ids(), &at(1_000)).unwrap();
    db.steps[0].args_json = "\"job-7\"".to_string();
    assert!(poll_activity_task_queue(&mut db, &Some("other".to_string())).unwrap().unwrap().is_none());
    assert!(poll_activity_task_queue(&mut db, &None).unwrap().unwrap().is_none());
    let queue = Some("queue".to_string());
    let task = poll_activity_task_queue_at(&mut db, &queue, 21, &at(1_001)).unwrap().unwrap();
    assert_eq!(task.task_token, b"00000000-0000-0000-0000-000000000015".to_vec());
    assert_eq!(task.workflow_namespace, "default");
    assert_eq!(task.run_id, "00000000-0000-0000-0000-000000000001");
    assert_eq!(task.activity_name, "wf");
    assert_eq!(task.input, Some(b"\"job-7\"".to_vec()));
    assert_eq!(task.timeout_secs, db.steps[0].timeout_secs);
    assert_eq!(db.steps[0].state, ActivityState::Running);
    assert_eq!(db.workflows[0].state, WorkflowState::Running);
    assert!(poll_activity_task_queue_at(&mut db, &queue, 22, &at(1_002)).unwrap().is_none());
    respond_activity_task_completed_at(&mut db, &task.task_token, &Some(vec![b"{\"a\": 1}".to_vec()]), &at(1_003))
        .unwrap();
    assert_eq!(db.steps[0].state, ActivityState::Completed);
    assert_eq!(db.steps[0].result_json.as_deref(), Some("{\"a\":1}"));
    assert_eq!(db.activities[0].state, ActivityState::Completed);
    assert_eq!(db.activities[0].completed_at, Some(format_datetime(&at(1_003))));
}

#[test]
fn results_that_are_no_json_are_strings() {
    let cases: Vec<(Option<Vec<Vec<u8>>>, &str)> = vec![
        (None, "{}"),
        (Some(vec![]), "{}"),
        (Some(vec![b"plain".to_vec(), b"1".to_vec()]), "\"plain\""),
        (Some(vec![b" 12 ".to_vec()]), "12"),
        (Some(vec![vec![0xff]]), "\"\u{fffd}\""),
    ];
    for (result, text) in cases {
        let mut db = Database::new();
        start_workflow_execution(&mut db, &execution("wf", None)).unwrap();
        let task = poll_activity_task_queue(&mut db, &Some("queue".to_string())).unwrap().unwrap().unwrap();
        assert_eq!(task.input, None);
        respond_activity_task_completed(&mut db, &task.task_token, &result).unwrap();
        assert_eq!(db.steps[0].result_json.as_deref(), Some(text));
    }
}

#[test]
fn responses_without_a_task_are_refused() {
    let mut db = Database::new();
    let missing = "Failed to find activity: Query returned no rows";
    let token = b"none".to_vec();
    refused(respond_activity_task_completed(&mut db, &token, &None), Code::Internal, missing);
    refused(respond_activity_task_failed(&mut db, &token, &None).unwrap(), Code::Internal, missing);
}

#[test]
fn a_failed_task_waits_for_its_next_attempt() {
    let mut db = Database::new();
    start_workflow_execution_at(&mut db, &execution("CronJobWorkflow", None), 1, &ids(), &at(1_000)).unwrap();
    let queue = Some("queue".to_string());
    let task = poll_activity_task_queue_at(&mut db, &queue, 21, &at(1_000)).unwrap().unwrap();
    assert_eq!(task.activity_name, "execute_cron_job");
    assert_eq!(task.heartbeat_timeout_secs, 60);
    let failure = Some("broken".to_string());
    assert!(respond_activity_task_failed_at(&mut db, &task.task_token, &failure, &at(1_010)).unwrap());
    assert_eq!(db.activities[0].error_message.as_deref(), Some("broken"));
    assert_eq!(db.steps[0].state, ActivityState::Pending);
    assert_eq!(db.steps[0].attempt, 1);
    assert_eq!(db.steps[0].next_retry_at, Some(format_datetime(&at(1_012))));
    assert!(poll_activity_task_queue_at(&mut db, &queue, 22, &at(1_011)).unwrap().is_none());
    let task = poll_activity_task_queue_at(&mut db, &queue, 22, &at(1_012)).unwrap().unwrap();
    assert_eq!(task.activity_name, "execute_cron_job");
    respond_activity_task_completed_at(&mut db, &task.task_token, &None, &at(1_013)).unwrap();
    let task = poll_activity_task_queue_at(&mut db, &queue, 23, &at(1_013)).unwrap().unwrap();
    assert_eq!(task.activity_name, "save_cron_output");
    assert_eq!(task.heartbeat_timeout_secs, 30);
}

#[test]
fn a_schedule_is_created_and_described() {
    let mut db = Database::new();
    let schedule = body(every(300), start_action(Some(vec![b"job-1".to_vec()])), Some(5));
    create_schedule_at(&mut db, "s", "", Some(schedule), &at(1_000)).unwrap();
    let row = &db.schedules[0];
    assert_eq!(row.namespace, "default");
    assert_eq!(row.spec_type, SpecType::Interval);
    assert_eq!(row.cron_expressions.as_deref(), Some("[]"));
    assert_eq!(row.interval_seconds, Some(300));
    assert_eq!(row.overlap_policy, OverlapColumn::Terminate);
    assert_eq!(row.action_args_json, "{\"job_id\":\"job-1\"}");
    assert_eq!(row.action_id.as_deref(), Some("wf"));
    let told = describe_schedule(&db, "s", "default").unwrap();
    assert!(told.cron_string.is_empty());
    assert_eq!(told.interval, Some(300));
    assert_eq!(told.workflow_type, "CronJobWorkflow");
    assert_eq!(told.task_queue, "queue");
    assert_eq!(told.workflow_id, "wf");
    assert_eq!(told.overlap_policy, 4);
    refused(describe_schedule(&db, "s", "other"), Code::NotFound, "Schedule not found");
    refused(
        create_schedule(&mut db, "s", "other", Some(body(every(1), start_action(None), None))),
        Code::Internal,
        "Failed to create schedule: UNIQUE constraint failed: schedules.schedule_id",
    );
    delete_schedule(&mut db, "s", "other");
    assert_eq!(db.schedules.len(), 1);
    delete_schedule(&mut db, "s", "");
    assert!(db.schedules.is_empty());
}

#[test]
fn cron_strings_are_listed_described_and_fire() {
    let mut db = Database::new();
    let strings = vec!["0 0 * * * *", "0 5 * * * *"];
    let schedule = body(cron(&strings), start_action(None), None);
    create_schedule_at(&mut db, "lycus-cron-nightly", "", Some(schedule), &at(1_000)).unwrap();
    assert_eq!(db.schedules[0].spec_type, SpecType::Cron);
    assert_eq!(db.schedules[0].cron_expressions.as_deref(), Some("[\"0 0 * * * *\",\"0 5 * * * *\"]"));
    assert_eq!(db.schedules[0].interval_seconds, Some(0));
    assert_eq!(db.schedules[0].overlap_policy, OverlapColumn::Skip);
    assert_eq!(db.schedules[0].action_args_json, "{\"job_id\":\"nightly\"}");
    assert_eq!(describe_schedule(&db, "lycus-cron-nightly", "").unwrap().cron_string, strings);
    let listed = list_schedules(&db, "default").unwrap();
    assert_eq!(listed.len(), 1);
    assert_eq!(listed[0].schedule_id, "lycus-cron-nightly");
    assert_eq!(listed[0].spec.spec_type, "cron");
    assert_eq!(listed[0].spec.cron_expressions, strings);
    assert_eq!(listed[0].action.args, vec![("job_id".to_string(), "nightly".to_string())]);
    assert_eq!(calculate_next_cron_fire(&db.schedules[0], &at(3_600)), Some(at(3_900)));
    process_schedule_at(&mut db, "lycus-cron-nightly", 1, &ids(), &at(3_600)).unwrap().unwrap();
    assert_eq!(db.workflows[0].args_json, "{\"job_id\":\"nightly\"}");
    assert_eq!(db.steps[0].args_json, "\"nightly\"");
}

#[test]
fn a_schedule_without_a_job_is_listed() {
    let mut db = Database::new();
    let schedule = body(cron(&["0 0 * * * *"]), start_action(None), None);
    create_schedule_at(&mut db, "s", "", Some(schedule), &at(1_000)).unwrap();
    let listed = list_schedules(&db, "default").unwrap();
    assert_eq!(listed.len(), 1);
    assert_eq!(listed[0].spec.cron_expressions, vec!["0 0 * * * *"]);
    assert!(listed[0].action.args.is_empty());
    assert_eq!(db.schedules[0].action_args_json, "");
    process_schedule_at(&mut db, "s", 1, &ids(), &at(3_600)).unwrap().unwrap();
    assert_eq!(db.workflows[0].args_json, "{}");
    assert_eq!(db.steps[0].args_json, "null");
}

#[test]
fn schedules_that_are_refused() {
    let mut db = Database::new();
    let mut create = |schedule: Option<ScheduleBody>, message: &str| {
        refused(create_schedule(&mut db, "s", "", schedule), Code::InvalidArgument, message);
    };
    create(None, "schedule is required");
    create(
        Some(ScheduleBody { spec: None, action: None, overlap_policy: None }),
        "schedule spec is required",
    );
    create(
        Some(ScheduleBody { spec: Some(every(1)), action: None, overlap_policy: None }),
        "schedule action is required",
    );
    create(
        Some(body(cron(&[]), start_action(None), None)),
        "schedule spec must have cron_string or interval",
    );
    create(
        Some(ScheduleBody {
            spec: Some(every(1)),
            action: Some(ScheduleAction { start_workflow: None }),
            overlap_policy: None,
        }),
        "schedule action start_workflow is required",
    );
}

#[test]
fn a_schedule_is_changed_in_part() {
    let mut db = Database::new();
    refused(update_schedule(&mut db, "s", "", &None), Code::NotFound, "Schedule not found");
    create_schedule_at(&mut db, "s", "", Some(body(every(300), start_action(None), Some(2))), &at(1_000)).unwrap();
    refused(update_schedule(&mut db, "s", "", &None), Code::InvalidArgument, "schedule is required");
    let trigger = ScheduleBody { spec: Some(cron(&["it's"])), action: None, overlap_policy: None };
    update_schedule_at(&mut db, "s", "", &Some(trigger), &at(2_000)).unwrap();
    assert_eq!(db.schedules[0].spec_type, SpecType::Cron);
    assert_eq!(db.schedules[0].cron_expressions.as_deref(), Some("[\"it's\"]"));
    assert_eq!(db.schedules[0].interval_seconds, Some(300));
    assert_eq!(db.schedules[0].overlap_policy, OverlapColumn::Buffer(1));
    assert_eq!(db.schedules[0].updated_at, format_datetime(&at(2_000)));
    let mut start = start_action(None);
    start.workflow_type = Some("other".to_string());
    start.task_queue = None;
    start.workflow_id = "".to_string();
    update_schedule_at(&mut db, "s", "", &Some(body(every(9), start, Some(1))), &at(3_000)).unwrap();
    assert_eq!(db.schedules[0].spec_type, SpecType::Interval);
    assert_eq!(db.schedules[0].interval_seconds, Some(9));
    assert_eq!(db.schedules[0].action_workflow_name, "other");
    assert_eq!(db.schedules[0].action_task_queue, "queue");
    assert_eq!(db.schedules[0].action_id.as_deref(), Some("wf"));
    assert_eq!(db.schedules[0].overlap_policy, OverlapColumn::Skip);
}
