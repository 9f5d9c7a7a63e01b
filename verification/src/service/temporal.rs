//! The Temporal-compatible service: namespaces, runs, activity tasks and schedules in the terms of
//! the Temporal API.

use vstd::prelude::*;
use vstd::string::*;
use vstd::utf8::encode_utf8;
use crate::activity::ActivityState;
use crate::clock::{clock_shows, format_datetime, time_text, utc_now, Timestamp};
use crate::db::activities::{activity_state_updated, find_ready, places_ready, read_steps, ready_rows, step_state_updated, steps_in, update_activity_state_at, update_step_state};
use crate::db::rows::{find_row, has_key, lemma_with_key_push, with_key, Database, OverlapColumn, ScheduleRecord, ScheduleRow, SpecType, StepRecord, Store, TimeoutsColumn, TimeoutsColumnView, WorkflowRecord};
use crate::db::schedules::{insert_schedule_row, overlap_in, schedule_deleted, schedule_found, schedule_row_inserted};
use crate::db::workflows::{insert_workflow, workflow_inserted};
use crate::definitions::{get_workflow_definition, workflow_definition};
use crate::engine::in_turn;
use crate::ids::{fresh_ids, uuid_text, uuid_to_text};
use crate::json::{holds_list, json_as_string, json_list_text, json_parse_bytes, json_string_list, json_string_text, list_in_json, list_to_json, string_to_json, Json};
use crate::schedule::{Interval, ScheduleSpecView, ScheduleView, Timeouts, WorkflowActionView};
use crate::scheduler::{job_column, job_entries, make_job_column};
use crate::service::status::{internal, invalid, name_or_default, not_found, or_default, reply, Status, StatusView};
use crate::service::worker::{activity_failure_reported, failure_fits, failure_on_calendar, failure_outcome, find_queue, hand_out, handed_out, is_in_turn, lemma_first_mark, lemma_steps_in, queue_of, report_activity_failure_at, step_chosen};
use crate::service::workflows::{create_steps, first_step, make_first_step, refuse_step, step_refusal, steps_created, MOST_STEPS};
use crate::text::{after_prefix, concat3, lossy, lossy_text, outcome, strip_text_prefix, text_eq, Text};
use crate::workflow::{ActivityStep, WorkflowInstance, WorkflowInstanceView, WorkflowState, WorkflowStepInstance, WorkflowStepInstanceView};

verus! {

// ---- namespaces -----------------------------------------------------------------------------

/// The tables with a namespace, which is created where it is not there.
pub open spec fn namespace_registered(s: Store, name: Text) -> Store {
    if s.namespaces.contains(name) {
        s
    } else {
        Store { namespaces: s.namespaces.push(name), ..s }
    }
}

/// Whether a namespace is there.
pub fn has_namespace(db: &Database, name: &str) -> (r: bool)
    ensures
        r == db.deep_view().namespaces.contains(name@),
{
    let ghost names = db.deep_view().namespaces;
    let mut i: usize = 0;
    while i < db.namespaces.len()
        invariant
            i <= db.namespaces@.len(),
            names == db.namespaces.deep_view(),
            forall|j: int| 0 <= j < i ==> #[trigger] names[j] != name@,
        decreases db.namespaces@.len() - i,
    {
        if text_eq(db.namespaces[i].as_str(), name) {
            proof {
                assert(names[i as int] == name@);
            }
            return true;
        }
        i += 1;
    }
    false
}

/// Registers a namespace.
pub fn register_namespace(db: &mut Database, name: &str)
    ensures
        final(db).deep_view() == namespace_registered(old(db).deep_view(), name@),
{
    if !has_namespace(db, name) {
        db.namespaces.push(name.to_owned());
        proof {
            assert(db.namespaces.deep_view() =~= old(db).namespaces.deep_view().push(name@));
        }
    }
}

/// The name of a namespace, or the refusal where it is not there.
pub open spec fn namespace_described(s: Store, name: Text) -> Result<Text, StatusView> {
    if s.namespaces.contains(name) {
        Ok(name)
    } else {
        Err(not_found("Namespace '"@ + name + "' not found"@))
    }
}

/// Describes a namespace.
pub fn describe_namespace(db: &Database, name: &str) -> (r: Result<String, Status>)
    ensures
        reply(r) == namespace_described(db.deep_view(), name@),
{
    if has_namespace(db, name) {
        Ok(name.to_owned())
    } else {
        let message: String = concat3("Namespace '", name, "' not found");
        Err(Status::not_found(message.as_str()))
    }
}

// ---- runs -----------------------------------------------------------------------------------

#[derive(Debug)]
pub struct StartWorkflowExecutionRequest {
    pub namespace: String,
    pub workflow_id: String,
    pub workflow_type: Option<String>,
    pub task_queue: Option<String>,
    /// The data of the payloads.
    pub input: Option<Vec<Vec<u8>>>,
    pub execution_timeout: Option<i64>,
    pub run_timeout: Option<i64>,
    pub task_timeout: Option<i64>,
}

/// The view of a [`StartWorkflowExecutionRequest`].
#[verifier::ext_equal]
pub struct StartWorkflowExecutionRequestView {
    pub namespace: Text,
    pub workflow_id: Text,
    pub workflow_type: Option<Text>,
    pub task_queue: Option<Text>,
    pub input: Option<Seq<Seq<u8>>>,
    pub execution_timeout: Option<i64>,
    pub run_timeout: Option<i64>,
    pub task_timeout: Option<i64>,
}

impl DeepView for StartWorkflowExecutionRequest {
    type V = StartWorkflowExecutionRequestView;

    open spec fn deep_view(&self) -> StartWorkflowExecutionRequestView {
        StartWorkflowExecutionRequestView {
            namespace: self.namespace@,
            workflow_id: self.workflow_id@,
            workflow_type: self.workflow_type.deep_view(),
            task_queue: self.task_queue.deep_view(),
            input: self.input.deep_view(),
            execution_timeout: self.execution_timeout,
            run_timeout: self.run_timeout,
            task_timeout: self.task_timeout,
        }
    }
}

/// A text, or another where there is none.
pub open spec fn text_or(text: Option<Text>, other: Text) -> Text {
    match text {
        Some(text) => text,
        None => other,
    }
}

fn take_text_or(text: &Option<String>, other: &str) -> (r: String)
    ensures
        r@ == text_or(text.deep_view(), other@),
{
    match text {
        Some(text) => text.clone(),
        None => other.to_owned(),
    }
}

/// The input of a run as JSON: the list of its payloads as text, or an empty object without any.
pub open spec fn input_json(input: Option<Seq<Seq<u8>>>) -> Text {
    match input {
        Some(payloads) => if payloads.len() == 0 {
            "{}"@
        } else {
            json_list_text(payloads.map_values(|data: Seq<u8>| lossy_text(data)))
        },
        None => "{}"@,
    }
}

fn make_input_json(input: &Option<Vec<Vec<u8>>>) -> (r: Json)
    ensures
        r.deep_view() == input_json(input.deep_view()),
{
    match input {
        None => Json::empty_object(),
        Some(payloads) => {
            if payloads.len() == 0 {
                return Json::empty_object();
            }
            let mut texts: Vec<String> = Vec::new();
            let mut i: usize = 0;
            while i < payloads.len()
                invariant
                    i <= payloads@.len(),
                    texts@.len() == i,
                    forall|j: int|
                        0 <= j < i ==> (#[trigger] texts@[j])@ == lossy_text(
                            payloads@[j].deep_view(),
                        ),
                decreases payloads@.len() - i,
            {
                proof {
                    assert(payloads@[i as int].deep_view() =~= payloads@[i as int]@);
                }
                texts.push(lossy(&payloads[i]));
                i += 1;
            }
            proof {
                assert(texts.deep_view() =~= payloads.deep_view().map_values(
                    |data: Seq<u8>| lossy_text(data),
                ));
            }
            Json::strings(&texts)
        },
    }
}

fn seconds_of(t: Option<i64>) -> (r: Option<u64>)
    ensures
        r == crate::db::workflows::unsigned(t),
{
    match t {
        Some(secs) => Some(secs as u64),
        None => None,
    }
}

/// The run that a request starts.
pub open spec fn execution_asked(req: StartWorkflowExecutionRequestView, run_id: u128) -> WorkflowInstanceView {
    WorkflowInstanceView {
        run_id,
        workflow_id: req.workflow_id,
        name: text_or(req.workflow_type, Seq::empty()),
        task_queue: text_or(req.task_queue, "default"@),
        state: WorkflowState::Pending,
        args_json: input_json(req.input),
        result_json: None,
        timeouts: Timeouts {
            execution_timeout_secs: crate::db::workflows::unsigned(req.execution_timeout),
            run_timeout_secs: crate::db::workflows::unsigned(req.run_timeout),
            task_timeout_secs: crate::db::workflows::unsigned(req.task_timeout),
        },
        started_at: None,
        completed_at: None,
        namespace: or_default(req.namespace),
    }
}

/// The steps of the run that a request starts; each gets the input of the run.
pub open spec fn execution_steps(
    req: StartWorkflowExecutionRequestView,
    run_id: u128,
    ids: Seq<u128>,
) -> Seq<WorkflowStepInstanceView> {
    let defs = workflow_definition(text_or(req.workflow_type, Seq::empty()));
    Seq::new(
        defs.len(),
        |i: int| first_step(run_id, ids[i], i, defs[i], input_json(req.input)),
    )
}

/// The tables after a request to start a run, and the reply: the run ID.
pub open spec fn execution_begun(
    s: Store,
    req: StartWorkflowExecutionRequestView,
    run_id: u128,
    ids: Seq<u128>,
    now: Timestamp,
) -> (Store, Result<Text, StatusView>) {
    let (with_run, r) = workflow_inserted(s, execution_asked(req, run_id));
    match r {
        Err(e) => (with_run, Err(internal("Failed to create workflow: "@ + e))),
        Ok(_) => {
            let (after, r) = steps_created(with_run, execution_steps(req, run_id, ids), now);
            match r {
                Err((at, e)) => (after, Err(step_refusal(at, e))),
                Ok(_) => (after, Ok(uuid_text(run_id))),
            }
        },
    }
}

/// Starts a run at `now` with the given IDs for the run and its steps.
pub fn start_workflow_execution_at(
    db: &mut Database,
    req: &StartWorkflowExecutionRequest,
    run_id: u128,
    step_ids: &Vec<u128>,
    now: &Timestamp,
) -> (r: Result<String, Status>)
    requires
        step_ids@.len() >= MOST_STEPS,
    ensures
        (final(db).deep_view(), reply(r)) == execution_begun(
            old(db).deep_view(),
            req.deep_view(),
            run_id,
            step_ids@,
            *now,
        ),
{
    proof {
        reveal_strlit("");
        assert(""@ =~= Seq::<char>::empty());
    }
    let name: String = take_text_or(&req.workflow_type, "");
    let workflow: WorkflowInstance = WorkflowInstance {
        run_id,
        workflow_id: req.workflow_id.clone(),
        name: name.clone(),
        task_queue: take_text_or(&req.task_queue, "default"),
        state: WorkflowState::Pending,
        args_json: make_input_json(&req.input),
        result_json: None,
        timeouts: Timeouts {
            execution_timeout_secs: seconds_of(req.execution_timeout),
            run_timeout_secs: seconds_of(req.run_timeout),
            task_timeout_secs: seconds_of(req.task_timeout),
        },
        started_at: None,
        completed_at: None,
        namespace: name_or_default(req.namespace.as_str()),
    };
    proof {
        assert(workflow.deep_view() =~= execution_asked(req.deep_view(), run_id));
    }
    if let Err(e) = insert_workflow(db, &workflow) {
        return Err(Status::internal("Failed to create workflow: ", e.as_str()));
    }
    let defs: Vec<ActivityStep> = get_workflow_definition(name.as_str());
    let ghost asked = execution_steps(req.deep_view(), run_id, step_ids@);
    let mut steps: Vec<WorkflowStepInstance> = Vec::new();
    let mut i: usize = 0;
    while i < defs.len()
        invariant
            i <= defs@.len(),
            defs@.len() <= MOST_STEPS <= step_ids@.len(),
            name@ == text_or(req.deep_view().workflow_type, Seq::empty()),
            defs.deep_view() == workflow_definition(name@),
            asked == execution_steps(req.deep_view(), run_id, step_ids@),
            asked.len() == defs@.len(),
            workflow.args_json.deep_view() == input_json(req.deep_view().input),
            steps@.len() == i,
            forall|j: int| 0 <= j < i ==> (#[trigger] steps@[j]).deep_view() == asked[j],
        decreases defs@.len() - i,
    {
        proof {
            assert(defs.deep_view()[i as int] == defs@[i as int].deep_view());
        }
        steps.push(
            make_first_step(run_id, step_ids[i], i, &defs[i], workflow.args_json.copy()),
        );
        i += 1;
    }
    proof {
        assert(steps.deep_view() =~= asked);
    }
    match create_steps(db, &steps, now) {
        Ok(_) => Ok(uuid_to_text(run_id)),
        Err((at, e)) => Err(refuse_step(at, e.as_str())),
    }
}

/// Starts a run.
pub fn start_workflow_execution(db: &mut Database, req: &StartWorkflowExecutionRequest) -> (r: Result<
    String,
    Status,
>)
    ensures
        exists|run_id: u128, ids: Seq<u128>, now: Timestamp|
            clock_shows(now) && (final(db).deep_view(), reply(r)) == #[trigger] execution_begun(
                old(db).deep_view(),
                req.deep_view(),
                run_id,
                ids,
                now,
            ),
{
    let run_ids: Vec<u128> = fresh_ids(1);
    let step_ids: Vec<u128> = fresh_ids(MOST_STEPS);
    let now: Timestamp = utc_now();
    start_workflow_execution_at(db, req, run_ids[0], &step_ids, &now)
}

// ---- polling for activity tasks -------------------------------------------------------------

/// A task as a poll of a task queue gets it.
#[derive(Debug)]
pub struct QueuedTask {
    pub task_token: Vec<u8>,
    pub workflow_namespace: String,
    pub run_id: String,
    pub activity_name: String,
    /// The JSON text of the single argument, where there is one.
    pub input: Option<Vec<u8>>,
    pub heartbeat_timeout_secs: i64,
    pub timeout_secs: i64,
}

/// The view of a [`QueuedTask`].
#[verifier::ext_equal]
pub struct QueuedTaskView {
    pub task_token: Seq<u8>,
    pub workflow_namespace: Text,
    pub run_id: Text,
    pub activity_name: Text,
    pub input: Option<Seq<u8>>,
    pub heartbeat_timeout_secs: i64,
    pub timeout_secs: i64,
}

impl DeepView for QueuedTask {
    type V = QueuedTaskView;

    open spec fn deep_view(&self) -> QueuedTaskView {
        QueuedTaskView {
            task_token: self.task_token@,
            workflow_namespace: self.workflow_namespace@,
            run_id: self.run_id@,
            activity_name: self.activity_name@,
            input: match self.input {
                Some(bytes) => Some(bytes@),
                None => None,
            },
            heartbeat_timeout_secs: self.heartbeat_timeout_secs,
            timeout_secs: self.timeout_secs,
        }
    }
}

/// The namespace of a run; `default` where there is no such run.
pub open spec fn namespace_of(rows: Seq<WorkflowRecord>, run_id: Text) -> Text {
    match with_key(rows, run_id) {
        Some(row) => row.namespace,
        None => "default"@,
    }
}

/// A worker that polls a queue wants a step: the run is on the queue, and the step is in turn.
pub open spec fn step_wanted(
    s: Store,
    row: StepRecord,
    step: WorkflowStepInstanceView,
    queue: Text,
) -> bool {
    &&& queue_of(s.workflows, uuid_text(step.workflow_run_id)) == queue
    &&& in_turn(s.steps, row)
}

/// The step that a worker gets from a queue.
pub open spec fn step_queued(s: Store, queue: Text, now: Timestamp) -> Result<
    Option<WorkflowStepInstanceView>,
    Text,
> {
    step_chosen(
        s,
        now,
        |row: StepRecord, step: WorkflowStepInstanceView| step_wanted(s, row, step, queue),
    )
}

/// The argument of a step for the worker: a string that is not empty, as JSON text.
pub open spec fn step_input(args_json: Text) -> Option<Seq<u8>> {
    match json_as_string(args_json) {
        Some(job_id) => if job_id.len() == 0 {
            None
        } else {
            Some(encode_utf8(json_string_text(job_id)))
        },
        None => None,
    }
}

/// The task for a step.
pub open spec fn queued_task(
    step: WorkflowStepInstanceView,
    activity_id: u128,
    namespace: Text,
) -> QueuedTaskView {
    QueuedTaskView {
        task_token: encode_utf8(uuid_text(activity_id)),
        workflow_namespace: namespace,
        run_id: uuid_text(step.workflow_run_id),
        activity_name: step.activity_name,
        input: step_input(step.args_json),
        heartbeat_timeout_secs: match step.heartbeat_timeout_secs {
            Some(secs) => secs as i64,
            None => 30,
        },
        timeout_secs: step.timeout_secs as i64,
    }
}

/// The tables after a poll of a task queue, and the reply: the task for the first ready step on
/// the queue, which is handed out; nothing where there is none.
pub open spec fn queue_polled(s: Store, queue: Text, activity_id: u128, now: Timestamp) -> (
    Store,
    Result<Option<QueuedTaskView>, StatusView>,
) {
    match step_queued(s, queue, now) {
        Err(e) => (s, Err(internal("Failed to get pending steps: "@ + e))),
        Ok(None) => (s, Ok(None)),
        Ok(Some(step)) => {
            let (after, r) = handed_out(s, step, activity_id, now);
            match r {
                Err(e) => (after, Err(e)),
                Ok(_) => (
                    after,
                    Ok(
                        Some(
                            queued_task(
                                step,
                                activity_id,
                                namespace_of(after.workflows, uuid_text(step.workflow_run_id)),
                            ),
                        ),
                    ),
                ),
            }
        },
    }
}

fn find_namespace(db: &Database, run_id: &str) -> (r: String)
    ensures
        r@ == namespace_of(db.deep_view().workflows, run_id@),
{
    match find_row(&db.workflows, run_id) {
        Some(p) => db.workflows[p].namespace.clone(),
        None => "default".to_owned(),
    }
}

/// Finds the step that a worker gets from a queue.
fn offer_queued(db: &Database, queue: &str, now: &Timestamp) -> (r: Result<
    Option<WorkflowStepInstance>,
    String,
>)
    ensures
        outcome(r) == step_queued(db.deep_view(), queue@, *now),
{
    let places: Vec<usize> = find_ready(db, now);
    let mut list: Vec<WorkflowStepInstance> = match read_steps(db, &places, now) {
        Ok(list) => list,
        Err(e) => return Err(e),
    };
    let ghost s = db.deep_view();
    let ghost rows = ready_rows(s.steps, *now);
    let ghost all = list.deep_view();
    let ghost wanted = |row: StepRecord, step: WorkflowStepInstanceView|
        step_wanted(s, row, step, queue@);
    let ghost marks = Seq::new(all.len(), |p: int| wanted(rows[p], all[p]));
    proof {
        lemma_steps_in(rows);
    }
    let mut i: usize = 0;
    while i < list.len()
        invariant
            i <= list@.len(),
            list@.len() == places@.len(),
            s == db.deep_view(),
            rows == ready_rows(s.steps, *now),
            places_ready(s.steps, places@, *now),
            all == list.deep_view(),
            steps_in(rows) == Ok::<Seq<WorkflowStepInstanceView>, Text>(all),
            wanted == (|row: StepRecord, step: WorkflowStepInstanceView|
                step_wanted(s, row, step, queue@)),
            marks == Seq::new(all.len(), |p: int| wanted(rows[p], all[p])),
            forall|j: int| 0 <= j < i ==> !(#[trigger] marks[j]),
        decreases list@.len() - i,
    {
        let on: String = find_queue(db, list[i].workflow_run_id);
        proof {
            assert(all[i as int] == list@[i as int].deep_view());
            assert(s.steps[places@[i as int] as int] == rows[i as int]);
            assert(marks[i as int] == wanted(rows[i as int], all[i as int]));
        }
        if text_eq(on.as_str(), queue) && is_in_turn(db, places[i]) {
            proof {
                lemma_first_mark(marks, i as int);
            }
            return Ok(Some(list.swap_remove(i)));
        }
        i += 1;
    }
    proof {
        lemma_first_mark(marks, i as int);
    }
    Ok(None)
}

fn make_step_input(args_json: &Json) -> (r: Option<Vec<u8>>)
    ensures
        match r {
            Some(bytes) => step_input(args_json.deep_view()) == Some(bytes@),
            None => step_input(args_json.deep_view()) is None,
        },
{
    match args_json.as_string() {
        Some(job_id) => {
            if job_id.as_str().is_empty() {
                None
            } else {
                let text: String = string_to_json(job_id.as_str());
                Some(text.as_str().as_bytes_vec())
            }
        },
        None => None,
    }
}

fn make_queued_task(step: &WorkflowStepInstance, activity_id: u128, namespace: String) -> (r: QueuedTask)
    ensures
        r.deep_view() == queued_task(step.deep_view(), activity_id, namespace@),
{
    let token: String = uuid_to_text(activity_id);
    let heartbeat_timeout_secs: i64 = match step.heartbeat_timeout_secs {
        Some(secs) => secs as i64,
        None => 30,
    };
    QueuedTask {
        task_token: token.as_str().as_bytes_vec(),
        workflow_namespace: namespace,
        run_id: uuid_to_text(step.workflow_run_id),
        activity_name: step.activity_name.clone(),
        input: make_step_input(&step.args_json),
        heartbeat_timeout_secs,
        timeout_secs: step.timeout_secs as i64,
    }
}

/// The step that a worker gets from a queue has not used up its attempt numbers.
pub open spec fn queued_attempt_left(s: Store, queue: Text, now: Timestamp) -> bool {
    step_queued(s, queue, now) matches Ok(Some(step)) ==> step.attempt < u32::MAX
}

/// Whether the step that a worker gets from a queue has not used up its attempt numbers.
pub fn has_queued_attempt_left(db: &Database, task_queue: &Option<String>, now: &Timestamp) -> (r: bool)
    ensures
        r == queued_attempt_left(
            db.deep_view(),
            text_or(task_queue.deep_view(), Seq::empty()),
            *now,
        ),
{
    proof {
        reveal_strlit("");
        assert(""@ =~= Seq::<char>::empty());
    }
    let queue: String = take_text_or(task_queue, "");
    match offer_queued(db, queue.as_str(), now) {
        Ok(Some(step)) => step.attempt < u32::MAX,
        _ => true,
    }
}

/// Polls a task queue at `now`, with the given ID for the attempt.
pub fn poll_activity_task_queue_at(
    db: &mut Database,
    task_queue: &Option<String>,
    activity_id: u128,
    now: &Timestamp,
) -> (r: Result<Option<QueuedTask>, Status>)
    requires
        queued_attempt_left(
            old(db).deep_view(),
            text_or(task_queue.deep_view(), Seq::empty()),
            *now,
        ),
    ensures
        (final(db).deep_view(), reply(r)) == queue_polled(
            old(db).deep_view(),
            text_or(task_queue.deep_view(), Seq::empty()),
            activity_id,
            *now,
        ),
{
    proof {
        reveal_strlit("");
        assert(""@ =~= Seq::<char>::empty());
    }
    let queue: String = take_text_or(task_queue, "");
    match offer_queued(db, queue.as_str(), now) {
        Err(e) => Err(Status::internal("Failed to get pending steps: ", e.as_str())),
        Ok(None) => Ok(None),
        Ok(Some(step)) => match hand_out(db, &step, activity_id, now) {
            Err(e) => Err(e),
            Ok(_) => {
                let run_id: String = uuid_to_text(step.workflow_run_id);
                let namespace: String = find_namespace(db, run_id.as_str());
                Ok(Some(make_queued_task(&step, activity_id, namespace)))
            },
        },
    }
}

/// What a poll of a task queue does at `now`: nothing, where the step has used up its attempt
/// numbers.
pub open spec fn queue_outcome(s: Store, queue: Text, activity_id: u128, now: Timestamp) -> (
    Store,
    Option<Result<Option<QueuedTaskView>, StatusView>>,
) {
    if queued_attempt_left(s, queue, now) {
        let (after, r) = queue_polled(s, queue, activity_id, now);
        (after, Some(r))
    } else {
        (s, None)
    }
}

/// Polls a task queue. Where the step has used up its attempt numbers, the tables stay as they are
/// and the result is empty.
pub fn poll_activity_task_queue(db: &mut Database, task_queue: &Option<String>) -> (r: Option<
    Result<Option<QueuedTask>, Status>,
>)
    ensures
        exists|activity_id: u128, now: Timestamp|
            clock_shows(now) && (
                final(db).deep_view(),
                match r {
                    Some(polled) => Some(reply(polled)),
                    None => None,
                },
            ) == #[trigger] queue_outcome(
                old(db).deep_view(),
                text_or(task_queue.deep_view(), Seq::empty()),
                activity_id,
                now,
            ),
{
    let ids: Vec<u128> = fresh_ids(1);
    let now: Timestamp = utc_now();
    let ghost planned = queue_outcome(
        db.deep_view(),
        text_or(task_queue.deep_view(), Seq::empty()),
        ids@[0],
        now,
    );
    if has_queued_attempt_left(db, task_queue, &now) {
        let polled: Result<Option<QueuedTask>, Status> = poll_activity_task_queue_at(
            db,
            task_queue,
            ids[0],
            &now,
        );
        proof {
            assert(planned == (db.deep_view(), Some(reply(polled))));
        }
        Some(polled)
    } else {
        None
    }
}

// ---- results and failures -------------------------------------------------------------------

/// The value of a result: what the first payload holds as JSON, or its text as a string where it
/// is no JSON; an empty object without payload.
pub open spec fn result_value(result: Option<Seq<Seq<u8>>>) -> Text {
    match result {
        Some(payloads) => if payloads.len() == 0 {
            "{}"@
        } else {
            match json_parse_bytes(payloads[0]) {
                Some(text) => text,
                None => json_string_text(lossy_text(payloads[0])),
            }
        },
        None => "{}"@,
    }
}

fn read_result_value(result: &Option<Vec<Vec<u8>>>) -> (r: Json)
    ensures
        r.deep_view() == result_value(result.deep_view()),
{
    match result {
        None => Json::empty_object(),
        Some(payloads) => {
            if payloads.len() == 0 {
                return Json::empty_object();
            }
            proof {
                assert(payloads.deep_view()[0] =~= payloads@[0]@);
            }
            match Json::parse_bytes(&payloads[0]) {
                Some(v) => v,
                None => {
                    let text: String = lossy(&payloads[0]);
                    Json::string(text.as_str())
                },
            }
        },
    }
}

/// The tables after a response with a result, and the reply.
pub open spec fn task_completed(
    s: Store,
    token: Seq<u8>,
    result: Option<Seq<Seq<u8>>>,
    now: Timestamp,
) -> (Store, Result<(), StatusView>) {
    let activity_id = lossy_text(token);
    let value = result_value(result);
    let marked = activity_state_updated(
        s,
        activity_id,
        ActivityState::Completed,
        Some(value),
        None,
        now,
    ).0;
    match with_key(marked.activities, activity_id) {
        None => (
            marked,
            Err(internal("Failed to find activity: "@ + "Query returned no rows"@)),
        ),
        Some(row) => (
            step_state_updated(
                marked,
                row.step_id,
                WorkflowState::Completed,
                None,
                Some(value),
                None,
            ).0,
            Ok(()),
        ),
    }
}

/// Takes a response with a result at `now`.
pub fn respond_activity_task_completed_at(
    db: &mut Database,
    task_token: &Vec<u8>,
    result: &Option<Vec<Vec<u8>>>,
    now: &Timestamp,
) -> (r: Result<(), Status>)
    ensures
        (final(db).deep_view(), reply(r)) == task_completed(
            old(db).deep_view(),
            task_token@,
            result.deep_view(),
            *now,
        ),
{
    let activity_id: String = lossy(task_token);
    let value: Json = read_result_value(result);
    let _marked: Result<(), String> = update_activity_state_at(
        db,
        activity_id.as_str(),
        ActivityState::Completed,
        Some(&value),
        None,
        now,
    );
    let step_id: String = match find_row(&db.activities, activity_id.as_str()) {
        None => return Err(
            Status::internal("Failed to find activity: ", "Query returned no rows"),
        ),
        Some(p) => db.activities[p].step_id.clone(),
    };
    let _done: Result<(), String> = update_step_state(
        db,
        step_id.as_str(),
        WorkflowState::Completed,
        None,
        Some(&value),
        None,
    );
    Ok(())
}

/// Takes a response with a result.
pub fn respond_activity_task_completed(
    db: &mut Database,
    task_token: &Vec<u8>,
    result: &Option<Vec<Vec<u8>>>,
) -> (r: Result<(), Status>)
    ensures
        exists|now: Timestamp|
            clock_shows(now) && (final(db).deep_view(), reply(r)) == #[trigger] task_completed(
                old(db).deep_view(),
                task_token@,
                result.deep_view(),
                now,
            ),
{
    let now: Timestamp = utc_now();
    respond_activity_task_completed_at(db, task_token, result, &now)
}

/// Takes a response with a failure at `now`: the same as a report of the failure of the activity
/// that the token names.
pub fn respond_activity_task_failed_at(
    db: &mut Database,
    task_token: &Vec<u8>,
    failure: &Option<String>,
    now: &Timestamp,
) -> (r: Result<bool, Status>)
    requires
        now.ordinary(),
        failure_on_calendar(old(db).deep_view(), lossy_text(task_token@), *now),
    ensures
        (final(db).deep_view(), reply(r)) == activity_failure_reported(
            old(db).deep_view(),
            lossy_text(task_token@),
            text_or(failure.deep_view(), Seq::empty()),
            *now,
        ),
{
    proof {
        reveal_strlit("");
        assert(""@ =~= Seq::<char>::empty());
    }
    let activity_id: String = lossy(task_token);
    let message: String = take_text_or(failure, "");
    report_activity_failure_at(db, activity_id.as_str(), message.as_str(), now)
}

/// Takes a response with a failure. Where it cannot be taken, because the calendar ends, the
/// tables stay as they are and the result is empty.
pub fn respond_activity_task_failed(
    db: &mut Database,
    task_token: &Vec<u8>,
    failure: &Option<String>,
) -> (r: Option<Result<bool, Status>>)
    ensures
        exists|now: Timestamp|
            clock_shows(now) && (
                final(db).deep_view(),
                match r {
                    Some(taken) => Some(reply(taken)),
                    None => None,
                },
            ) == #[trigger] failure_outcome(
                old(db).deep_view(),
                lossy_text(task_token@),
                text_or(failure.deep_view(), Seq::empty()),
                now,
            ),
{
    proof {
        reveal_strlit("");
        assert(""@ =~= Seq::<char>::empty());
    }
    let now: Timestamp = utc_now();
    let activity_id: String = lossy(task_token);
    let ghost planned = failure_outcome(
        db.deep_view(),
        lossy_text(task_token@),
        text_or(failure.deep_view(), Seq::empty()),
        now,
    );
    if failure_fits(db, activity_id.as_str(), &now) {
        let taken: Result<bool, Status> = respond_activity_task_failed_at(
            db,
            task_token,
            failure,
            &now,
        );
        proof {
            assert(planned == (db.deep_view(), Some(reply(taken))));
        }
        Some(taken)
    } else {
        None
    }
}

// ---- schedules ------------------------------------------------------------------------------

/// The trigger of a schedule: cron strings, and intervals in seconds.
#[derive(Debug)]
pub struct TriggerSpec {
    pub cron_string: Vec<String>,
    pub interval: Vec<Option<i64>>,
}

/// The view of a [`TriggerSpec`].
#[verifier::ext_equal]
pub struct TriggerSpecView {
    pub cron_string: Seq<Text>,
    pub interval: Seq<Option<i64>>,
}

impl DeepView for TriggerSpec {
    type V = TriggerSpecView;

    open spec fn deep_view(&self) -> TriggerSpecView {
        TriggerSpecView {
            cron_string: self.cron_string.deep_view(),
            interval: self.interval@,
        }
    }
}

/// The start of a workflow, as the action of a schedule.
#[derive(Debug)]
pub struct StartWorkflowAction {
    pub workflow_type: Option<String>,
    pub task_queue: Option<String>,
    pub workflow_id: String,
    /// The data of the payloads.
    pub input: Option<Vec<Vec<u8>>>,
}

/// The view of a [`StartWorkflowAction`].
#[verifier::ext_equal]
pub struct StartWorkflowActionView {
    pub workflow_type: Option<Text>,
    pub task_queue: Option<Text>,
    pub workflow_id: Text,
    pub input: Option<Seq<Seq<u8>>>,
}

impl DeepView for StartWorkflowAction {
    type V = StartWorkflowActionView;

    open spec fn deep_view(&self) -> StartWorkflowActionView {
        StartWorkflowActionView {
            workflow_type: self.workflow_type.deep_view(),
            task_queue: self.task_queue.deep_view(),
            workflow_id: self.workflow_id@,
            input: self.input.deep_view(),
        }
    }
}

/// The action of a schedule; what it does may be missing.
#[derive(Debug)]
pub struct ScheduleAction {
    pub start_workflow: Option<StartWorkflowAction>,
}

/// The view of a [`ScheduleAction`].
#[verifier::ext_equal]
pub struct ScheduleActionView {
    pub start_workflow: Option<StartWorkflowActionView>,
}

impl DeepView for ScheduleAction {
    type V = ScheduleActionView;

    open spec fn deep_view(&self) -> ScheduleActionView {
        ScheduleActionView { start_workflow: self.start_workflow.deep_view() }
    }
}

/// A schedule as a request carries it.
#[derive(Debug)]
pub struct ScheduleBody {
    pub spec: Option<TriggerSpec>,
    pub action: Option<ScheduleAction>,
    pub overlap_policy: Option<i32>,
}

/// The view of a [`ScheduleBody`].
#[verifier::ext_equal]
pub struct ScheduleBodyView {
    pub spec: Option<TriggerSpecView>,
    pub action: Option<ScheduleActionView>,
    pub overlap_policy: Option<i32>,
}

impl DeepView for ScheduleBody {
    type V = ScheduleBodyView;

    open spec fn deep_view(&self) -> ScheduleBodyView {
        ScheduleBodyView {
            spec: self.spec.deep_view(),
            action: self.action.deep_view(),
            overlap_policy: self.overlap_policy,
        }
    }
}

/// The overlap policy for a number of the Temporal API.
pub open spec fn overlap_of(number: i32) -> OverlapColumn {
    if number == 2 || number == 3 {
        OverlapColumn::Buffer(1)
    } else if number == 4 || number == 5 {
        OverlapColumn::Terminate
    } else {
        OverlapColumn::Skip
    }
}

/// The number of the Temporal API for an overlap policy.
pub open spec fn overlap_number(policy: OverlapColumn) -> i32 {
    match policy {
        OverlapColumn::Skip => 1,
        OverlapColumn::Buffer(_) => 2,
        OverlapColumn::Terminate => 4,
    }
}

/// The number for an overlap policy stands for that policy, with a buffer of one.
pub proof fn law_overlap_numbers_read_back(policy: OverlapColumn)
    requires
        policy matches OverlapColumn::Buffer(n) ==> n == 1,
    ensures
        overlap_of(overlap_number(policy)) == policy,
{
}

fn read_overlap_number(number: i32) -> (r: OverlapColumn)
    ensures
        r == overlap_of(number),
{
    if number == 2 || number == 3 {
        OverlapColumn::Buffer(1)
    } else if number == 4 || number == 5 {
        OverlapColumn::Terminate
    } else {
        OverlapColumn::Skip
    }
}

fn to_overlap_number(policy: OverlapColumn) -> (r: i32)
    ensures
        r == overlap_number(policy),
{
    match policy {
        OverlapColumn::Skip => 1,
        OverlapColumn::Buffer(_) => 2,
        OverlapColumn::Terminate => 4,
    }
}

/// The first interval; zero where it has no length.
pub open spec fn first_interval(interval: Seq<Option<i64>>) -> i64 {
    match interval[0] {
        Some(secs) => secs,
        None => 0,
    }
}

fn read_first_interval(interval: &Vec<Option<i64>>) -> (r: i64)
    requires
        interval@.len() > 0,
    ensures
        r == first_interval(interval@),
{
    match interval[0] {
        Some(secs) => secs,
        None => 0,
    }
}

/// The job that a schedule is for: the text of the first payload; without payloads what follows
/// `lycus-cron-` in the ID of the schedule, where it begins with it.
pub open spec fn job_of(schedule_id: Text, input: Option<Seq<Seq<u8>>>) -> Text {
    match input {
        Some(payloads) => if payloads.len() == 0 {
            Seq::empty()
        } else {
            lossy_text(payloads[0])
        },
        None => match after_prefix(schedule_id, "lycus-cron-"@) {
            Some(rest) => rest,
            None => Seq::empty(),
        },
    }
}

fn read_job(schedule_id: &str, input: &Option<Vec<Vec<u8>>>) -> (r: String)
    ensures
        r@ == job_of(schedule_id@, input.deep_view()),
{
    match input {
        Some(payloads) => {
            if payloads.len() == 0 {
                String::new()
            } else {
                proof {
                    assert(payloads.deep_view()[0] =~= payloads@[0]@);
                }
                lossy(&payloads[0])
            }
        },
        None => match strip_text_prefix(schedule_id, "lycus-cron-") {
            Some(rest) => rest,
            None => String::new(),
        },
    }
}

/// The row that a request to create a schedule asks for, or the refusal of it. Its arguments are
/// those for the job.
pub open spec fn row_asked(
    schedule_id: Text,
    namespace: Text,
    schedule: Option<ScheduleBodyView>,
    now: Timestamp,
) -> Result<ScheduleRecord, StatusView> {
    match schedule {
        None => Err(invalid("schedule is required"@)),
        Some(body) => match (body.spec, body.action) {
            (None, _) => Err(invalid("schedule spec is required"@)),
            (Some(_), None) => Err(invalid("schedule action is required"@)),
            (Some(spec), Some(action)) => if spec.cron_string.len() == 0 && spec.interval.len()
                == 0 {
                Err(invalid("schedule spec must have cron_string or interval"@))
            } else {
                match action.start_workflow {
                    None => Err(invalid("schedule action start_workflow is required"@)),
                    Some(start) => Ok(
                        ScheduleRecord {
                            schedule_id,
                            namespace: or_default(namespace),
                            spec_type: if spec.cron_string.len() > 0 {
                                SpecType::Cron
                            } else {
                                SpecType::Interval
                            },
                            cron_expressions: Some(json_list_text(spec.cron_string)),
                            interval_seconds: Some(
                                if spec.cron_string.len() > 0 {
                                    0
                                } else {
                                    first_interval(spec.interval)
                                },
                            ),
                            overlap_policy: match body.overlap_policy {
                                Some(number) => overlap_of(number),
                                None => OverlapColumn::Skip,
                            },
                            action_workflow_name: text_or(start.workflow_type, Seq::empty()),
                            action_task_queue: text_or(start.task_queue, Seq::empty()),
                            action_args_json: job_column(job_of(schedule_id, start.input)),
                            action_id: Some(start.workflow_id),
                            timeouts: TimeoutsColumnView::Timeouts(Timeouts::unlimited()),
                            created_at: time_text(now),
                            updated_at: time_text(now),
                        },
                    ),
                }
            },
        },
    }
}

/// The tables after a request to create a schedule, and the reply.
pub open spec fn schedule_created(
    s: Store,
    schedule_id: Text,
    namespace: Text,
    schedule: Option<ScheduleBodyView>,
    now: Timestamp,
) -> (Store, Result<(), StatusView>) {
    match row_asked(schedule_id, namespace, schedule, now) {
        Err(e) => (s, Err(e)),
        Ok(row) => {
            let (after, r) = schedule_row_inserted(s, row);
            match r {
                Ok(_) => (after, Ok(())),
                Err(e) => (after, Err(internal("Failed to create schedule: "@ + e))),
            }
        },
    }
}

/// The schedule that a trigger, what it starts and an overlap policy make.
pub open spec fn schedule_meant(
    schedule_id: Text,
    namespace: Text,
    spec: TriggerSpecView,
    start: StartWorkflowActionView,
    overlap_policy: Option<i32>,
    now: Timestamp,
) -> ScheduleView {
    ScheduleView {
        schedule_id,
        namespace: or_default(namespace),
        spec: if spec.cron_string.len() > 0 {
            ScheduleSpecView::Cron(spec.cron_string)
        } else {
            ScheduleSpecView::Interval(
                Interval { secs: first_interval(spec.interval) as u64, nanos: 0 },
            )
        },
        action: WorkflowActionView {
            workflow_name: text_or(start.workflow_type, Seq::empty()),
            args: job_entries(job_of(schedule_id, start.input)),
            task_queue: text_or(start.task_queue, Seq::empty()),
            id: start.workflow_id,
            timeouts: Timeouts::unlimited(),
        },
        policy: overlap_in(
            match overlap_policy {
                Some(number) => overlap_of(number),
                None => OverlapColumn::Skip,
            },
        ),
        created_at: now.whole_second(),
        updated_at: now.whole_second(),
    }
}

/// The schedule that a request asked for is found under its ID as it is meant, and described with
/// its cron strings.
pub open spec fn created_reads_back(
    after: Store,
    schedule_id: Text,
    namespace: Text,
    schedule: Option<ScheduleBodyView>,
    now: Timestamp,
) -> bool {
    match schedule {
        Some(
            ScheduleBodyView {
                spec: Some(spec),
                action: Some(ScheduleActionView { start_workflow: Some(start) }),
                overlap_policy,
            },
        ) => {
            &&& schedule_found(after, schedule_id) == Ok::<Option<ScheduleView>, Text>(
                Some(schedule_meant(schedule_id, namespace, spec, start, overlap_policy, now)),
            )
            &&& schedule_described(after, schedule_id, namespace) == Ok::<
                ScheduleDescriptionView,
                StatusView,
            >(description_meant(spec, start, overlap_policy))
        },
        _ => false,
    }
}

/// Creates a schedule at `now`. It is then found under its ID as it is meant, and described with its
/// cron strings.
pub fn create_schedule_at(
    db: &mut Database,
    schedule_id: &str,
    namespace: &str,
    schedule: Option<ScheduleBody>,
    now: &Timestamp,
) -> (r: Result<(), Status>)
    ensures
        (final(db).deep_view(), reply(r)) == schedule_created(
            old(db).deep_view(),
            schedule_id@,
            namespace@,
            schedule.deep_view(),
            *now,
        ),
        r is Ok ==> created_reads_back(
            final(db).deep_view(),
            schedule_id@,
            namespace@,
            schedule.deep_view(),
            *now,
        ),
{
    proof {
        reveal_strlit("");
        assert(""@ =~= Seq::<char>::empty());
    }
    let body: ScheduleBody = match schedule {
        Some(body) => body,
        None => return Err(Status::invalid_argument("schedule is required")),
    };
    let spec: TriggerSpec = match body.spec {
        Some(spec) => spec,
        None => return Err(Status::invalid_argument("schedule spec is required")),
    };
    let action: ScheduleAction = match body.action {
        Some(action) => action,
        None => return Err(Status::invalid_argument("schedule action is required")),
    };
    let cron: bool = spec.cron_string.len() > 0;
    if !cron && spec.interval.len() == 0 {
        return Err(
            Status::invalid_argument("schedule spec must have cron_string or interval"),
        );
    }
    let start: StartWorkflowAction = match action.start_workflow {
        Some(start) => start,
        None => return Err(
            Status::invalid_argument("schedule action start_workflow is required"),
        ),
    };
    let job_id: String = read_job(schedule_id, &start.input);
    let action_args_json: String = make_job_column(job_id.as_str());
    let row: ScheduleRow = ScheduleRow {
        schedule_id: schedule_id.to_owned(),
        namespace: name_or_default(namespace),
        spec_type: if cron {
            SpecType::Cron
        } else {
            SpecType::Interval
        },
        cron_expressions: Some(list_to_json(&spec.cron_string)),
        interval_seconds: Some(
            if cron {
                0
            } else {
                read_first_interval(&spec.interval)
            },
        ),
        overlap_policy: match body.overlap_policy {
            Some(number) => read_overlap_number(number),
            None => OverlapColumn::Skip,
        },
        action_workflow_name: take_text_or(&start.workflow_type, ""),
        action_task_queue: take_text_or(&start.task_queue, ""),
        action_args_json,
        action_id: Some(start.workflow_id),
        timeouts: TimeoutsColumn::Timeouts(Timeouts::default()),
        created_at: format_datetime(now),
        updated_at: format_datetime(now),
    };
    proof {
        let asked = schedule.deep_view();
        let record = row_asked(schedule_id@, namespace@, asked, *now)->Ok_0;
        assert(row.deep_view() =~= record);
        lemma_with_key_push(db.schedules.deep_view(), record, schedule_id@);
        if !has_key(db.schedules.deep_view(), schedule_id@) {
            crate::laws::scheduling::law_created_schedule_is_described(
                db.deep_view(),
                schedule_id@,
                namespace@,
                asked,
                *now,
            );
        }
    }
    match insert_schedule_row(db, row) {
        Ok(_) => Ok(()),
        Err(e) => Err(Status::internal("Failed to create schedule: ", e.as_str())),
    }
}

/// Creates a schedule. It is then found under its ID as it is meant, and described with its cron
/// strings.
pub fn create_schedule(
    db: &mut Database,
    schedule_id: &str,
    namespace: &str,
    schedule: Option<ScheduleBody>,
) -> (r: Result<(), Status>)
    ensures
        exists|now: Timestamp|
            clock_shows(now) && (final(db).deep_view(), reply(r)) == #[trigger] schedule_created(
                old(db).deep_view(),
                schedule_id@,
                namespace@,
                schedule.deep_view(),
                now,
            ) && (r is Ok ==> created_reads_back(
                final(db).deep_view(),
                schedule_id@,
                namespace@,
                schedule.deep_view(),
                now,
            )),
{
    let now: Timestamp = utc_now();
    create_schedule_at(db, schedule_id, namespace, schedule, &now)
}

// ---- changing a schedule --------------------------------------------------------------------

/// The row is the schedule in that namespace.
pub open spec fn is_schedule(row: ScheduleRecord, schedule_id: Text, namespace: Text) -> bool {
    row.schedule_id == schedule_id && row.namespace == namespace
}

/// The place of the schedule in that namespace.
pub open spec fn schedule_place(rows: Seq<ScheduleRecord>, schedule_id: Text, namespace: Text) -> Option<
    int,
>
    decreases rows.len(),
{
    if rows.len() == 0 {
        None
    } else {
        match schedule_place(rows.drop_last(), schedule_id, namespace) {
            Some(p) => Some(p),
            None => if is_schedule(rows.last(), schedule_id, namespace) {
                Some(rows.len() - 1)
            } else {
                None
            },
        }
    }
}

proof fn lemma_schedule_place_prefix(
    rows: Seq<ScheduleRecord>,
    schedule_id: Text,
    namespace: Text,
    n: int,
)
    requires
        0 <= n <= rows.len(),
        schedule_place(rows.take(n), schedule_id, namespace) is Some,
    ensures
        schedule_place(rows, schedule_id, namespace) == schedule_place(
            rows.take(n),
            schedule_id,
            namespace,
        ),
    decreases rows.len(),
{
    if n == rows.len() {
        assert(rows.take(n) =~= rows);
    } else {
        assert(rows.drop_last().take(n) =~= rows.take(n));
        lemma_schedule_place_prefix(rows.drop_last(), schedule_id, namespace, n);
    }
}

/// Finds the schedule in that namespace.
fn find_schedule(db: &Database, schedule_id: &str, namespace: &str) -> (r: Option<usize>)
    ensures
        match r {
            Some(p) => p < db.schedules@.len() && schedule_place(
                db.deep_view().schedules,
                schedule_id@,
                namespace@,
            ) == Some(p as int),
            None => schedule_place(db.deep_view().schedules, schedule_id@, namespace@) is None,
        },
{
    let ghost rows = db.schedules.deep_view();
    let mut i: usize = 0;
    proof {
        assert(rows.take(0) =~= Seq::empty());
    }
    while i < db.schedules.len()
        invariant
            i <= db.schedules@.len(),
            rows == db.schedules.deep_view(),
            schedule_place(rows.take(i as int), schedule_id@, namespace@) is None,
        decreases rows.len() - i,
    {
        proof {
            assert(rows.take(i + 1).drop_last() =~= rows.take(i as int));
            assert(rows.take(i + 1).last() == rows[i as int]);
        }
        if text_eq(db.schedules[i].schedule_id.as_str(), schedule_id) && text_eq(
            db.schedules[i].namespace.as_str(),
            namespace,
        ) {
            proof {
                lemma_schedule_place_prefix(rows, schedule_id@, namespace@, i + 1);
            }
            return Some(i);
        }
        i += 1;
    }
    proof {
        assert(rows.take(i as int) =~= rows);
    }
    None
}

/// A row with the trigger of a request set, where the request has one.
pub open spec fn trigger_set(row: ScheduleRecord, spec: Option<TriggerSpecView>) -> ScheduleRecord {
    match spec {
        None => row,
        Some(spec) => if spec.cron_string.len() > 0 {
            ScheduleRecord {
                spec_type: SpecType::Cron,
                cron_expressions: Some(json_list_text(spec.cron_string)),
                ..row
            }
        } else if spec.interval.len() > 0 {
            ScheduleRecord {
                spec_type: SpecType::Interval,
                interval_seconds: Some(first_interval(spec.interval)),
                ..row
            }
        } else {
            row
        },
    }
}

/// A row with the action of a request set, as far as the request has one.
pub open spec fn action_set(row: ScheduleRecord, action: Option<ScheduleActionView>) -> ScheduleRecord {
    match action {
        Some(ScheduleActionView { start_workflow: Some(start) }) => ScheduleRecord {
            action_workflow_name: text_or(start.workflow_type, row.action_workflow_name),
            action_task_queue: text_or(start.task_queue, row.action_task_queue),
            action_id: if start.workflow_id.len() == 0 {
                row.action_id
            } else {
                Some(start.workflow_id)
            },
            ..row
        },
        _ => row,
    }
}

/// A row with everything set that a request has, and the time of the change.
pub open spec fn body_set(row: ScheduleRecord, body: ScheduleBodyView, now: Timestamp) -> ScheduleRecord {
    let set = action_set(trigger_set(row, body.spec), body.action);
    ScheduleRecord {
        overlap_policy: match body.overlap_policy {
            Some(number) => overlap_of(number),
            None => row.overlap_policy,
        },
        updated_at: time_text(now),
        ..set
    }
}

/// The tables after a request to change a schedule, and the reply.
pub open spec fn schedule_changed(
    s: Store,
    schedule_id: Text,
    namespace: Text,
    schedule: Option<ScheduleBodyView>,
    now: Timestamp,
) -> (Store, Result<(), StatusView>) {
    let namespace = or_default(namespace);
    if schedule_place(s.schedules, schedule_id, namespace) is None {
        (s, Err(not_found("Schedule not found"@)))
    } else {
        match schedule {
            None => (s, Err(invalid("schedule is required"@))),
            Some(body) => (
                Store {
                    schedules: s.schedules.map_values(
                        |row: ScheduleRecord|
                            if is_schedule(row, schedule_id, namespace) {
                                body_set(row, body, now)
                            } else {
                                row
                            },
                    ),
                    ..s
                },
                Ok(()),
            ),
        }
    }
}

/// The cron strings of a request, where there are any, read back from their text.
pub open spec fn cron_strings_hold(body: ScheduleBodyView) -> bool {
    body.spec matches Some(spec) ==> spec.cron_string.len() > 0 ==> holds_list(
        json_list_text(spec.cron_string),
        spec.cron_string,
    )
}

/// Sets in a row what a request has.
fn set_body(row: &mut ScheduleRow, body: &ScheduleBody, now: &Timestamp)
    ensures
        final(row).deep_view() == body_set(old(row).deep_view(), body.deep_view(), *now),
        cron_strings_hold(body.deep_view()),
{
    row.updated_at = format_datetime(now);
    if let Some(spec) = &body.spec {
        if spec.cron_string.len() > 0 {
            row.spec_type = SpecType::Cron;
            row.cron_expressions = Some(list_to_json(&spec.cron_string));
        } else if spec.interval.len() > 0 {
            row.spec_type = SpecType::Interval;
            row.interval_seconds = Some(read_first_interval(&spec.interval));
        }
    }
    if let Some(action) = &body.action {
        if let Some(start) = &action.start_workflow {
            if let Some(name) = &start.workflow_type {
                row.action_workflow_name = name.clone();
            }
            if let Some(queue) = &start.task_queue {
                row.action_task_queue = queue.clone();
            }
            if !start.workflow_id.as_str().is_empty() {
                row.action_id = Some(start.workflow_id.clone());
            }
        }
    }
    if let Some(number) = body.overlap_policy {
        row.overlap_policy = read_overlap_number(number);
    }
}

/// A schedule that a request changed is described as its row was, with everything set that the
/// request has, and with the cron strings of the request where there are any.
pub open spec fn changed_reads_back(
    before: Store,
    after: Store,
    schedule_id: Text,
    namespace: Text,
    schedule: Option<ScheduleBodyView>,
    now: Timestamp,
) -> bool {
    match (schedule_place(before.schedules, schedule_id, or_default(namespace)), schedule) {
        (Some(p), Some(body)) => {
            let told = description(body_set(before.schedules[p], body, now));
            &&& schedule_described(after, schedule_id, namespace) == Ok::<
                ScheduleDescriptionView,
                StatusView,
            >(told)
            &&& body.spec matches Some(spec) ==> spec.cron_string.len() > 0 ==> told.cron_string
                == spec.cron_string
        },
        _ => false,
    }
}

/// The place of a schedule stays where rows change that keep their names.
proof fn lemma_same_place(
    rows: Seq<ScheduleRecord>,
    change: spec_fn(ScheduleRecord) -> ScheduleRecord,
    schedule_id: Text,
    namespace: Text,
)
    requires
        forall|row: ScheduleRecord|
            (#[trigger] change(row)).schedule_id == row.schedule_id && change(row).namespace
                == row.namespace,
    ensures
        schedule_place(rows.map_values(change), schedule_id, namespace) == schedule_place(
            rows,
            schedule_id,
            namespace,
        ),
        schedule_place(rows, schedule_id, namespace) matches Some(p) ==> 0 <= p < rows.len()
            && is_schedule(rows[p], schedule_id, namespace),
    decreases rows.len(),
{
    if rows.len() > 0 {
        let front = rows.drop_last();
        lemma_same_place(front, change, schedule_id, namespace);
        assert(rows.map_values(change).drop_last() =~= front.map_values(change));
        assert(change(rows.last()).schedule_id == rows.last().schedule_id);
        if let Some(p) = schedule_place(front, schedule_id, namespace) {
            assert(rows[p] == front[p]);
        }
    }
}

/// Changes a schedule at `now`. It is then described with what the request has set.
pub fn update_schedule_at(
    db: &mut Database,
    schedule_id: &str,
    namespace: &str,
    schedule: &Option<ScheduleBody>,
    now: &Timestamp,
) -> (r: Result<(), Status>)
    ensures
        (final(db).deep_view(), reply(r)) == schedule_changed(
            old(db).deep_view(),
            schedule_id@,
            namespace@,
            schedule.deep_view(),
            *now,
        ),
        r is Ok ==> changed_reads_back(
            old(db).deep_view(),
            final(db).deep_view(),
            schedule_id@,
            namespace@,
            schedule.deep_view(),
            *now,
        ),
{
    let namespace: String = name_or_default(namespace);
    let place: usize = match find_schedule(db, schedule_id, namespace.as_str()) {
        Some(p) => p,
        None => return Err(Status::not_found("Schedule not found")),
    };
    let body: &ScheduleBody = match schedule {
        Some(body) => body,
        None => return Err(Status::invalid_argument("schedule is required")),
    };
    let ghost before = db.schedules.deep_view();
    let ghost change = |row: ScheduleRecord|
        if is_schedule(row, schedule_id@, namespace@) {
            body_set(row, body.deep_view(), *now)
        } else {
            row
        };
    let ghost after = before.map_values(change);
    proof {
        lemma_same_place(before, change, schedule_id@, namespace@);
    }
    let mut i: usize = 0;
    while i < db.schedules.len()
        invariant
            i <= db.schedules@.len(),
            db.schedules@.len() == before.len(),
            before == old(db).schedules.deep_view(),
            change == (|row: ScheduleRecord|
                if is_schedule(row, schedule_id@, namespace@) {
                    body_set(row, body.deep_view(), *now)
                } else {
                    row
                }),
            after == before.map_values(change),
            place < before.len(),
            is_schedule(before[place as int], schedule_id@, namespace@),
            i > place ==> cron_strings_hold(body.deep_view()),
            db.namespaces == old(db).namespaces,
            db.workflows == old(db).workflows,
            db.steps == old(db).steps,
            db.activities == old(db).activities,
            forall|j: int| 0 <= j < i ==> #[trigger] db.schedules@[j].deep_view() == after[j],
            forall|j: int|
                i <= j < before.len() ==> #[trigger] db.schedules@[j].deep_view() == before[j],
        decreases before.len() - i,
    {
        proof {
            assert(db.schedules@[i as int].deep_view() == before[i as int]);
        }
        if text_eq(db.schedules[i].schedule_id.as_str(), schedule_id) && text_eq(
            db.schedules[i].namespace.as_str(),
            namespace.as_str(),
        ) {
            let row: &mut ScheduleRow = &mut db.schedules[i];
            set_body(row, body, now);
        }
        i += 1;
    }
    proof {
        assert(db.schedules.deep_view() =~= after);
    }
    Ok(())
}

/// Changes a schedule. It is then described with what the request has set.
pub fn update_schedule(
    db: &mut Database,
    schedule_id: &str,
    namespace: &str,
    schedule: &Option<ScheduleBody>,
) -> (r: Result<(), Status>)
    ensures
        exists|now: Timestamp|
            clock_shows(now) && (final(db).deep_view(), reply(r)) == #[trigger] schedule_changed(
                old(db).deep_view(),
                schedule_id@,
                namespace@,
                schedule.deep_view(),
                now,
            ) && (r is Ok ==> changed_reads_back(
                old(db).deep_view(),
                final(db).deep_view(),
                schedule_id@,
                namespace@,
                schedule.deep_view(),
                now,
            )),
{
    let now: Timestamp = utc_now();
    update_schedule_at(db, schedule_id, namespace, schedule, &now)
}

// ---- describing and deleting a schedule -----------------------------------------------------

/// What is told of a schedule.
#[derive(Debug)]
pub struct ScheduleDescription {
    pub cron_string: Vec<String>,
    /// The interval in seconds, where there is one.
    pub interval: Option<i64>,
    pub workflow_type: String,
    pub task_queue: String,
    pub workflow_id: String,
    pub overlap_policy: i32,
}

/// The view of a [`ScheduleDescription`].
#[verifier::ext_equal]
pub struct ScheduleDescriptionView {
    pub cron_string: Seq<Text>,
    pub interval: Option<i64>,
    pub workflow_type: Text,
    pub task_queue: Text,
    pub workflow_id: Text,
    pub overlap_policy: i32,
}

impl DeepView for ScheduleDescription {
    type V = ScheduleDescriptionView;

    open spec fn deep_view(&self) -> ScheduleDescriptionView {
        ScheduleDescriptionView {
            cron_string: self.cron_string.deep_view(),
            interval: self.interval,
            workflow_type: self.workflow_type@,
            task_queue: self.task_queue@,
            workflow_id: self.workflow_id@,
            overlap_policy: self.overlap_policy,
        }
    }
}

/// What is told of the schedule in a row. Cron expressions that are no JSON list are left out, and
/// so is an interval that is not positive.
pub open spec fn description(row: ScheduleRecord) -> ScheduleDescriptionView {
    ScheduleDescriptionView {
        cron_string: match (row.spec_type, row.cron_expressions) {
            (SpecType::Cron, Some(text)) => match json_string_list(text) {
                Ok(list) => list,
                Err(_) => Seq::empty(),
            },
            _ => Seq::empty(),
        },
        interval: match (row.spec_type, row.interval_seconds) {
            (SpecType::Interval, Some(secs)) => if secs > 0 {
                Some(secs)
            } else {
                None
            },
            _ => None,
        },
        workflow_type: row.action_workflow_name,
        task_queue: row.action_task_queue,
        workflow_id: text_or(row.action_id, Seq::empty()),
        overlap_policy: overlap_number(row.overlap_policy),
    }
}

/// What is told of a schedule that was asked for.
pub open spec fn description_meant(
    spec: TriggerSpecView,
    start: StartWorkflowActionView,
    overlap_policy: Option<i32>,
) -> ScheduleDescriptionView {
    ScheduleDescriptionView {
        cron_string: spec.cron_string,
        interval: if spec.cron_string.len() == 0 && first_interval(spec.interval) > 0 {
            Some(first_interval(spec.interval))
        } else {
            None
        },
        workflow_type: text_or(start.workflow_type, Seq::empty()),
        task_queue: text_or(start.task_queue, Seq::empty()),
        workflow_id: start.workflow_id,
        overlap_policy: match overlap_policy {
            Some(number) => overlap_number(overlap_of(number)),
            None => 1,
        },
    }
}

/// The reply to a request to describe a schedule.
pub open spec fn schedule_described(s: Store, schedule_id: Text, namespace: Text) -> Result<
    ScheduleDescriptionView,
    StatusView,
> {
    match schedule_place(s.schedules, schedule_id, or_default(namespace)) {
        None => Err(not_found("Schedule not found"@)),
        Some(p) => Ok(description(s.schedules[p])),
    }
}

fn no_expressions() -> (r: Vec<String>)
    ensures
        r.deep_view() == Seq::<Text>::empty(),
{
    let none: Vec<String> = Vec::new();
    proof {
        assert(none.deep_view() =~= Seq::empty());
    }
    none
}

/// Describes a schedule.
pub fn describe_schedule(db: &Database, schedule_id: &str, namespace: &str) -> (r: Result<
    ScheduleDescription,
    Status,
>)
    ensures
        reply(r) == schedule_described(db.deep_view(), schedule_id@, namespace@),
{
    proof {
        reveal_strlit("");
        assert(""@ =~= Seq::<char>::empty());
    }
    let namespace: String = name_or_default(namespace);
    let row: &ScheduleRow = match find_schedule(db, schedule_id, namespace.as_str()) {
        Some(p) => &db.schedules[p],
        None => return Err(Status::not_found("Schedule not found")),
    };
    let cron_string: Vec<String> = match (row.spec_type, &row.cron_expressions) {
        (SpecType::Cron, Some(text)) => match list_in_json(text.as_str()) {
            Ok(list) => list,
            Err(_) => no_expressions(),
        },
        _ => no_expressions(),
    };
    let interval: Option<i64> = match (row.spec_type, row.interval_seconds) {
        (SpecType::Interval, Some(secs)) => if secs > 0 {
            Some(secs)
        } else {
            None
        },
        _ => None,
    };
    Ok(
        ScheduleDescription {
            cron_string,
            interval,
            workflow_type: row.action_workflow_name.clone(),
            task_queue: row.action_task_queue.clone(),
            workflow_id: take_text_or(&row.action_id, ""),
            overlap_policy: to_overlap_number(row.overlap_policy),
        },
    )
}

/// Deletes a schedule.
pub fn delete_schedule(db: &mut Database, schedule_id: &str, namespace: &str)
    ensures
        final(db).deep_view() == schedule_deleted(
            old(db).deep_view(),
            schedule_id@,
            or_default(namespace@),
        ),
{
    let namespace: String = name_or_default(namespace);
    let _rows: Result<usize, String> = crate::db::schedules::delete_schedule(
        db,
        schedule_id,
        namespace.as_str(),
    );
}

} // verus!
