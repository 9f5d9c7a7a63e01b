//! WorkflowService: start, inspect, list and cancel workflow runs.

use vstd::prelude::*;
use vstd::string::*;
use crate::clock::{clock_shows, format_datetime, time_text, utc_now, Timestamp};
use crate::db;
use crate::db::activities::{insert_workflow_step_at, step_inserted};
use crate::db::rows::{Database, Store};
use crate::db::workflows::{cancel_workflow_at, insert_workflow, to_the_second, workflow_cancelled, workflow_found, workflow_inserted, workflow_rows_listed, workflows_in};
use crate::definitions::{get_workflow_definition, workflow_definition};
use crate::engine::{EngineEvent, EngineEventView};
use crate::ids::{fresh_ids, uuid_text, uuid_to_text};
use crate::json::{by_key, copy_entries, object_text, string_args, Entries, Json};
use crate::service::schedules::{read_timeouts, timeouts_from, TimeoutsMessage};
use crate::service::status::{internal, name_or_default, not_found, or_default, reply, Status, StatusView};
use crate::text::{concat3, decimal, decimal_text, first_chars, outcome, take_chars, Text};
use crate::workflow::{workflow_state_to_str, workflow_state_word, ActivityStep, ActivityStepView, WorkflowInstance, WorkflowInstanceView, WorkflowState, WorkflowStepInstance, WorkflowStepInstanceView};

verus! {

// ---- steps of a new run ---------------------------------------------------------------------

/// The step of a new run for a step of its definition.
pub open spec fn first_step(
    run_id: u128,
    id: u128,
    index: int,
    def: ActivityStepView,
    args_json: Text,
) -> WorkflowStepInstanceView {
    WorkflowStepInstanceView {
        id,
        workflow_run_id: run_id,
        step_index: index as usize,
        activity_name: def.activity_name,
        args_json,
        retry_policy: def.retry_policy,
        timeout_secs: def.timeout_secs,
        heartbeat_timeout_secs: def.heartbeat_timeout_secs,
        state: WorkflowState::Pending,
        attempt: 0,
        result_json: None,
        next_retry_at: None,
    }
}

/// Makes the step of a new run for a step of its definition.
pub(crate) fn make_first_step(
    run_id: u128,
    id: u128,
    index: usize,
    def: &ActivityStep,
    args_json: Json,
) -> (r: WorkflowStepInstance)
    ensures
        r.deep_view() == first_step(run_id, id, index as int, def.deep_view(), args_json.deep_view()),
{
    WorkflowStepInstance {
        id,
        workflow_run_id: run_id,
        step_index: index,
        activity_name: def.activity_name.clone(),
        args_json,
        retry_policy: def.retry_policy,
        timeout_secs: def.timeout_secs,
        heartbeat_timeout_secs: def.heartbeat_timeout_secs,
        state: WorkflowState::Pending,
        attempt: 0,
        result_json: None,
        next_retry_at: None,
    }
}

/// The tables with steps inserted one after the other, up to the first that is refused, and the
/// outcome: the place of the refused step and the message.
pub open spec fn steps_created(s: Store, steps: Seq<WorkflowStepInstanceView>, now: Timestamp) -> (
    Store,
    Result<(), (int, Text)>,
)
    decreases steps.len(),
{
    if steps.len() == 0 {
        (s, Ok(()))
    } else {
        let (before, earlier) = steps_created(s, steps.drop_last(), now);
        match earlier {
            Err(e) => (before, Err(e)),
            Ok(_) => {
                let (after, r) = step_inserted(before, steps.last(), now);
                match r {
                    Ok(_) => (after, Ok(())),
                    Err(e) => (after, Err((steps.len() - 1, e))),
                }
            },
        }
    }
}

/// A step that is refused stops those that follow.
proof fn lemma_created_prefix(s: Store, steps: Seq<WorkflowStepInstanceView>, now: Timestamp, n: int)
    requires
        0 <= n <= steps.len(),
        steps_created(s, steps.take(n), now).1 is Err,
    ensures
        steps_created(s, steps, now) == steps_created(s, steps.take(n), now),
    decreases steps.len(),
{
    if n == steps.len() {
        assert(steps.take(n) =~= steps);
    } else {
        assert(steps.drop_last().take(n) =~= steps.take(n));
        lemma_created_prefix(s, steps.drop_last(), now, n);
    }
}

/// Inserting steps changes only the table of steps.
pub proof fn lemma_steps_keep_runs(s: Store, steps: Seq<WorkflowStepInstanceView>, now: Timestamp)
    ensures
        steps_created(s, steps, now).0 == (Store {
            steps: steps_created(s, steps, now).0.steps,
            ..s
        }),
    decreases steps.len(),
{
    if steps.len() > 0 {
        lemma_steps_keep_runs(s, steps.drop_last(), now);
    }
}

/// Inserts steps one after the other, up to the first that is refused.
pub(crate) fn create_steps(db: &mut Database, steps: &Vec<WorkflowStepInstance>, now: &Timestamp) -> (r:
    Result<(), (usize, String)>)
    ensures
        final(db).deep_view() == steps_created(old(db).deep_view(), steps.deep_view(), *now).0,
        match (r, steps_created(old(db).deep_view(), steps.deep_view(), *now).1) {
            (Ok(_), Ok(_)) => true,
            (Err((i, e)), Err((j, f))) => i == j && e@ == f,
            _ => false,
        },
{
    let ghost all = steps.deep_view();
    let mut i: usize = 0;
    proof {
        assert(all.take(0) =~= Seq::empty());
    }
    while i < steps.len()
        invariant
            i <= steps@.len(),
            all == steps.deep_view(),
            steps_created(old(db).deep_view(), all.take(i as int), *now) == (
                db.deep_view(),
                Ok::<(), (int, Text)>(()),
            ),
        decreases steps@.len() - i,
    {
        proof {
            assert(all.take(i + 1).drop_last() =~= all.take(i as int));
            assert(all.take(i + 1).last() == all[i as int]);
        }
        if let Err(e) = insert_workflow_step_at(db, &steps[i], now) {
            proof {
                lemma_created_prefix(old(db).deep_view(), all, *now, i + 1);
            }
            return Err((i, e));
        }
        i += 1;
    }
    proof {
        assert(all.take(i as int) =~= all);
    }
    Ok(())
}

/// The refusal of a request whose step at a place was refused.
pub open spec fn step_refusal(at: int, message: Text) -> StatusView {
    internal("Failed to create step "@ + decimal(at as nat) + ": "@ + message)
}

pub(crate) fn refuse_step(at: usize, message: &str) -> (r: Status)
    ensures
        r.deep_view() == step_refusal(at as int, message@),
{
    let number: String = decimal_text(at as u64);
    let what: String = concat3("Failed to create step ", number.as_str(), ": ");
    Status::internal(what.as_str(), message)
}

// ---- start ----------------------------------------------------------------------------------

#[derive(Debug)]
pub struct StartWorkflowRequest {
    pub workflow_name: String,
    pub args: Vec<(String, String)>,
    pub workflow_id: String,
    pub task_queue: String,
    pub timeouts: Option<TimeoutsMessage>,
    pub namespace: String,
}

/// The view of a [`StartWorkflowRequest`].
#[verifier::ext_equal]
pub struct StartWorkflowRequestView {
    pub workflow_name: Text,
    pub args: Entries,
    pub workflow_id: Text,
    pub task_queue: Text,
    pub timeouts: Option<TimeoutsMessage>,
    pub namespace: Text,
}

impl DeepView for StartWorkflowRequest {
    type V = StartWorkflowRequestView;

    open spec fn deep_view(&self) -> StartWorkflowRequestView {
        StartWorkflowRequestView {
            workflow_name: self.workflow_name@,
            args: self.args.deep_view(),
            workflow_id: self.workflow_id@,
            task_queue: self.task_queue@,
            timeouts: self.timeouts,
            namespace: self.namespace@,
        }
    }
}

/// Arguments as a JSON object.
pub open spec fn args_object(args: Entries) -> Text {
    if args.len() == 0 {
        "{}"@
    } else {
        object_text(args)
    }
}

/// The arguments of a step: those of the run, with those of the step's template over them. A run
/// without arguments gives its steps none.
pub open spec fn step_args(args: Entries, template: Entries) -> Text {
    if args.len() == 0 {
        "{}"@
    } else {
        object_text(args + template)
    }
}

/// The arguments that a worker gets of those of a run and of a step's template.
pub open spec fn args_merged(args: Entries, template: Entries) -> Entries {
    if args.len() == 0 {
        Seq::empty()
    } else {
        by_key(args + template)
    }
}

/// The run that a request starts. A run without an ID of its own gets the name of its workflow and
/// the beginning of its run ID.
pub open spec fn run_asked(req: StartWorkflowRequestView, run_id: u128) -> WorkflowInstanceView {
    WorkflowInstanceView {
        run_id,
        workflow_id: if req.workflow_id.len() == 0 {
            req.workflow_name + "-"@ + first_chars(uuid_text(run_id), 8)
        } else {
            req.workflow_id
        },
        name: req.workflow_name,
        task_queue: or_default(req.task_queue),
        state: WorkflowState::Pending,
        args_json: args_object(req.args),
        result_json: None,
        timeouts: timeouts_from(req.timeouts),
        started_at: None,
        completed_at: None,
        namespace: or_default(req.namespace),
    }
}

/// The steps of the run that a request starts.
pub open spec fn steps_asked(req: StartWorkflowRequestView, run_id: u128, ids: Seq<u128>) -> Seq<
    WorkflowStepInstanceView,
> {
    let defs = workflow_definition(req.workflow_name);
    Seq::new(
        defs.len(),
        |i: int|
            first_step(run_id, ids[i], i, defs[i], step_args(req.args, defs[i].args_template)),
    )
}

/// The tables after a request to start a workflow, and the reply: the run ID, with the engine told
/// of the run.
pub open spec fn workflow_begun(
    s: Store,
    req: StartWorkflowRequestView,
    run_id: u128,
    ids: Seq<u128>,
    now: Timestamp,
) -> (Store, Result<(Text, EngineEventView), StatusView>) {
    let (with_run, r) = workflow_inserted(s, run_asked(req, run_id));
    match r {
        Err(e) => (with_run, Err(internal("Failed to create workflow: "@ + e))),
        Ok(_) => {
            let (after, r) = steps_created(with_run, steps_asked(req, run_id, ids), now);
            match r {
                Err((at, e)) => (after, Err(step_refusal(at, e))),
                Ok(_) => (
                    after,
                    Ok(
                        (
                            uuid_text(run_id),
                            EngineEventView::WorkflowCreated { run_id: uuid_text(run_id) },
                        ),
                    ),
                ),
            }
        },
    }
}

/// The most steps that a definition has.
pub const MOST_STEPS: usize = 5;

/// The arguments of a run with those of a step's template over them.
fn merge_args(args: &Vec<(String, String)>, template: &Vec<(String, String)>) -> (r: Json)
    ensures
        r.deep_view() == step_args(args.deep_view(), template.deep_view()),
        string_args(r.deep_view()) == args_merged(args.deep_view(), template.deep_view()),
{
    if args.len() == 0 {
        return Json::empty_object();
    }
    let mut merged: Vec<(String, String)> = copy_entries(args);
    let mut over: Vec<(String, String)> = copy_entries(template);
    let ghost (front, back) = (merged.deep_view(), over.deep_view());
    merged.append(&mut over);
    proof {
        assert(merged.deep_view() =~= front + back);
    }
    Json::object(&merged)
}

/// Starts a workflow at `now` with the given IDs for the run and its steps. The run is then told of
/// under its run ID as it was asked for, pending, with its arguments; and its steps hold for the
/// worker these arguments, with those of their templates over them.
pub fn start_workflow_at(
    db: &mut Database,
    req: &StartWorkflowRequest,
    run_id: u128,
    step_ids: &Vec<u128>,
    now: &Timestamp,
) -> (r: Result<(String, EngineEvent), Status>)
    requires
        step_ids@.len() >= MOST_STEPS,
    ensures
        (final(db).deep_view(), reply(r)) == workflow_begun(
            old(db).deep_view(),
            req.deep_view(),
            run_id,
            step_ids@,
            *now,
        ),
        r is Ok ==> workflow_told(final(db).deep_view(), uuid_text(run_id)) == Ok::<
            WorkflowInfoView,
            StatusView,
        >(workflow_info(run_asked(req.deep_view(), run_id))),
        workflow_info(run_asked(req.deep_view(), run_id)).args == by_key(req.args.deep_view()),
        forall|i: int|
            0 <= i < steps_asked(req.deep_view(), run_id, step_ids@).len() ==> string_args(
                (#[trigger] steps_asked(req.deep_view(), run_id, step_ids@)[i]).args_json,
            ) == args_merged(
                req.args.deep_view(),
                workflow_definition(req.workflow_name@)[i].args_template,
            ),
{
    let run_text: String = uuid_to_text(run_id);
    let workflow_id: String = if req.workflow_id.as_str().is_empty() {
        let short: String = take_chars(run_text.as_str(), 8);
        concat3(req.workflow_name.as_str(), "-", short.as_str())
    } else {
        req.workflow_id.clone()
    };
    let workflow: WorkflowInstance = WorkflowInstance {
        run_id,
        workflow_id,
        name: req.workflow_name.clone(),
        task_queue: name_or_default(req.task_queue.as_str()),
        state: WorkflowState::Pending,
        args_json: if req.args.len() == 0 {
            Json::empty_object()
        } else {
            Json::object(&req.args)
        },
        result_json: None,
        timeouts: read_timeouts(&req.timeouts),
        started_at: None,
        completed_at: None,
        namespace: name_or_default(req.namespace.as_str()),
    };
    proof {
        assert(workflow.deep_view() =~= run_asked(req.deep_view(), run_id));
    }
    if let Err(e) = insert_workflow(db, &workflow) {
        return Err(Status::internal("Failed to create workflow: ", e.as_str()));
    }
    let defs: Vec<ActivityStep> = get_workflow_definition(req.workflow_name.as_str());
    let ghost asked = steps_asked(req.deep_view(), run_id, step_ids@);
    let mut steps: Vec<WorkflowStepInstance> = Vec::new();
    let mut i: usize = 0;
    while i < defs.len()
        invariant
            i <= defs@.len(),
            defs@.len() <= MOST_STEPS <= step_ids@.len(),
            defs.deep_view() == workflow_definition(req.workflow_name@),
            asked == steps_asked(req.deep_view(), run_id, step_ids@),
            asked.len() == defs@.len(),
            steps@.len() == i,
            forall|j: int| 0 <= j < i ==> (#[trigger] steps@[j]).deep_view() == asked[j],
            forall|j: int|
                0 <= j < i ==> string_args((#[trigger] asked[j]).args_json) == args_merged(
                    req.args.deep_view(),
                    workflow_definition(req.workflow_name@)[j].args_template,
                ),
        decreases defs@.len() - i,
    {
        let args_json: Json = merge_args(&req.args, &defs[i].args_template);
        proof {
            assert(defs.deep_view()[i as int] == defs@[i as int].deep_view());
        }
        steps.push(make_first_step(run_id, step_ids[i], i, &defs[i], args_json));
        i += 1;
    }
    proof {
        assert(steps.deep_view() =~= asked);
        lemma_steps_keep_runs(db.deep_view(), asked, *now);
        assert(to_the_second(workflow.deep_view()) =~= workflow.deep_view());
    }
    match create_steps(db, &steps, now) {
        Ok(_) => Ok((run_text.clone(), EngineEvent::WorkflowCreated { run_id: run_text })),
        Err((at, e)) => Err(refuse_step(at, e.as_str())),
    }
}

/// Starts a workflow.
pub fn start_workflow(db: &mut Database, req: &StartWorkflowRequest) -> (r: Result<
    (String, EngineEvent),
    Status,
>)
    ensures
        exists|run_id: u128, ids: Seq<u128>, now: Timestamp|
            clock_shows(now) && (final(db).deep_view(), reply(r)) == #[trigger] workflow_begun(
                old(db).deep_view(),
                req.deep_view(),
                run_id,
                ids,
                now,
            ),
{
    let run_ids: Vec<u128> = fresh_ids(1);
    let step_ids: Vec<u128> = fresh_ids(MOST_STEPS);
    let now: Timestamp = utc_now();
    start_workflow_at(db, req, run_ids[0], &step_ids, &now)
}

// ---- inspect --------------------------------------------------------------------------------

/// What is told of a run.
#[derive(Debug)]
pub struct WorkflowInfo {
    pub workflow_run_id: String,
    pub workflow_id: String,
    pub name: String,
    pub state: String,
    pub args: Vec<(String, String)>,
    pub result_json: String,
    pub started_at: String,
    pub completed_at: String,
}

/// The view of a [`WorkflowInfo`].
#[verifier::ext_equal]
pub struct WorkflowInfoView {
    pub workflow_run_id: Text,
    pub workflow_id: Text,
    pub name: Text,
    pub state: Text,
    pub args: Entries,
    pub result_json: Text,
    pub started_at: Text,
    pub completed_at: Text,
}

impl DeepView for WorkflowInfo {
    type V = WorkflowInfoView;

    open spec fn deep_view(&self) -> WorkflowInfoView {
        WorkflowInfoView {
            workflow_run_id: self.workflow_run_id@,
            workflow_id: self.workflow_id@,
            name: self.name@,
            state: self.state@,
            args: self.args.deep_view(),
            result_json: self.result_json@,
            started_at: self.started_at@,
            completed_at: self.completed_at@,
        }
    }
}

/// A time as text, empty for none.
pub open spec fn time_or_empty(t: Option<Timestamp>) -> Text {
    match t {
        Some(t) => time_text(t),
        None => Seq::empty(),
    }
}

/// What is told of a run. Of its arguments only the strings are.
pub open spec fn workflow_info(wf: WorkflowInstanceView) -> WorkflowInfoView {
    WorkflowInfoView {
        workflow_run_id: uuid_text(wf.run_id),
        workflow_id: wf.workflow_id,
        name: wf.name,
        state: workflow_state_word(wf.state),
        args: string_args(wf.args_json),
        result_json: match wf.result_json {
            Some(text) => text,
            None => Seq::empty(),
        },
        started_at: time_or_empty(wf.started_at),
        completed_at: time_or_empty(wf.completed_at),
    }
}

fn to_time_or_empty(t: &Option<Timestamp>) -> (r: String)
    ensures
        r@ == time_or_empty(*t),
{
    match t {
        Some(t) => format_datetime(t),
        None => String::new(),
    }
}

/// What is told of a run.
pub fn workflow_info_to_proto(wf: &WorkflowInstance) -> (r: WorkflowInfo)
    ensures
        r.deep_view() == workflow_info(wf.deep_view()),
{
    WorkflowInfo {
        workflow_run_id: uuid_to_text(wf.run_id),
        workflow_id: wf.workflow_id.clone(),
        name: wf.name.clone(),
        state: workflow_state_to_str(wf.state).to_owned(),
        args: wf.args_json.string_entries(),
        result_json: match &wf.result_json {
            Some(v) => v.to_text(),
            None => String::new(),
        },
        started_at: to_time_or_empty(&wf.started_at),
        completed_at: to_time_or_empty(&wf.completed_at),
    }
}

/// The reply to a request for a run.
pub open spec fn workflow_told(s: Store, run_id: Text) -> Result<WorkflowInfoView, StatusView> {
    match workflow_found(s, run_id) {
        Err(e) => Err(internal("Failed to get workflow: "@ + e)),
        Ok(None) => Err(not_found("Workflow not found"@)),
        Ok(Some(wf)) => Ok(workflow_info(wf)),
    }
}

/// Tells of a run.
pub fn get_workflow(db: &Database, workflow_run_id: &str) -> (r: Result<WorkflowInfo, Status>)
    ensures
        reply(r) == workflow_told(db.deep_view(), workflow_run_id@),
{
    match db::workflows::get_workflow(db, workflow_run_id) {
        Err(e) => Err(Status::internal("Failed to get workflow: ", e.as_str())),
        Ok(None) => Err(Status::not_found("Workflow not found")),
        Ok(Some(wf)) => Ok(workflow_info_to_proto(&wf)),
    }
}

/// The reply to a request to list the runs of a namespace, `default` where none is given.
pub open spec fn workflows_told(s: Store, namespace: Text) -> Result<Seq<WorkflowInfoView>, StatusView> {
    match workflows_in(workflow_rows_listed(s.workflows, or_default(namespace), None)) {
        Ok(list) => Ok(list.map_values(|wf: WorkflowInstanceView| workflow_info(wf))),
        Err(e) => Err(internal("Failed to list workflows: "@ + e)),
    }
}

/// Lists the runs of a namespace.
pub fn list_workflows(db: &Database, namespace: &str) -> (r: Result<Vec<WorkflowInfo>, Status>)
    ensures
        reply(r) == workflows_told(db.deep_view(), namespace@),
{
    let namespace: String = name_or_default(namespace);
    let list: Vec<WorkflowInstance> = match db::workflows::list_workflows(
        db,
        namespace.as_str(),
        None,
    ) {
        Ok(list) => list,
        Err(e) => return Err(Status::internal("Failed to list workflows: ", e.as_str())),
    };
    let mut out: Vec<WorkflowInfo> = Vec::new();
    let mut i: usize = 0;
    while i < list.len()
        invariant
            i <= list@.len(),
            out@.len() == i,
            forall|j: int|
                0 <= j < i ==> (#[trigger] out@[j]).deep_view() == workflow_info(
                    list@[j].deep_view(),
                ),
        decreases list@.len() - i,
    {
        out.push(workflow_info_to_proto(&list[i]));
        i += 1;
    }
    proof {
        assert(out.deep_view() =~= list.deep_view().map_values(
            |wf: WorkflowInstanceView| workflow_info(wf),
        ));
    }
    Ok(out)
}

// ---- cancel ---------------------------------------------------------------------------------

/// The tables after a request to cancel a run, and the reply.
pub open spec fn cancel_told(s: Store, run_id: Text, now: Timestamp) -> (
    Store,
    Result<bool, StatusView>,
) {
    let (after, r) = workflow_cancelled(s, run_id, now);
    match r {
        Ok(_) => (after, Ok(true)),
        Err(e) => (after, Err(internal("Failed to cancel workflow: "@ + e))),
    }
}

/// Cancels a run at `now`.
pub fn cancel_workflow_request_at(db: &mut Database, workflow_run_id: &str, now: &Timestamp) -> (r:
    Result<bool, Status>)
    ensures
        (final(db).deep_view(), reply(r)) == cancel_told(
            old(db).deep_view(),
            workflow_run_id@,
            *now,
        ),
{
    match cancel_workflow_at(db, workflow_run_id, now) {
        Ok(_) => Ok(true),
        Err(e) => Err(Status::internal("Failed to cancel workflow: ", e.as_str())),
    }
}

/// Cancels a run.
pub fn cancel_workflow(db: &mut Database, workflow_run_id: &str) -> (r: Result<bool, Status>)
    ensures
        exists|now: Timestamp|
            clock_shows(now) && (final(db).deep_view(), reply(r)) == #[trigger] cancel_told(
                old(db).deep_view(),
                workflow_run_id@,
                now,
            ),
{
    let now: Timestamp = utc_now();
    cancel_workflow_request_at(db, workflow_run_id, &now)
}

} // verus!
