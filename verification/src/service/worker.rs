//! WorkerService: poll for activities, report their results and failures, send heartbeats.

use vstd::prelude::*;
use vstd::string::*;
use crate::activity::{ActivityState, ActivityTask, ActivityTaskView, RetryPolicy};
use crate::clock::{clock_shows, time_text, utc_now, Timestamp};
use crate::db::activities::{activity_state_updated, attempt_inserted, find_ready, heartbeat_update_at, heartbeat_updated, insert_activity_attempt_at, places_ready, read_steps, ready, ready_rows, step_in, step_state_updated, steps_in, update_activity_state_at, update_step_state};
use crate::db::rows::{find_row, with_key, Database, PolicyColumn, PolicyColumnView, StepRecord, StepRow, Store, WorkflowRecord};
use crate::engine::{in_turn, is_completed_before, start_pending, workflow_started, EngineEvent, EngineEventView};
use crate::ids::{fresh_ids, uuid_text, uuid_to_text};
use crate::json::{json_parse, string_args, Json};
use crate::retry::{attempt_failed, fail_attempt, retry_fits, retry_on_calendar};
use crate::service::status::{internal, invalid, name_or_default, or_default, reply, Status, StatusView};
use crate::text::{concat2, outcome, text_eq, Text};
use crate::workflow::{WorkflowState, WorkflowStepInstance, WorkflowStepInstanceView};

verus! {

// ---- handing out a step ---------------------------------------------------------------------

/// The tables with a step handed out: the step runs as its next attempt, the attempt is recorded,
/// and its run is started where it was pending. Where the attempt cannot be recorded the step stays
/// marked as running.
pub open spec fn handed_out(
    s: Store,
    step: WorkflowStepInstanceView,
    activity_id: u128,
    now: Timestamp,
) -> (Store, Result<(), StatusView>) {
    let attempt = (step.attempt + 1) as u32;
    let running = step_state_updated(
        s,
        uuid_text(step.id),
        WorkflowState::Running,
        Some(attempt),
        None,
        None,
    ).0;
    let (recorded, r) = attempt_inserted(
        running,
        uuid_text(activity_id),
        uuid_text(step.id),
        attempt,
        now,
    );
    match r {
        Err(e) => (recorded, Err(internal("Failed to insert activity: "@ + e))),
        Ok(_) => (
            workflow_started(recorded, uuid_text(step.workflow_run_id), now),
            Ok(()),
        ),
    }
}

/// Hands out a step.
pub(crate) fn hand_out(
    db: &mut Database,
    step: &WorkflowStepInstance,
    activity_id: u128,
    now: &Timestamp,
) -> (r: Result<(), Status>)
    requires
        step.attempt < u32::MAX,
    ensures
        (final(db).deep_view(), reply(r)) == handed_out(
            old(db).deep_view(),
            step.deep_view(),
            activity_id,
            *now,
        ),
{
    let step_id: String = uuid_to_text(step.id);
    let attempt: u32 = step.attempt + 1;
    let _running: Result<(), String> = update_step_state(
        db,
        step_id.as_str(),
        WorkflowState::Running,
        Some(attempt),
        None,
        None,
    );
    let activity_text: String = uuid_to_text(activity_id);
    match insert_activity_attempt_at(db, activity_text.as_str(), step_id.as_str(), attempt, now) {
        Err(e) => Err(Status::internal("Failed to insert activity: ", e.as_str())),
        Ok(_) => {
            let run_id: String = uuid_to_text(step.workflow_run_id);
            start_pending(db, run_id.as_str(), now);
            Ok(())
        },
    }
}

// ---- poll -----------------------------------------------------------------------------------

/// A worker takes an activity: it has named its type, or no type at all.
pub open spec fn takes(types: Seq<Text>, name: Text) -> bool {
    types.len() == 0 || types.contains(name)
}

/// The place of the first mark that is set.
pub open spec fn first_mark(marks: Seq<bool>) -> Option<int>
    decreases marks.len(),
{
    if marks.len() == 0 {
        None
    } else {
        match first_mark(marks.drop_last()) {
            Some(p) => Some(p),
            None => if marks.last() {
                Some(marks.len() - 1)
            } else {
                None
            },
        }
    }
}

/// The first mark that is set is set, and none before it is.
pub(crate) proof fn lemma_first_mark(marks: Seq<bool>, n: int)
    requires
        0 <= n <= marks.len(),
        forall|j: int| 0 <= j < n ==> !(#[trigger] marks[j]),
        n < marks.len() ==> marks[n],
    ensures
        first_mark(marks) == if n < marks.len() {
            Some(n)
        } else {
            None
        },
    decreases marks.len(),
{
    if marks.len() > 0 {
        let front = marks.drop_last();
        if n < marks.len() {
            assert forall|j: int| 0 <= j < n implies !(#[trigger] front[j]) by {
                assert(front[j] == marks[j]);
            }
            lemma_first_mark(front, n);
        } else {
            assert forall|j: int| 0 <= j < n - 1 implies !(#[trigger] front[j]) by {
                assert(front[j] == marks[j]);
            }
            lemma_first_mark(front, n - 1);
            assert(!marks[n - 1]);
        }
    }
}

/// Where a mark is set, the first is one.
pub(crate) proof fn lemma_first_mark_set(marks: Seq<bool>)
    ensures
        first_mark(marks) matches Some(p) ==> 0 <= p < marks.len() && marks[p],
    decreases marks.len(),
{
    if marks.len() > 0 {
        lemma_first_mark_set(marks.drop_last());
    }
}

/// The first step among those that are ready that is wanted, by its row and by what it holds; or
/// the message on the first that cannot be read.
pub open spec fn step_chosen(
    s: Store,
    now: Timestamp,
    wanted: spec_fn(StepRecord, WorkflowStepInstanceView) -> bool,
) -> Result<Option<WorkflowStepInstanceView>, Text> {
    let rows = ready_rows(s.steps, now);
    match steps_in(rows) {
        Err(e) => Err(e),
        Ok(list) => match first_mark(Seq::new(list.len(), |p: int| wanted(rows[p], list[p]))) {
            Some(p) => Ok(Some(list[p])),
            None => Ok(None),
        },
    }
}

/// The steps that rows hold are as many as the rows.
pub(crate) proof fn lemma_steps_in(rows: Seq<StepRecord>)
    ensures
        steps_in(rows) matches Ok(list) ==> list.len() == rows.len() && forall|i: int|
            0 <= i < list.len() ==> step_in(rows[i]) == Ok::<WorkflowStepInstanceView, Text>(
                #[trigger] list[i],
            ),
    decreases rows.len(),
{
    if rows.len() > 0 {
        lemma_steps_in(rows.drop_last());
    }
}

/// A step that is chosen is held by a row that is ready and wanted.
pub(crate) proof fn lemma_step_chosen(
    s: Store,
    now: Timestamp,
    wanted: spec_fn(StepRecord, WorkflowStepInstanceView) -> bool,
) -> (i: int)
    ensures
        step_chosen(s, now, wanted) matches Ok(Some(step)) ==> {
            &&& 0 <= i < s.steps.len()
            &&& step_in(s.steps[i]) == Ok::<WorkflowStepInstanceView, Text>(step)
            &&& ready(s.steps[i], time_text(now))
            &&& wanted(s.steps[i], step)
        },
{
    let rows = ready_rows(s.steps, now);
    lemma_steps_in(rows);
    if let Ok(list) = steps_in(rows) {
        let marks = Seq::new(list.len(), |p: int| wanted(rows[p], list[p]));
        lemma_first_mark_set(marks);
        if let Some(p) = first_mark(marks) {
            crate::laws::running::lemma_ready_row(s.steps, now, p);
            assert(step_in(rows[p]) == Ok::<WorkflowStepInstanceView, Text>(list[p]));
            choose|i: int| 0 <= i < s.steps.len() && s.steps[i] == rows[p]
        } else {
            0
        }
    } else {
        0
    }
}

/// The task queue of a run; empty where there is no such run.
pub open spec fn queue_of(rows: Seq<WorkflowRecord>, run_id: Text) -> Text {
    match with_key(rows, run_id) {
        Some(row) => row.task_queue,
        None => Seq::empty(),
    }
}

pub(crate) fn find_queue(db: &Database, run_id: u128) -> (r: String)
    ensures
        r@ == queue_of(db.deep_view().workflows, uuid_text(run_id)),
{
    let run_id: String = uuid_to_text(run_id);
    match find_row(&db.workflows, run_id.as_str()) {
        Some(p) => db.workflows[p].task_queue.clone(),
        None => String::new(),
    }
}

/// A worker that polls a queue for activities of some types wants a step: it takes the activity,
/// the run is on the queue, and the step is in turn. A queue without a name is the default queue.
pub open spec fn step_wanted(
    s: Store,
    row: StepRecord,
    step: WorkflowStepInstanceView,
    queue: Text,
    types: Seq<Text>,
) -> bool {
    &&& takes(types, step.activity_name)
    &&& or_default(queue_of(s.workflows, uuid_text(step.workflow_run_id))) == or_default(queue)
    &&& in_turn(s.steps, row)
}

/// The step that a worker gets.
pub open spec fn step_offered(s: Store, queue: Text, types: Seq<Text>, now: Timestamp) -> Result<
    Option<WorkflowStepInstanceView>,
    Text,
> {
    step_chosen(
        s,
        now,
        |row: StepRecord, step: WorkflowStepInstanceView| step_wanted(s, row, step, queue, types),
    )
}

/// The task for a step.
pub open spec fn task_for(step: WorkflowStepInstanceView, activity_id: u128) -> ActivityTaskView {
    ActivityTaskView {
        activity_id: uuid_text(activity_id),
        step_id: uuid_text(step.id),
        workflow_run_id: uuid_text(step.workflow_run_id),
        name: step.activity_name,
        args: string_args(step.args_json),
        retry_policy: step.retry_policy,
        heartbeat_timeout_secs: match step.heartbeat_timeout_secs {
            Some(secs) => secs,
            None => 30,
        },
        start_to_close_timeout_secs: step.timeout_secs,
    }
}

/// The tables after a poll of a queue for activities of some types, and the reply: the task for the
/// first ready step that is wanted, which is handed out; nothing where there is none.
pub open spec fn activity_polled(
    s: Store,
    queue: Text,
    types: Seq<Text>,
    activity_id: u128,
    now: Timestamp,
) -> (Store, Result<Option<ActivityTaskView>, StatusView>) {
    match step_offered(s, queue, types, now) {
        Err(e) => (s, Err(internal("Failed to get pending steps: "@ + e))),
        Ok(None) => (s, Ok(None)),
        Ok(Some(step)) => {
            let (after, r) = handed_out(s, step, activity_id, now);
            match r {
                Err(e) => (after, Err(e)),
                Ok(_) => (after, Ok(Some(task_for(step, activity_id)))),
            }
        },
    }
}

/// Whether a worker takes an activity.
fn is_taken(types: &Vec<String>, name: &String) -> (r: bool)
    ensures
        r == takes(types.deep_view(), name@),
{
    if types.len() == 0 {
        return true;
    }
    let mut i: usize = 0;
    while i < types.len()
        invariant
            i <= types@.len(),
            forall|j: int| 0 <= j < i ==> (#[trigger] types.deep_view()[j]) != name@,
        decreases types@.len() - i,
    {
        if text_eq(types[i].as_str(), name.as_str()) {
            proof {
                assert(types.deep_view()[i as int] == name@);
            }
            return true;
        }
        i += 1;
    }
    false
}

/// Whether the step in a row is in turn.
pub(crate) fn is_in_turn(db: &Database, place: usize) -> (r: bool)
    requires
        place < db.steps@.len(),
    ensures
        r == in_turn(db.deep_view().steps, db.deep_view().steps[place as int]),
{
    let row: &StepRow = &db.steps[place];
    is_completed_before(db, row.workflow_run_id.as_str(), row.step_index)
}

/// Finds the step that a worker gets.
fn offer_step(db: &Database, queue: &str, types: &Vec<String>, now: &Timestamp) -> (r: Result<
    Option<WorkflowStepInstance>,
    String,
>)
    ensures
        outcome(r) == step_offered(db.deep_view(), queue@, types.deep_view(), *now),
{
    let places: Vec<usize> = find_ready(db, now);
    let mut list: Vec<WorkflowStepInstance> = match read_steps(db, &places, now) {
        Ok(list) => list,
        Err(e) => return Err(e),
    };
    let named: String = name_or_default(queue);
    let ghost s = db.deep_view();
    let ghost rows = ready_rows(s.steps, *now);
    let ghost all = list.deep_view();
    let ghost wanted = |row: StepRecord, step: WorkflowStepInstanceView|
        step_wanted(s, row, step, queue@, types.deep_view());
    let ghost marks = Seq::new(all.len(), |p: int| wanted(rows[p], all[p]));
    proof {
        lemma_steps_in(rows);
    }
    let mut i: usize = 0;
    while i < list.len()
        invariant
            i <= list@.len(),
            list@.len() == places@.len(),
            named@ == or_default(queue@),
            s == db.deep_view(),
            rows == ready_rows(s.steps, *now),
            places_ready(s.steps, places@, *now),
            all == list.deep_view(),
            steps_in(rows) == Ok::<Seq<WorkflowStepInstanceView>, Text>(all),
            wanted == (|row: StepRecord, step: WorkflowStepInstanceView|
                step_wanted(s, row, step, queue@, types.deep_view())),
            marks == Seq::new(all.len(), |p: int| wanted(rows[p], all[p])),
            forall|j: int| 0 <= j < i ==> !(#[trigger] marks[j]),
        decreases list@.len() - i,
    {
        let on: String = find_queue(db, list[i].workflow_run_id);
        let on: String = name_or_default(on.as_str());
        proof {
            assert(all[i as int] == list@[i as int].deep_view());
            assert(s.steps[places@[i as int] as int] == rows[i as int]);
            assert(marks[i as int] == wanted(rows[i as int], all[i as int]));
        }
        if is_taken(types, &list[i].activity_name) && text_eq(on.as_str(), named.as_str())
            && is_in_turn(db, places[i]) {
            proof {
                lemma_first_mark(marks, i as int);
            }
            return Ok(Some(list.swap_remove(i)));
        }
        i += 1;
    }
    proof {
        lemma_first_mark(marks, i as int);
    }
    Ok(None)
}

/// Makes the task for a step.
fn make_task(step: &WorkflowStepInstance, activity_id: u128) -> (r: ActivityTask)
    ensures
        r.deep_view() == task_for(step.deep_view(), activity_id),
{
    ActivityTask {
        activity_id: uuid_to_text(activity_id),
        step_id: uuid_to_text(step.id),
        workflow_run_id: uuid_to_text(step.workflow_run_id),
        name: step.activity_name.clone(),
        args: step.args_json.string_entries(),
        retry_policy: step.retry_policy,
        heartbeat_timeout_secs: step.heartbeat_timeout_secs.unwrap_or(30),
        start_to_close_timeout_secs: step.timeout_secs,
    }
}

/// The step that a worker gets has not used up its attempt numbers.
pub open spec fn attempt_left(s: Store, queue: Text, types: Seq<Text>, now: Timestamp) -> bool {
    step_offered(s, queue, types, now) matches Ok(Some(step)) ==> step.attempt < u32::MAX
}

/// Whether the step that a worker gets has not used up its attempt numbers.
pub fn has_attempt_left(
    db: &Database,
    task_queue: &str,
    activity_types: &Vec<String>,
    now: &Timestamp,
) -> (r: bool)
    ensures
        r == attempt_left(db.deep_view(), task_queue@, activity_types.deep_view(), *now),
{
    match offer_step(db, task_queue, activity_types, now) {
        Ok(Some(step)) => step.attempt < u32::MAX,
        _ => true,
    }
}

/// Polls a queue for an activity at `now`, with the given ID for its attempt.
pub fn poll_activity_at(
    db: &mut Database,
    task_queue: &str,
    activity_types: &Vec<String>,
    activity_id: u128,
    now: &Timestamp,
) -> (r: Result<Option<ActivityTask>, Status>)
    requires
        attempt_left(old(db).deep_view(), task_queue@, activity_types.deep_view(), *now),
    ensures
        (final(db).deep_view(), reply(r)) == activity_polled(
            old(db).deep_view(),
            task_queue@,
            activity_types.deep_view(),
            activity_id,
            *now,
        ),
{
    match offer_step(db, task_queue, activity_types, now) {
        Err(e) => Err(Status::internal("Failed to get pending steps: ", e.as_str())),
        Ok(None) => Ok(None),
        Ok(Some(step)) => match hand_out(db, &step, activity_id, now) {
            Err(e) => Err(e),
            Ok(_) => Ok(Some(make_task(&step, activity_id))),
        },
    }
}

/// What a poll does at `now`: nothing, where the step has used up its attempt numbers.
pub open spec fn poll_outcome(
    s: Store,
    queue: Text,
    types: Seq<Text>,
    activity_id: u128,
    now: Timestamp,
) -> (Store, Option<Result<Option<ActivityTaskView>, StatusView>>) {
    if attempt_left(s, queue, types, now) {
        let (after, r) = activity_polled(s, queue, types, activity_id, now);
        (after, Some(r))
    } else {
        (s, None)
    }
}

/// Polls a queue for an activity. Where the step has used up its attempt numbers, the tables stay
/// as they are and the result is empty.
pub fn poll_activity(db: &mut Database, task_queue: &str, activity_types: &Vec<String>) -> (r:
    Option<Result<Option<ActivityTask>, Status>>)
    ensures
        exists|activity_id: u128, now: Timestamp|
            clock_shows(now) && (
                final(db).deep_view(),
                match r {
                    Some(polled) => Some(reply(polled)),
                    None => None,
                },
            ) == #[trigger] poll_outcome(
                old(db).deep_view(),
                task_queue@,
                activity_types.deep_view(),
                activity_id,
                now,
            ),
{
    let ids: Vec<u128> = fresh_ids(1);
    let now: Timestamp = utc_now();
    let ghost planned = poll_outcome(
        db.deep_view(),
        task_queue@,
        activity_types.deep_view(),
        ids@[0],
        now,
    );
    if has_attempt_left(db, task_queue, activity_types, &now) {
        let polled: Result<Option<ActivityTask>, Status> = poll_activity_at(
            db,
            task_queue,
            activity_types,
            ids[0],
            &now,
        );
        proof {
            assert(planned == (db.deep_view(), Some(reply(polled))));
        }
        Some(polled)
    } else {
        None
    }
}

// ---- results --------------------------------------------------------------------------------

/// The tables with an activity and its step completed with a result, and the reply: the run that
/// the step belongs to.
pub open spec fn activity_completed(s: Store, activity_id: Text, result: Text, now: Timestamp) -> (
    Store,
    Result<Text, StatusView>,
) {
    let marked = activity_state_updated(
        s,
        activity_id,
        ActivityState::Completed,
        Some(result),
        None,
        now,
    ).0;
    match with_key(marked.activities, activity_id) {
        None => (marked, Err(internal("Failed to find activity: "@ + "Query returned no rows"@))),
        Some(row) => {
            let done = step_state_updated(
                marked,
                row.step_id,
                WorkflowState::Completed,
                None,
                Some(result),
                None,
            ).0;
            match with_key(done.steps, row.step_id) {
                None => (done, Err(internal("Failed to find step: "@ + "Query returned no rows"@))),
                Some(step) => (done, Ok(step.workflow_run_id)),
            }
        },
    }
}

/// Marks an activity and its step as completed with a result; gives the run that the step belongs
/// to.
pub(crate) fn complete_activity(db: &mut Database, activity_id: &str, result: &Json, now: &Timestamp) -> (r:
    Result<String, Status>)
    ensures
        (final(db).deep_view(), reply(r)) == activity_completed(
            old(db).deep_view(),
            activity_id@,
            result.deep_view(),
            *now,
        ),
{
    let _marked: Result<(), String> = update_activity_state_at(
        db,
        activity_id,
        ActivityState::Completed,
        Some(result),
        None,
        now,
    );
    let step_id: String = match find_row(&db.activities, activity_id) {
        None => return Err(
            Status::internal("Failed to find activity: ", "Query returned no rows"),
        ),
        Some(p) => db.activities[p].step_id.clone(),
    };
    let _done: Result<(), String> = update_step_state(
        db,
        step_id.as_str(),
        WorkflowState::Completed,
        None,
        Some(result),
        None,
    );
    match find_row(&db.steps, step_id.as_str()) {
        None => Err(Status::internal("Failed to find step: ", "Query returned no rows")),
        Some(p) => Ok(db.steps[p].workflow_run_id.clone()),
    }
}

/// The value in a reported result; an empty report is an empty object.
pub open spec fn result_reported(text: Text) -> Result<Text, StatusView> {
    if text.len() == 0 {
        Ok("{}"@)
    } else {
        match json_parse(text) {
            Ok(v) => Ok(v),
            Err(e) => Err(invalid("Invalid result JSON: "@ + e)),
        }
    }
}

/// The tables after a report of a result, and the reply, with the engine told that a step of the
/// run is completed.
pub open spec fn activity_result_reported(
    s: Store,
    activity_id: Text,
    result_json: Text,
    now: Timestamp,
) -> (Store, Result<(bool, EngineEventView), StatusView>) {
    match result_reported(result_json) {
        Err(e) => (s, Err(e)),
        Ok(result) => {
            let (after, r) = activity_completed(s, activity_id, result, now);
            match r {
                Err(e) => (after, Err(e)),
                Ok(workflow_run_id) => (
                    after,
                    Ok((true, EngineEventView::StepCompleted { workflow_run_id })),
                ),
            }
        },
    }
}

/// Takes a report of a result at `now`.
pub fn report_activity_result_at(
    db: &mut Database,
    activity_id: &str,
    result_json: &str,
    now: &Timestamp,
) -> (r: Result<(bool, EngineEvent), Status>)
    ensures
        (final(db).deep_view(), reply(r)) == activity_result_reported(
            old(db).deep_view(),
            activity_id@,
            result_json@,
            *now,
        ),
{
    let result: Json = if result_json.is_empty() {
        Json::empty_object()
    } else {
        match Json::parse(result_json) {
            Ok(v) => v,
            Err(e) => {
                let message: String = concat2("Invalid result JSON: ", e.as_str());
                return Err(Status::invalid_argument(message.as_str()));
            },
        }
    };
    match complete_activity(db, activity_id, &result, now) {
        Ok(workflow_run_id) => Ok((true, EngineEvent::StepCompleted { workflow_run_id })),
        Err(e) => Err(e),
    }
}

/// Takes a report of a result.
pub fn report_activity_result(db: &mut Database, activity_id: &str, result_json: &str) -> (r: Result<
    (bool, EngineEvent),
    Status,
>)
    ensures
        exists|now: Timestamp|
            clock_shows(now) && (final(db).deep_view(), reply(r)) == #[trigger] activity_result_reported(
                old(db).deep_view(),
                activity_id@,
                result_json@,
                now,
            ),
{
    let now: Timestamp = utc_now();
    report_activity_result_at(db, activity_id, result_json, &now)
}

// ---- failures -------------------------------------------------------------------------------

/// What a report of a failure finds: the step of the activity, the number of the attempt, and the
/// retry policy.
pub open spec fn failure_found(s: Store, activity_id: Text) -> Result<
    (Text, u32, RetryPolicy),
    StatusView,
> {
    match with_key(s.activities, activity_id) {
        None => Err(internal("Failed to find activity: "@ + "Query returned no rows"@)),
        Some(row) => match with_key(s.steps, row.step_id) {
            None => Err(internal("Failed to get retry policy: "@ + "Query returned no rows"@)),
            Some(step) => match step.retry_policy {
                PolicyColumnView::Malformed(e) => Err(
                    internal("Invalid retry policy JSON: "@ + e),
                ),
                PolicyColumnView::Policy(policy) => Ok(
                    (row.step_id, row.attempt as u32, policy),
                ),
            },
        },
    }
}

/// A report of a failure can be taken at `now`: the time of the next attempt, where one is allowed,
/// lies on the calendar.
pub open spec fn failure_on_calendar(s: Store, activity_id: Text, now: Timestamp) -> bool {
    failure_found(s, activity_id) matches Ok((_, attempt, policy)) ==> retry_on_calendar(
        policy,
        attempt,
        now,
    )
}

/// The tables after a report of a failure, and the reply. The step waits for its next attempt, or
/// fails where no more is allowed.
pub open spec fn activity_failure_reported(
    s: Store,
    activity_id: Text,
    error_message: Text,
    now: Timestamp,
) -> (Store, Result<bool, StatusView>) {
    match failure_found(s, activity_id) {
        Err(e) => (s, Err(e)),
        Ok((step_id, attempt, policy)) => (
            attempt_failed(s, activity_id, step_id, attempt, policy, error_message, now),
            Ok(true),
        ),
    }
}

/// Finds what a report of a failure needs.
fn find_failure(db: &Database, activity_id: &str) -> (r: Result<(String, u32, RetryPolicy), Status>)
    ensures
        reply(r) == failure_found(db.deep_view(), activity_id@),
{
    match find_row(&db.activities, activity_id) {
        None => Err(Status::internal("Failed to find activity: ", "Query returned no rows")),
        Some(p) => {
            let attempt: u32 = db.activities[p].attempt as u32;
            let step_id: &String = &db.activities[p].step_id;
            match find_row(&db.steps, step_id.as_str()) {
                None => Err(
                    Status::internal("Failed to get retry policy: ", "Query returned no rows"),
                ),
                Some(q) => match &db.steps[q].retry_policy {
                    PolicyColumn::Malformed(e) => Err(
                        Status::internal("Invalid retry policy JSON: ", e.as_str()),
                    ),
                    PolicyColumn::Policy(policy) => Ok((step_id.clone(), attempt, *policy)),
                },
            }
        },
    }
}

/// Whether a report of a failure can be taken at `now`.
pub fn failure_fits(db: &Database, activity_id: &str, now: &Timestamp) -> (r: bool)
    ensures
        r == failure_on_calendar(db.deep_view(), activity_id@, *now),
{
    match find_failure(db, activity_id) {
        Ok((_step_id, attempt, policy)) => retry_fits(&policy, attempt, now),
        Err(_) => true,
    }
}

/// Takes a report of a failure at `now`.
pub fn report_activity_failure_at(
    db: &mut Database,
    activity_id: &str,
    error_message: &str,
    now: &Timestamp,
) -> (r: Result<bool, Status>)
    requires
        now.ordinary(),
        failure_on_calendar(old(db).deep_view(), activity_id@, *now),
    ensures
        (final(db).deep_view(), reply(r)) == activity_failure_reported(
            old(db).deep_view(),
            activity_id@,
            error_message@,
            *now,
        ),
{
    match find_failure(db, activity_id) {
        Err(e) => Err(e),
        Ok((step_id, attempt, policy)) => {
            let _at: Option<Timestamp> = fail_attempt(
                db,
                activity_id,
                step_id.as_str(),
                attempt,
                &policy,
                error_message,
                now,
            );
            Ok(true)
        },
    }
}

/// What a report of a failure does when it is taken at `now`: nothing, where it cannot be taken.
pub open spec fn failure_outcome(s: Store, activity_id: Text, error_message: Text, now: Timestamp) -> (
    Store,
    Option<Result<bool, StatusView>>,
) {
    if failure_on_calendar(s, activity_id, now) {
        let (after, r) = activity_failure_reported(s, activity_id, error_message, now);
        (after, Some(r))
    } else {
        (s, None)
    }
}

/// Takes a report of a failure. Where it cannot be taken, because the calendar ends, the tables stay
/// as they are and the result is empty.
pub fn report_activity_failure(db: &mut Database, activity_id: &str, error_message: &str) -> (r:
    Option<Result<bool, Status>>)
    ensures
        exists|now: Timestamp|
            clock_shows(now) && (
                final(db).deep_view(),
                match r {
                    Some(taken) => Some(reply(taken)),
                    None => None,
                },
            ) == #[trigger] failure_outcome(
                old(db).deep_view(),
                activity_id@,
                error_message@,
                now,
            ),
{
    let now: Timestamp = utc_now();
    let ghost planned = failure_outcome(db.deep_view(), activity_id@, error_message@, now);
    if failure_fits(db, activity_id, &now) {
        let taken: Result<bool, Status> = report_activity_failure_at(
            db,
            activity_id,
            error_message,
            &now,
        );
        proof {
            assert(planned == (db.deep_view(), Some(reply(taken))));
        }
        Some(taken)
    } else {
        None
    }
}

// ---- heartbeats -----------------------------------------------------------------------------

/// The tables after a heartbeat, and the reply.
pub open spec fn heartbeat_told(s: Store, activity_id: Text, now: Timestamp) -> (
    Store,
    Result<bool, StatusView>,
) {
    let (after, r) = heartbeat_updated(s, activity_id, now);
    match r {
        Ok(_) => (after, Ok(true)),
        Err(e) => (after, Err(internal("Failed to update heartbeat: "@ + e))),
    }
}

/// Takes a heartbeat at `now`.
pub fn heartbeat_at(db: &mut Database, activity_id: &str, now: &Timestamp) -> (r: Result<
    bool,
    Status,
>)
    ensures
        (final(db).deep_view(), reply(r)) == heartbeat_told(
            old(db).deep_view(),
            activity_id@,
            *now,
        ),
{
    match heartbeat_update_at(db, activity_id, now) {
        Ok(_) => Ok(true),
        Err(e) => Err(Status::internal("Failed to update heartbeat: ", e.as_str())),
    }
}

/// Takes a heartbeat.
pub fn heartbeat(db: &mut Database, activity_id: &str) -> (r: Result<bool, Status>)
    ensures
        exists|now: Timestamp|
            clock_shows(now) && (final(db).deep_view(), reply(r)) == #[trigger] heartbeat_told(
                old(db).deep_view(),
                activity_id@,
                now,
            ),
{
    let now: Timestamp = utc_now();
    heartbeat_at(db, activity_id, &now)
}

} // verus!
