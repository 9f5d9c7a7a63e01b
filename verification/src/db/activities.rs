//! Workflow step and activity CRUD operations.

use vstd::prelude::*;
use vstd::string::*;
use crate::activity::{ActivityState, RetryPolicy};
use crate::clock::{clock_shows, format_datetime, time_in, time_text, utc_now, Timestamp};
use crate::db::order::{arranged, ordered, sort_order};
use crate::db::rows::{changed, find_row, has_key, lemma_with_key, lemma_with_key_push, with_key, ActivityRecord, ActivityRow, Database, PolicyColumn, PolicyColumnView, StepRecord, StepRow, Store};
use crate::db::workflows::{column_keeps_order, json_in_column, lemma_signed_unsigned, read_json_column, read_time_column, signed, stable_column, time_column, time_in_column, to_json_column, to_signed, to_time_column, to_unsigned, unsigned, whole_seconds};
use crate::ids::{text_to_uuid, uuid_parse, uuid_text, uuid_to_text};
use crate::json::{json_parse, stable_json, Json};
use crate::text::{concat2, outcome, text_at_most, text_eq, text_le, Text};
use crate::workflow::{WorkflowState, WorkflowStepInstance, WorkflowStepInstanceView};

verus! {

// ---- steps as rows --------------------------------------------------------------------------

/// The state that the table of steps has for a state; it has none for a cancelled step.
pub open spec fn step_state(state: WorkflowState) -> Option<ActivityState> {
    match state {
        WorkflowState::Pending => Some(ActivityState::Pending),
        WorkflowState::Running => Some(ActivityState::Running),
        WorkflowState::Completed => Some(ActivityState::Completed),
        WorkflowState::Failed => Some(ActivityState::Failed),
        WorkflowState::Cancelled => None,
    }
}

fn to_step_state(state: WorkflowState) -> (r: Option<ActivityState>)
    ensures
        r == step_state(state),
{
    match state {
        WorkflowState::Pending => Some(ActivityState::Pending),
        WorkflowState::Running => Some(ActivityState::Running),
        WorkflowState::Completed => Some(ActivityState::Completed),
        WorkflowState::Failed => Some(ActivityState::Failed),
        WorkflowState::Cancelled => None,
    }
}

/// The state of a step that is read; a step marked for a retry waits as a pending one does.
pub open spec fn state_of_step(state: ActivityState) -> WorkflowState {
    match state {
        ActivityState::Pending => WorkflowState::Pending,
        ActivityState::Running => WorkflowState::Running,
        ActivityState::Completed => WorkflowState::Completed,
        ActivityState::Failed => WorkflowState::Failed,
        ActivityState::Retried => WorkflowState::Pending,
    }
}

fn read_step_state(state: ActivityState) -> (r: WorkflowState)
    ensures
        r == state_of_step(state),
{
    match state {
        ActivityState::Pending => WorkflowState::Pending,
        ActivityState::Running => WorkflowState::Running,
        ActivityState::Completed => WorkflowState::Completed,
        ActivityState::Failed => WorkflowState::Failed,
        ActivityState::Retried => WorkflowState::Pending,
    }
}

/// The row that holds a step inserted at `now`.
pub open spec fn step_record(
    step: WorkflowStepInstanceView,
    state: ActivityState,
    now: Timestamp,
) -> StepRecord {
    StepRecord {
        id: uuid_text(step.id),
        workflow_run_id: uuid_text(step.workflow_run_id),
        step_index: step.step_index as i64,
        activity_name: step.activity_name,
        args_json: step.args_json,
        retry_policy: PolicyColumnView::Policy(step.retry_policy),
        timeout_secs: step.timeout_secs as i64,
        heartbeat_timeout_secs: signed(step.heartbeat_timeout_secs),
        state,
        attempt: step.attempt as i64,
        result_json: step.result_json,
        next_retry_at: time_column(step.next_retry_at),
        created_at: time_text(now),
    }
}

/// The step that a row holds, or the message on the first column that cannot be read.
pub open spec fn step_in(row: StepRecord) -> Result<WorkflowStepInstanceView, Text> {
    match uuid_parse(row.id) {
        Err(e) => Err("Invalid step ID UUID: "@ + e),
        Ok(id) => match uuid_parse(row.workflow_run_id) {
            Err(e) => Err("Invalid workflow_run_id UUID: "@ + e),
            Ok(workflow_run_id) => match json_parse(row.args_json) {
                Err(e) => Err(e),
                Ok(args_json) => match row.retry_policy {
                    PolicyColumnView::Malformed(e) => Err(e),
                    PolicyColumnView::Policy(retry_policy) => match json_in_column(
                        row.result_json,
                    ) {
                        Err(e) => Err(e),
                        Ok(result_json) => match time_in_column(row.next_retry_at) {
                            Err(e) => Err(e),
                            Ok(next_retry_at) => Ok(
                                WorkflowStepInstanceView {
                                    id,
                                    workflow_run_id,
                                    step_index: row.step_index as usize,
                                    activity_name: row.activity_name,
                                    args_json,
                                    retry_policy,
                                    timeout_secs: row.timeout_secs as u64,
                                    heartbeat_timeout_secs: unsigned(row.heartbeat_timeout_secs),
                                    state: state_of_step(row.state),
                                    attempt: row.attempt as u32,
                                    result_json,
                                    next_retry_at,
                                },
                            ),
                        },
                    },
                },
            },
        },
    }
}

/// Convert a database row to a WorkflowStepInstance.
pub fn row_to_step(row: &StepRow) -> (r: Result<WorkflowStepInstance, String>)
    ensures
        outcome(r) == step_in(row.deep_view()),
{
    let id: u128 = match text_to_uuid(row.id.as_str()) {
        Ok(id) => id,
        Err(e) => return Err(concat2("Invalid step ID UUID: ", e.as_str())),
    };
    let workflow_run_id: u128 = match text_to_uuid(row.workflow_run_id.as_str()) {
        Ok(id) => id,
        Err(e) => return Err(concat2("Invalid workflow_run_id UUID: ", e.as_str())),
    };
    let args_json: Json = match Json::parse(row.args_json.as_str()) {
        Ok(v) => v,
        Err(e) => return Err(e),
    };
    let retry_policy: RetryPolicy = match &row.retry_policy {
        PolicyColumn::Policy(p) => *p,
        PolicyColumn::Malformed(e) => return Err(e.clone()),
    };
    let result_json: Option<Json> = match read_json_column(&row.result_json) {
        Ok(v) => v,
        Err(e) => return Err(e),
    };
    let next_retry_at: Option<Timestamp> = match read_time_column(&row.next_retry_at) {
        Ok(t) => t,
        Err(e) => return Err(e),
    };
    Ok(
        WorkflowStepInstance {
            id,
            workflow_run_id,
            step_index: row.step_index as usize,
            activity_name: row.activity_name.clone(),
            args_json,
            retry_policy,
            timeout_secs: row.timeout_secs as u64,
            heartbeat_timeout_secs: to_unsigned(row.heartbeat_timeout_secs),
            state: read_step_state(row.state),
            attempt: row.attempt as u32,
            result_json,
            next_retry_at,
        },
    )
}

// ---- inserting steps ------------------------------------------------------------------------

/// The tables with a step inserted at `now`, and the outcome. A cancelled step is refused, and so
/// is an ID that is there already and a run that is not.
pub open spec fn step_inserted(s: Store, step: WorkflowStepInstanceView, now: Timestamp) -> (
    Store,
    Result<(), Text>,
) {
    match step_state(step.state) {
        None => (
            s,
            Err(
                "CHECK constraint failed: state IN ('pending', 'running', 'completed', 'failed', 'retried')"@,
            ),
        ),
        Some(state) => {
            let row = step_record(step, state, now);
            if has_key(s.steps, row.id) {
                (s, Err("UNIQUE constraint failed: workflow_steps.id"@))
            } else if !has_key(s.workflows, row.workflow_run_id) {
                (s, Err("FOREIGN KEY constraint failed"@))
            } else {
                (Store { steps: s.steps.push(row), ..s }, Ok(()))
            }
        },
    }
}

/// A step whose columns all read back: JSON that keeps its text, and an index that fits a signed
/// column.
pub open spec fn step_reads_back(step: WorkflowStepInstanceView) -> bool {
    &&& stable_json(step.args_json)
    &&& stable_column(step.result_json)
    &&& step.step_index <= i64::MAX
}

/// A step with its time cut to whole seconds.
pub open spec fn step_to_the_second(step: WorkflowStepInstanceView) -> WorkflowStepInstanceView {
    WorkflowStepInstanceView { next_retry_at: whole_seconds(step.next_retry_at), ..step }
}

/// Insert a workflow step into the database at `now`. What was inserted is found again under its
/// ID, with its time cut to whole seconds.
pub fn insert_workflow_step_at(
    db: &mut Database,
    step: &WorkflowStepInstance,
    now: &Timestamp,
) -> (r: Result<(), String>)
    ensures
        (final(db).deep_view(), outcome(r)) == step_inserted(
            old(db).deep_view(),
            step.deep_view(),
            *now,
        ),
        r is Ok && step_reads_back(step.deep_view()) ==> {
            let row = with_key(final(db).deep_view().steps, uuid_text(step.id));
            row is Some && step_in(row->0) == Ok::<WorkflowStepInstanceView, Text>(
                step_to_the_second(step.deep_view()),
            )
        },
{
    let state: ActivityState = match to_step_state(step.state) {
        Some(state) => state,
        None => return Err(
            "CHECK constraint failed: state IN ('pending', 'running', 'completed', 'failed', 'retried')".to_owned(),
        ),
    };
    let row: StepRow = StepRow {
        id: uuid_to_text(step.id),
        workflow_run_id: uuid_to_text(step.workflow_run_id),
        step_index: step.step_index as i64,
        activity_name: step.activity_name.clone(),
        args_json: step.args_json.to_text(),
        retry_policy: PolicyColumn::Policy(step.retry_policy),
        timeout_secs: step.timeout_secs as i64,
        heartbeat_timeout_secs: to_signed(step.heartbeat_timeout_secs),
        state,
        attempt: step.attempt as i64,
        result_json: to_json_column(step.result_json.as_ref()),
        next_retry_at: to_time_column(&step.next_retry_at),
        created_at: format_datetime(now),
    };
    if find_row(&db.steps, row.id.as_str()).is_some() {
        return Err("UNIQUE constraint failed: workflow_steps.id".to_owned());
    }
    proof {
        lemma_with_key(db.workflows.deep_view(), row.workflow_run_id@);
    }
    if find_row(&db.workflows, row.workflow_run_id.as_str()).is_none() {
        return Err("FOREIGN KEY constraint failed".to_owned());
    }
    let ghost record = row.deep_view();
    db.steps.push(row);
    proof {
        assert(record =~= step_record(step.deep_view(), state, *now));
        assert(db.steps.deep_view() =~= old(db).steps.deep_view().push(record));
        lemma_with_key_push(old(db).steps.deep_view(), record, record.id);
        lemma_signed_unsigned(step.heartbeat_timeout_secs);
        lemma_signed_unsigned(Some(step.timeout_secs));
    }
    Ok(())
}

/// Insert a workflow step into the database. What was inserted is found again under its ID, with its
/// time cut to whole seconds.
pub fn insert_workflow_step(db: &mut Database, step: &WorkflowStepInstance) -> (r: Result<
    (),
    String,
>)
    ensures
        exists|now: Timestamp|
            clock_shows(now) && (final(db).deep_view(), outcome(r)) == #[trigger] step_inserted(
                old(db).deep_view(),
                step.deep_view(),
                now,
            ),
        r is Ok && step_reads_back(step.deep_view()) ==> {
            let row = with_key(final(db).deep_view().steps, uuid_text(step.id));
            row is Some && step_in(row->0) == Ok::<WorkflowStepInstanceView, Text>(
                step_to_the_second(step.deep_view()),
            )
        },
{
    let now: Timestamp = utc_now();
    insert_workflow_step_at(db, step, &now)
}

// ---- updating steps -------------------------------------------------------------------------

/// A row with the state, attempt, result and time of the next retry of its step set.
pub open spec fn step_set(
    row: StepRecord,
    state: ActivityState,
    attempt: Option<u32>,
    result: Option<Text>,
    next_retry_at: Option<Text>,
) -> StepRecord {
    StepRecord {
        state,
        attempt: match attempt {
            Some(a) => a as i64,
            None => row.attempt,
        },
        result_json: result,
        next_retry_at,
        ..row
    }
}

/// The tables with a step set, and the outcome. A cancelled step is refused, where there is one to
/// set; where no attempt is given the attempt stays.
pub open spec fn step_state_updated(
    s: Store,
    step_id: Text,
    state: WorkflowState,
    attempt: Option<u32>,
    result: Option<Text>,
    next_retry_at: Option<Timestamp>,
) -> (Store, Result<(), Text>) {
    match step_state(state) {
        Some(state) => (
            Store {
                steps: changed(
                    s.steps,
                    step_id,
                    |row: StepRecord|
                        step_set(row, state, attempt, result, time_column(next_retry_at)),
                ),
                ..s
            },
            Ok(()),
        ),
        None => if has_key(s.steps, step_id) {
            (
                s,
                Err(
                    "CHECK constraint failed: state IN ('pending', 'running', 'completed', 'failed', 'retried')"@,
                ),
            )
        } else {
            (s, Ok(()))
        },
    }
}

/// Update the state of a workflow step.
pub fn update_step_state(
    db: &mut Database,
    step_id: &str,
    new_state: WorkflowState,
    attempt: Option<u32>,
    result_json: Option<&Json>,
    next_retry_at: Option<Timestamp>,
) -> (r: Result<(), String>)
    ensures
        !(new_state is Cancelled) ==> column_keeps_order(next_retry_at),
        (final(db).deep_view(), outcome(r)) == step_state_updated(
            old(db).deep_view(),
            step_id@,
            new_state,
            attempt,
            result_json.deep_view(),
            next_retry_at,
        ),
{
    let state: ActivityState = match to_step_state(new_state) {
        Some(state) => state,
        None => {
            if find_row(&db.steps, step_id).is_some() {
                proof {
                    lemma_with_key(db.steps.deep_view(), step_id@);
                }
                return Err(
                    "CHECK constraint failed: state IN ('pending', 'running', 'completed', 'failed', 'retried')".to_owned(),
                );
            }
            return Ok(());
        },
    };
    let result: Option<String> = to_json_column(result_json);
    let retry_at: Option<String> = to_time_column(&next_retry_at);
    let ghost before = db.steps.deep_view();
    let ghost change = |row: StepRecord|
        step_set(row, state, attempt, result_json.deep_view(), time_column(next_retry_at));
    let ghost after = changed(before, step_id@, change);
    let mut i: usize = 0;
    while i < db.steps.len()
        invariant
            i <= db.steps@.len(),
            db.steps@.len() == before.len(),
            result.deep_view() == result_json.deep_view(),
            retry_at.deep_view() == time_column(next_retry_at),
            before == old(db).steps.deep_view(),
            change == (|row: StepRecord|
                step_set(row, state, attempt, result_json.deep_view(), time_column(next_retry_at))),
            after == changed(before, step_id@, change),
            db.namespaces == old(db).namespaces,
            db.schedules == old(db).schedules,
            db.workflows == old(db).workflows,
            db.activities == old(db).activities,
            forall|j: int| 0 <= j < i ==> #[trigger] db.steps@[j].deep_view() == after[j],
            forall|j: int|
                i <= j < before.len() ==> #[trigger] db.steps@[j].deep_view() == before[j],
        decreases before.len() - i,
    {
        proof {
            assert(db.steps@[i as int].deep_view() == before[i as int]);
        }
        if text_eq(db.steps[i].id.as_str(), step_id) {
            let row: &mut StepRow = &mut db.steps[i];
            row.state = state;
            if let Some(a) = attempt {
                row.attempt = a as i64;
            }
            row.result_json = result.clone();
            row.next_retry_at = retry_at.clone();
        }
        i += 1;
    }
    proof {
        assert(db.steps.deep_view() =~= after);
    }
    Ok(())
}

// ---- steps that are ready -------------------------------------------------------------------

/// A step may be handed out at `now`: it waits for its first attempt, or its time to retry has
/// come.
pub open spec fn ready(row: StepRecord, now: Text) -> bool {
    ||| row.state is Pending && row.next_retry_at is None
    ||| (row.state is Pending || row.state is Retried) && row.next_retry_at is Some && text_le(
        row.next_retry_at->0,
        now,
    )
}

/// The rows of the steps that may be handed out at `now`, in the order in which they were created.
pub open spec fn ready_rows(rows: Seq<StepRecord>, now: Timestamp) -> Seq<StepRecord> {
    let picked = rows.filter(|row: StepRecord| ready(row, time_text(now)));
    let keys = picked.map_values(|row: StepRecord| Some(row.created_at));
    arranged(picked, ordered(keys, keys.len(), false))
}

/// The steps that rows hold, in their order, or the message on the first that cannot be read.
pub open spec fn steps_in(rows: Seq<StepRecord>) -> Result<Seq<WorkflowStepInstanceView>, Text>
    decreases rows.len(),
{
    if rows.len() == 0 {
        Ok(Seq::empty())
    } else {
        match steps_in(rows.drop_last()) {
            Err(e) => Err(e),
            Ok(list) => match step_in(rows.last()) {
                Err(e) => Err(e),
                Ok(step) => Ok(list.push(step)),
            },
        }
    }
}

/// A row that cannot be read stops the list, whatever follows it.
proof fn lemma_steps_in_prefix(rows: Seq<StepRecord>, n: int)
    requires
        0 <= n <= rows.len(),
    ensures
        steps_in(rows.take(n)) is Err ==> steps_in(rows) == steps_in(rows.take(n)),
    decreases rows.len(),
{
    if n == rows.len() {
        assert(rows.take(n) =~= rows);
    } else {
        assert(rows.drop_last().take(n) =~= rows.take(n));
        lemma_steps_in_prefix(rows.drop_last(), n);
    }
}

/// Whether a step may be handed out when the clock shows `now`.
fn is_ready(row: &StepRow, now: &str) -> (r: bool)
    ensures
        r == ready(row.deep_view(), now@),
{
    match &row.next_retry_at {
        None => row.state == ActivityState::Pending,
        Some(at) => (row.state == ActivityState::Pending || row.state == ActivityState::Retried)
            && text_at_most(at.as_str(), now),
    }
}

/// The rows at `places` are those of the steps that may be handed out at `now`.
pub open spec fn places_ready(rows: Seq<StepRecord>, places: Seq<usize>, now: Timestamp) -> bool {
    &&& places.len() == ready_rows(rows, now).len()
    &&& forall|k: int|
        0 <= k < places.len() ==> (#[trigger] places[k]) < rows.len() && rows[places[k] as int]
            == ready_rows(rows, now)[k]
}

/// The places of the steps that may be handed out at `now`, in the order in which they were
/// created.
pub(crate) fn find_ready(db: &Database, now: &Timestamp) -> (r: Vec<usize>)
    ensures
        places_ready(db.deep_view().steps, r@, *now),
{
    let clock: String = format_datetime(now);
    let ghost rows = db.steps.deep_view();
    let ghost test = |row: StepRecord| ready(row, time_text(*now));
    let mut places: Vec<usize> = Vec::new();
    let mut keys: Vec<Option<String>> = Vec::new();
    let ghost mut picked: Seq<StepRecord> = Seq::empty();
    let mut i: usize = 0;
    proof {
        reveal(Seq::filter);
        assert(rows.take(0) =~= Seq::empty());
    }
    while i < db.steps.len()
        invariant
            i <= db.steps@.len(),
            rows == db.steps.deep_view(),
            clock@ == time_text(*now),
            test == (|row: StepRecord| ready(row, time_text(*now))),
            picked == rows.take(i as int).filter(test),
            places@.len() == picked.len(),
            keys@.len() == picked.len(),
            forall|k: int|
                0 <= k < picked.len() ==> {
                    &&& (#[trigger] places@[k]) < rows.len()
                    &&& rows[places@[k] as int] == picked[k]
                },
            forall|k: int|
                0 <= k < picked.len() ==> (#[trigger] keys@[k]).deep_view() == Some(
                    picked[k].created_at,
                ),
        decreases rows.len() - i,
    {
        proof {
            reveal(Seq::filter);
            assert(rows.take(i + 1).drop_last() =~= rows.take(i as int));
            assert(rows.take(i + 1).last() == rows[i as int]);
        }
        if is_ready(&db.steps[i], clock.as_str()) {
            places.push(i);
            keys.push(Some(db.steps[i].created_at.clone()));
            proof {
                picked = picked.push(rows[i as int]);
            }
        }
        i += 1;
    }
    proof {
        assert(rows.take(i as int) =~= rows);
        assert(keys.deep_view() =~= picked.map_values(|row: StepRecord| Some(row.created_at)));
    }
    let order: Vec<usize> = sort_order(&keys, false);
    let ghost target = ready_rows(rows, *now);
    proof {
        assert(target =~= arranged(picked, order@.map_values(|i: usize| i as int)));
    }
    let mut out: Vec<usize> = Vec::new();
    let mut k: usize = 0;
    while k < order.len()
        invariant
            k <= order@.len(),
            out@.len() == k,
            order@.len() == target.len(),
            target == arranged(picked, order@.map_values(|i: usize| i as int)),
            places@.len() == picked.len(),
            forall|k: int|
                0 <= k < picked.len() ==> {
                    &&& (#[trigger] places@[k]) < rows.len()
                    &&& rows[places@[k] as int] == picked[k]
                },
            forall|i: int| 0 <= i < order@.len() ==> (#[trigger] order@[i]) < picked.len(),
            forall|j: int|
                0 <= j < k ==> (#[trigger] out@[j]) < rows.len() && rows[out@[j] as int]
                    == target[j],
        decreases order@.len() - k,
    {
        proof {
            assert(target[k as int] == picked[order@[k as int] as int]);
        }
        out.push(places[order[k]]);
        k += 1;
    }
    out
}

/// Reads the steps at `places`.
pub(crate) fn read_steps(db: &Database, places: &Vec<usize>, now: &Timestamp) -> (r: Result<
    Vec<WorkflowStepInstance>,
    String,
>)
    requires
        places_ready(db.deep_view().steps, places@, *now),
    ensures
        outcome(r) == steps_in(ready_rows(db.deep_view().steps, *now)),
{
    let ghost rows = db.steps.deep_view();
    let ghost target = ready_rows(rows, *now);
    let mut out: Vec<WorkflowStepInstance> = Vec::new();
    let mut k: usize = 0;
    proof {
        assert(target.take(0) =~= Seq::empty());
        assert(out.deep_view() =~= Seq::empty());
    }
    while k < places.len()
        invariant
            k <= places@.len(),
            rows == db.steps.deep_view(),
            target == ready_rows(rows, *now),
            places_ready(rows, places@, *now),
            steps_in(target.take(k as int)) == Ok::<Seq<WorkflowStepInstanceView>, Text>(
                out.deep_view(),
            ),
        decreases places@.len() - k,
    {
        proof {
            assert(target.take(k + 1).drop_last() =~= target.take(k as int));
            assert(target.take(k + 1).last() == target[k as int]);
            lemma_steps_in_prefix(target, k + 1);
        }
        let ghost done = out.deep_view();
        match row_to_step(&db.steps[places[k]]) {
            Ok(step) => {
                out.push(step);
                proof {
                    assert(out.deep_view() =~= done.push(step.deep_view()));
                }
            },
            Err(e) => return Err(e),
        }
        k += 1;
    }
    proof {
        assert(target.take(k as int) =~= target);
    }
    Ok(out)
}

/// Get the pending or retried steps that are ready to execute at `now` (next_retry_at <= now).
pub fn get_pending_steps_at(db: &Database, now: &Timestamp) -> (r: Result<
    Vec<WorkflowStepInstance>,
    String,
>)
    ensures
        outcome(r) == steps_in(ready_rows(db.deep_view().steps, *now)),
{
    let places: Vec<usize> = find_ready(db, now);
    read_steps(db, &places, now)
}

/// Get pending or retried steps that are ready to execute (next_retry_at <= now).
pub fn get_pending_steps(db: &Database) -> (r: Result<Vec<WorkflowStepInstance>, String>)
    ensures
        exists|now: Timestamp|
            clock_shows(now) && outcome(r) == steps_in(#[trigger] ready_rows(db.deep_view().steps, now)),
{
    let now: Timestamp = utc_now();
    get_pending_steps_at(db, &now)
}

// ---- the next step of a run -----------------------------------------------------------------

/// The step belongs to the run and has not been handed out.
pub open spec fn waiting(row: StepRecord, run_id: Text) -> bool {
    row.workflow_run_id == run_id && (row.state is Pending || row.state is Retried)
}

/// The place of the first waiting step with the lowest index.
pub open spec fn lowest_waiting(rows: Seq<StepRecord>, run_id: Text) -> Option<int>
    decreases rows.len(),
{
    if rows.len() == 0 {
        None
    } else {
        let earlier = lowest_waiting(rows.drop_last(), run_id);
        if waiting(rows.last(), run_id) && (earlier is None || rows.last().step_index
            < rows[earlier->0].step_index) {
            Some(rows.len() - 1)
        } else {
            earlier
        }
    }
}

/// The lowest waiting step is a waiting step, and no waiting step has a lower index; there is one
/// exactly where some step waits.
pub proof fn law_lowest_waiting(rows: Seq<StepRecord>, run_id: Text)
    ensures
        match lowest_waiting(rows, run_id) {
            Some(p) => {
                &&& 0 <= p < rows.len()
                &&& waiting(rows[p], run_id)
                &&& forall|i: int|
                    0 <= i < rows.len() && waiting(#[trigger] rows[i], run_id)
                        ==> rows[p].step_index <= rows[i].step_index
            },
            None => forall|i: int| 0 <= i < rows.len() ==> !waiting(#[trigger] rows[i], run_id),
        },
    decreases rows.len(),
{
    if rows.len() > 0 {
        let front = rows.drop_last();
        law_lowest_waiting(front, run_id);
        assert forall|i: int| 0 <= i < front.len() implies front[i] == #[trigger] rows[i] by {}
    }
}

/// The place of the first waiting step with the lowest index.
pub(crate) fn find_lowest_waiting(db: &Database, run_id: &str) -> (r: Option<usize>)
    ensures
        match r {
            Some(p) => p < db.steps@.len() && lowest_waiting(db.deep_view().steps, run_id@) == Some(
                p as int,
            ),
            None => lowest_waiting(db.deep_view().steps, run_id@) is None,
        },
{
    let ghost rows = db.steps.deep_view();
    let mut best: Option<usize> = None;
    let mut i: usize = 0;
    proof {
        assert(rows.take(0) =~= Seq::empty());
    }
    while i < db.steps.len()
        invariant
            i <= db.steps@.len(),
            rows == db.steps.deep_view(),
            match best {
                Some(p) => p < i && lowest_waiting(rows.take(i as int), run_id@) == Some(p as int),
                None => lowest_waiting(rows.take(i as int), run_id@) is None,
            },
        decreases rows.len() - i,
    {
        proof {
            assert(rows.take(i + 1).drop_last() =~= rows.take(i as int));
            assert(rows.take(i + 1).last() == rows[i as int]);
            if let Some(p) = best {
                assert(rows.take(i + 1)[p as int] == rows[p as int]);
            }
        }
        let row: &StepRow = &db.steps[i];
        if (row.state == ActivityState::Pending || row.state == ActivityState::Retried) && text_eq(
            row.workflow_run_id.as_str(),
            run_id,
        ) {
            let lower: bool = match best {
                Some(p) => row.step_index < db.steps[p].step_index,
                None => true,
            };
            if lower {
                best = Some(i);
            }
        }
        i += 1;
    }
    proof {
        assert(rows.take(i as int) =~= rows);
    }
    best
}

/// The next step of a run that waits to be handed out.
pub open spec fn next_step_found(s: Store, run_id: Text) -> Result<
    Option<WorkflowStepInstanceView>,
    Text,
> {
    match lowest_waiting(s.steps, run_id) {
        None => Ok(None),
        Some(p) => match step_in(s.steps[p]) {
            Ok(step) => Ok(Some(step)),
            Err(e) => Err(e),
        },
    }
}

/// Get the next pending step for a running workflow.
pub fn get_next_step_for_workflow(db: &Database, workflow_run_id: &str) -> (r: Result<
    Option<WorkflowStepInstance>,
    String,
>)
    ensures
        outcome(r) == next_step_found(db.deep_view(), workflow_run_id@),
{
    match find_lowest_waiting(db, workflow_run_id) {
        None => Ok(None),
        Some(p) => match row_to_step(&db.steps[p]) {
            Ok(step) => Ok(Some(step)),
            Err(e) => Err(e),
        },
    }
}

// ---- activity attempts ----------------------------------------------------------------------

/// The row of an attempt that starts at `now`.
pub open spec fn attempt_record(id: Text, step_id: Text, attempt: u32, now: Timestamp) -> ActivityRecord {
    ActivityRecord {
        id,
        step_id,
        attempt: attempt as i64,
        state: ActivityState::Running,
        started_at: Some(time_text(now)),
        completed_at: None,
        last_heartbeat_at: None,
        result_json: None,
        error_message: None,
    }
}

/// The tables with an attempt inserted, and the outcome: an ID that is there already and a step
/// that is not are refused.
pub open spec fn attempt_inserted(s: Store, id: Text, step_id: Text, attempt: u32, now: Timestamp) -> (
    Store,
    Result<(), Text>,
) {
    if has_key(s.activities, id) {
        (s, Err("UNIQUE constraint failed: activities.id"@))
    } else if !has_key(s.steps, step_id) {
        (s, Err("FOREIGN KEY constraint failed"@))
    } else {
        (
            Store {
                activities: s.activities.push(attempt_record(id, step_id, attempt, now)),
                ..s
            },
            Ok(()),
        )
    }
}

/// Insert an activity attempt record that starts at `now`.
pub fn insert_activity_attempt_at(
    db: &mut Database,
    id: &str,
    step_id: &str,
    attempt: u32,
    now: &Timestamp,
) -> (r: Result<(), String>)
    ensures
        (final(db).deep_view(), outcome(r)) == attempt_inserted(
            old(db).deep_view(),
            id@,
            step_id@,
            attempt,
            *now,
        ),
{
    proof {
        lemma_with_key(db.activities.deep_view(), id@);
        lemma_with_key(db.steps.deep_view(), step_id@);
    }
    if find_row(&db.activities, id).is_some() {
        return Err("UNIQUE constraint failed: activities.id".to_owned());
    }
    if find_row(&db.steps, step_id).is_none() {
        return Err("FOREIGN KEY constraint failed".to_owned());
    }
    let row: ActivityRow = ActivityRow {
        id: id.to_owned(),
        step_id: step_id.to_owned(),
        attempt: attempt as i64,
        state: ActivityState::Running,
        started_at: Some(format_datetime(now)),
        completed_at: None,
        last_heartbeat_at: None,
        result_json: None,
        error_message: None,
    };
    let ghost record = row.deep_view();
    db.activities.push(row);
    proof {
        assert(record =~= attempt_record(id@, step_id@, attempt, *now));
        assert(db.activities.deep_view() =~= old(db).activities.deep_view().push(record));
    }
    Ok(())
}

/// Insert an activity attempt record.
pub fn insert_activity_attempt(db: &mut Database, id: &str, step_id: &str, attempt: u32) -> (r:
    Result<(), String>)
    ensures
        exists|now: Timestamp|
            clock_shows(now) && (final(db).deep_view(), outcome(r)) == #[trigger] attempt_inserted(
                old(db).deep_view(),
                id@,
                step_id@,
                attempt,
                now,
            ),
{
    let now: Timestamp = utc_now();
    insert_activity_attempt_at(db, id, step_id, attempt, &now)
}

/// A row with its attempt ended at `at`.
pub open spec fn attempt_set(
    row: ActivityRecord,
    state: ActivityState,
    result: Option<Text>,
    error: Option<Text>,
    at: Text,
) -> ActivityRecord {
    ActivityRecord {
        state,
        completed_at: Some(at),
        result_json: result,
        error_message: error,
        ..row
    }
}

/// The tables with an attempt ended at `now`, and the outcome: the state of a retry is refused,
/// where there is an attempt to set.
pub open spec fn activity_state_updated(
    s: Store,
    id: Text,
    state: ActivityState,
    result: Option<Text>,
    error: Option<Text>,
    now: Timestamp,
) -> (Store, Result<(), Text>) {
    if state is Retried {
        if has_key(s.activities, id) {
            (
                s,
                Err(
                    "CHECK constraint failed: state IN ('pending', 'running', 'completed', 'failed')"@,
                ),
            )
        } else {
            (s, Ok(()))
        }
    } else {
        (
            Store {
                activities: changed(
                    s.activities,
                    id,
                    |row: ActivityRecord| attempt_set(row, state, result, error, time_text(now)),
                ),
                ..s
            },
            Ok(()),
        )
    }
}

/// An optional text, owned.
fn owned(s: Option<&str>) -> (r: Option<String>)
    ensures
        r.deep_view() == s.deep_view(),
{
    match s {
        Some(s) => Some(s.to_owned()),
        None => None,
    }
}

/// Update the state of an activity (completion or failure) at `now`.
pub fn update_activity_state_at(
    db: &mut Database,
    id: &str,
    new_state: ActivityState,
    result_json: Option<&Json>,
    error_message: Option<&str>,
    now: &Timestamp,
) -> (r: Result<(), String>)
    ensures
        (final(db).deep_view(), outcome(r)) == activity_state_updated(
            old(db).deep_view(),
            id@,
            new_state,
            result_json.deep_view(),
            error_message.deep_view(),
            *now,
        ),
{
    if new_state == ActivityState::Retried {
        proof {
            lemma_with_key(db.activities.deep_view(), id@);
        }
        if find_row(&db.activities, id).is_some() {
            return Err(
                "CHECK constraint failed: state IN ('pending', 'running', 'completed', 'failed')".to_owned(),
            );
        }
        return Ok(());
    }
    let result: Option<String> = to_json_column(result_json);
    let error: Option<String> = owned(error_message);
    let clock: String = format_datetime(now);
    let ghost before = db.activities.deep_view();
    let ghost change = |row: ActivityRecord|
        attempt_set(
            row,
            new_state,
            result_json.deep_view(),
            error_message.deep_view(),
            time_text(*now),
        );
    let ghost after = changed(before, id@, change);
    let mut i: usize = 0;
    while i < db.activities.len()
        invariant
            i <= db.activities@.len(),
            db.activities@.len() == before.len(),
            result.deep_view() == result_json.deep_view(),
            error.deep_view() == error_message.deep_view(),
            clock@ == time_text(*now),
            before == old(db).activities.deep_view(),
            change == (|row: ActivityRecord|
                attempt_set(
                    row,
                    new_state,
                    result_json.deep_view(),
                    error_message.deep_view(),
                    time_text(*now),
                )),
            after == changed(before, id@, change),
            db.namespaces == old(db).namespaces,
            db.schedules == old(db).schedules,
            db.workflows == old(db).workflows,
            db.steps == old(db).steps,
            forall|j: int| 0 <= j < i ==> #[trigger] db.activities@[j].deep_view() == after[j],
            forall|j: int|
                i <= j < before.len() ==> #[trigger] db.activities@[j].deep_view() == before[j],
        decreases before.len() - i,
    {
        proof {
            assert(db.activities@[i as int].deep_view() == before[i as int]);
        }
        if text_eq(db.activities[i].id.as_str(), id) {
            let row: &mut ActivityRow = &mut db.activities[i];
            row.state = new_state;
            row.completed_at = Some(clock.clone());
            row.result_json = result.clone();
            row.error_message = error.clone();
        }
        i += 1;
    }
    proof {
        assert(db.activities.deep_view() =~= after);
    }
    Ok(())
}

/// Update the state of an activity (completion or failure).
pub fn update_activity_state(
    db: &mut Database,
    id: &str,
    new_state: ActivityState,
    result_json: Option<&Json>,
    error_message: Option<&str>,
) -> (r: Result<(), String>)
    ensures
        exists|now: Timestamp|
            clock_shows(now) && (final(db).deep_view(), outcome(r)) == #[trigger] activity_state_updated(
                old(db).deep_view(),
                id@,
                new_state,
                result_json.deep_view(),
                error_message.deep_view(),
                now,
            ),
{
    let now: Timestamp = utc_now();
    update_activity_state_at(db, id, new_state, result_json, error_message, &now)
}

// ---- heartbeats -----------------------------------------------------------------------------

/// A row with a heartbeat at `at`, where its attempt is running.
pub open spec fn beaten(row: ActivityRecord, at: Text) -> ActivityRecord {
    if row.state is Running {
        ActivityRecord { last_heartbeat_at: Some(at), ..row }
    } else {
        row
    }
}

/// Some attempt with this ID is running.
pub open spec fn running_attempt(rows: Seq<ActivityRecord>, id: Text) -> bool {
    exists|i: int| 0 <= i < rows.len() && (#[trigger] rows[i]).id == id && rows[i].state is Running
}

/// The tables with a heartbeat of an attempt, and the outcome: an attempt that is not there or not
/// running is refused.
pub open spec fn heartbeat_updated(s: Store, id: Text, now: Timestamp) -> (Store, Result<(), Text>) {
    if running_attempt(s.activities, id) {
        (
            Store {
                activities: changed(
                    s.activities,
                    id,
                    |row: ActivityRecord| beaten(row, time_text(now)),
                ),
                ..s
            },
            Ok(()),
        )
    } else {
        (s, Err("Activity not found or not in running state"@))
    }
}

/// Update the heartbeat timestamp for a running activity to `now`. The text that is set reads back
/// as the second of the heartbeat.
pub fn heartbeat_update_at(db: &mut Database, id: &str, now: &Timestamp) -> (r: Result<(), String>)
    ensures
        (final(db).deep_view(), outcome(r)) == heartbeat_updated(old(db).deep_view(), id@, *now),
        time_in(time_text(*now)) == Ok::<Timestamp, Text>(now.whole_second()),
{
    let clock: String = format_datetime(now);
    let ghost before = db.activities.deep_view();
    let ghost change = |row: ActivityRecord| beaten(row, time_text(*now));
    let ghost after = changed(before, id@, change);
    let mut found: bool = false;
    let mut i: usize = 0;
    while i < db.activities.len()
        invariant
            i <= db.activities@.len(),
            db.activities@.len() == before.len(),
            before == old(db).activities.deep_view(),
            clock@ == time_text(*now),
            change == (|row: ActivityRecord| beaten(row, time_text(*now))),
            after == changed(before, id@, change),
            db.namespaces == old(db).namespaces,
            db.schedules == old(db).schedules,
            db.workflows == old(db).workflows,
            db.steps == old(db).steps,
            forall|j: int| 0 <= j < i ==> #[trigger] db.activities@[j].deep_view() == after[j],
            forall|j: int|
                i <= j < before.len() ==> #[trigger] db.activities@[j].deep_view() == before[j],
            found ==> running_attempt(before, id@),
            !found ==> forall|j: int|
                0 <= j < i ==> !((#[trigger] before[j]).id == id@ && before[j].state is Running),
        decreases before.len() - i,
    {
        proof {
            assert(db.activities@[i as int].deep_view() == before[i as int]);
        }
        if db.activities[i].state == ActivityState::Running && text_eq(
            db.activities[i].id.as_str(),
            id,
        ) {
            let row: &mut ActivityRow = &mut db.activities[i];
            row.last_heartbeat_at = Some(clock.clone());
            found = true;
        }
        i += 1;
    }
    proof {
        assert(db.activities.deep_view() =~= after);
        if !found {
            assert(after =~= before);
        }
    }
    if found {
        Ok(())
    } else {
        Err("Activity not found or not in running state".to_owned())
    }
}

/// Update the heartbeat timestamp for a running activity.
pub fn heartbeat_update(db: &mut Database, id: &str) -> (r: Result<(), String>)
    ensures
        exists|now: Timestamp|
            clock_shows(now) && (final(db).deep_view(), outcome(r)) == #[trigger] heartbeat_updated(
                old(db).deep_view(),
                id@,
                now,
            ),
{
    let now: Timestamp = utc_now();
    heartbeat_update_at(db, id, &now)
}

// ---- running activities ---------------------------------------------------------------------

/// A running activity with its heartbeat information.
#[derive(Debug)]
pub struct RunningActivity {
    /// Activity ID (UUID string).
    pub id: String,
    /// Parent step ID (UUID string).
    pub step_id: String,
    /// Current attempt number.
    pub attempt: u32,
    /// When the activity started (ISO 8601 string).
    pub started_at_str: Option<String>,
    /// Last heartbeat timestamp (ISO 8601 string).
    pub last_heartbeat_at_str: Option<String>,
    /// Parent workflow run ID (UUID string).
    pub workflow_run_id: String,
    /// Activity name.
    pub activity_name: String,
    /// Heartbeat timeout in seconds.
    pub heartbeat_timeout_secs: Option<u64>,
}

/// The view of a [`RunningActivity`].
#[verifier::ext_equal]
pub struct RunningActivityView {
    pub id: Text,
    pub step_id: Text,
    pub attempt: u32,
    pub started_at_str: Option<Text>,
    pub last_heartbeat_at_str: Option<Text>,
    pub workflow_run_id: Text,
    pub activity_name: Text,
    pub heartbeat_timeout_secs: Option<u64>,
}

impl DeepView for RunningActivity {
    type V = RunningActivityView;

    open spec fn deep_view(&self) -> RunningActivityView {
        RunningActivityView {
            id: self.id@,
            step_id: self.step_id@,
            attempt: self.attempt,
            started_at_str: self.started_at_str.deep_view(),
            last_heartbeat_at_str: self.last_heartbeat_at_str.deep_view(),
            workflow_run_id: self.workflow_run_id@,
            activity_name: self.activity_name@,
            heartbeat_timeout_secs: self.heartbeat_timeout_secs,
        }
    }
}

/// An attempt together with its step.
pub open spec fn running_with_step(row: ActivityRecord, step: StepRecord) -> RunningActivityView {
    RunningActivityView {
        id: row.id,
        step_id: row.step_id,
        attempt: row.attempt as u32,
        started_at_str: row.started_at,
        last_heartbeat_at_str: row.last_heartbeat_at,
        workflow_run_id: step.workflow_run_id,
        activity_name: step.activity_name,
        heartbeat_timeout_secs: unsigned(step.heartbeat_timeout_secs),
    }
}

/// The running attempts, each with its step, in the order in which they were inserted.
pub open spec fn running_activities(rows: Seq<ActivityRecord>, steps: Seq<StepRecord>) -> Seq<
    RunningActivityView,
>
    decreases rows.len(),
{
    if rows.len() == 0 {
        Seq::empty()
    } else {
        let earlier = running_activities(rows.drop_last(), steps);
        let step = with_key(steps, rows.last().step_id);
        if rows.last().state is Running && step is Some {
            earlier.push(running_with_step(rows.last(), step->0))
        } else {
            earlier
        }
    }
}

/// Get all currently running activities (for heartbeat timeout checks).
pub fn get_running_activities(db: &Database) -> (r: Result<Vec<RunningActivity>, String>)
    ensures
        r is Ok,
        r->Ok_0.deep_view() == running_activities(db.deep_view().activities, db.deep_view().steps),
{
    let ghost rows = db.activities.deep_view();
    let ghost steps = db.steps.deep_view();
    let mut out: Vec<RunningActivity> = Vec::new();
    let mut i: usize = 0;
    proof {
        assert(rows.take(0) =~= Seq::empty());
        assert(out.deep_view() =~= Seq::empty());
    }
    while i < db.activities.len()
        invariant
            i <= db.activities@.len(),
            rows == db.activities.deep_view(),
            steps == db.steps.deep_view(),
            out.deep_view() == running_activities(rows.take(i as int), steps),
        decreases rows.len() - i,
    {
        proof {
            assert(rows.take(i + 1).drop_last() =~= rows.take(i as int));
            assert(rows.take(i + 1).last() == rows[i as int]);
        }
        let row: &ActivityRow = &db.activities[i];
        if row.state == ActivityState::Running {
            if let Some(p) = find_row(&db.steps, row.step_id.as_str()) {
                let step: &StepRow = &db.steps[p];
                let ghost done = out.deep_view();
                let item: RunningActivity = RunningActivity {
                    id: row.id.clone(),
                    step_id: row.step_id.clone(),
                    attempt: row.attempt as u32,
                    started_at_str: row.started_at.clone(),
                    last_heartbeat_at_str: row.last_heartbeat_at.clone(),
                    workflow_run_id: step.workflow_run_id.clone(),
                    activity_name: step.activity_name.clone(),
                    heartbeat_timeout_secs: to_unsigned(step.heartbeat_timeout_secs),
                };
                out.push(item);
                proof {
                    assert(item.deep_view() =~= running_with_step(
                        rows[i as int],
                        steps[p as int],
                    ));
                    assert(out.deep_view() =~= done.push(item.deep_view()));
                }
            }
        }
        i += 1;
    }
    proof {
        assert(rows.take(i as int) =~= rows);
    }
    Ok(out)
}

} // verus!
