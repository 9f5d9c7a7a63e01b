//! What each statement does to the rows, column by column, and what is read from them.

use vstd::prelude::*;
use crate::activity::ActivityState;
use crate::clock::{time_in, time_text, Timestamp};
use crate::db::activities::{activity_state_updated, attempt_inserted, heartbeat_updated, ready, running_activities, step_in, step_inserted, step_state_updated, RunningActivityView};
use crate::db::order::{arranged, in_order, law_ordered, lemma_column_order, lemma_filter, ordered};
use crate::db::rows::{consistent, has_key, lemma_with_key, with_key, ActivityRecord, Keyed, OverlapColumn, PolicyColumnView, ScheduleRecord, StepRecord, Store, TimeoutsColumnView, WorkflowRecord};
use crate::db::schedules::{schedule_deleted, schedule_found, schedule_in, schedule_record, schedule_row_inserted, schedule_rows_listed, schedule_spec_updated};
use crate::db::workflows::{listed, workflow_cancelled, workflow_found, workflow_in, workflow_inserted, workflow_rows_listed, workflow_state_updated};
use crate::ids::{uuid_parse, uuid_text};
use crate::json::{by_key, json_list_text, json_object_text, json_parse, json_string_list, json_string_map};
use crate::laws::polling::lemma_filter_apart;
use crate::laws::running::{lemma_filter_grows, lemma_filter_keeps};
use crate::laws::scheduling::{law_schedules_by_namespace, law_workflows_by_namespace};
use crate::schedule::{OverlapPolicy, ScheduleSpecView, ScheduleView};
use crate::text::{text_le, Text};
use crate::workflow::{WorkflowInstanceView, WorkflowState, WorkflowStepInstanceView};

verus! {

// ---- keys -----------------------------------------------------------------------------------

/// A run is found by its run ID, a step and an attempt by their IDs, and a schedule by its ID: what
/// is found is a row with that ID, and nothing is found exactly where no row has it.
pub proof fn law_found_by_id(s: Store, id: Text)
    ensures
        match with_key(s.workflows, id) {
            Some(row) => row.run_id == id && s.workflows.contains(row),
            None => forall|i: int| 0 <= i < s.workflows.len() ==> (#[trigger] s.workflows[i]).run_id != id,
        },
        match with_key(s.steps, id) {
            Some(row) => row.id == id && s.steps.contains(row),
            None => forall|i: int| 0 <= i < s.steps.len() ==> (#[trigger] s.steps[i]).id != id,
        },
        match with_key(s.activities, id) {
            Some(row) => row.id == id && s.activities.contains(row),
            None => forall|i: int| 0 <= i < s.activities.len() ==> (#[trigger] s.activities[i]).id != id,
        },
        match with_key(s.schedules, id) {
            Some(row) => row.schedule_id == id && s.schedules.contains(row),
            None => forall|i: int|
                0 <= i < s.schedules.len() ==> (#[trigger] s.schedules[i]).schedule_id != id,
        },
{
    lemma_with_key(s.workflows, id);
    lemma_with_key(s.steps, id);
    lemma_with_key(s.activities, id);
    lemma_with_key(s.schedules, id);
    assert forall|i: int| with_key(s.workflows, id) is None && 0 <= i < s.workflows.len() implies (
    #[trigger] s.workflows[i]).run_id != id by {
        if s.workflows[i].run_id == id {
            assert(s.workflows[i].key() == id);
        }
    }
    assert forall|i: int| with_key(s.steps, id) is None && 0 <= i < s.steps.len() implies (
    #[trigger] s.steps[i]).id != id by {
        if s.steps[i].id == id {
            assert(s.steps[i].key() == id);
        }
    }
    assert forall|i: int| with_key(s.activities, id) is None && 0 <= i < s.activities.len() implies (
    #[trigger] s.activities[i]).id != id by {
        if s.activities[i].id == id {
            assert(s.activities[i].key() == id);
        }
    }
    assert forall|i: int| with_key(s.schedules, id) is None && 0 <= i < s.schedules.len() implies (
    #[trigger] s.schedules[i]).schedule_id != id by {
        if s.schedules[i].schedule_id == id {
            assert(s.schedules[i].key() == id);
        }
    }
}

/// In consistent tables no two rows have one ID, every step has its run, and every attempt its step.
pub proof fn law_consistent_rows(s: Store, i: int, j: int)
    requires
        consistent(s),
        0 <= i,
        0 <= j,
        i != j,
    ensures
        i < s.workflows.len() && j < s.workflows.len() ==> s.workflows[i].run_id
            != s.workflows[j].run_id,
        i < s.steps.len() && j < s.steps.len() ==> s.steps[i].id != s.steps[j].id,
        i < s.activities.len() && j < s.activities.len() ==> s.activities[i].id
            != s.activities[j].id,
        i < s.schedules.len() && j < s.schedules.len() ==> s.schedules[i].schedule_id
            != s.schedules[j].schedule_id,
        i < s.namespaces.len() && j < s.namespaces.len() ==> s.namespaces[i] != s.namespaces[j],
        i < s.steps.len() ==> exists|k: int|
            0 <= k < s.workflows.len() && (#[trigger] s.workflows[k]).run_id
                == s.steps[i].workflow_run_id,
        i < s.activities.len() ==> exists|k: int|
            0 <= k < s.steps.len() && (#[trigger] s.steps[k]).id == s.activities[i].step_id,
{
    if i < s.workflows.len() && j < s.workflows.len() {
        assert(s.workflows[i].key() != s.workflows[j].key());
    }
    if i < s.steps.len() && j < s.steps.len() {
        assert(s.steps[i].key() != s.steps[j].key());
    }
    if i < s.activities.len() && j < s.activities.len() {
        assert(s.activities[i].key() != s.activities[j].key());
    }
    if i < s.schedules.len() && j < s.schedules.len() {
        assert(s.schedules[i].key() != s.schedules[j].key());
    }
    if i < s.steps.len() {
        let id = s.steps[i].workflow_run_id;
        assert(has_key(s.workflows, id));
        let k = choose|k: int| 0 <= k < s.workflows.len() && (#[trigger] s.workflows[k]).key() == id;
        assert(s.workflows[k].run_id == id);
    }
    if i < s.activities.len() {
        let id = s.activities[i].step_id;
        assert(has_key(s.steps, id));
        let k = choose|k: int| 0 <= k < s.steps.len() && (#[trigger] s.steps[k]).key() == id;
        assert(s.steps[k].id == id);
    }
}

// ---- runs -----------------------------------------------------------------------------------

/// A number of seconds as it stands in a column: the same 64 bits.
pub open spec fn same_bits(column: Option<i64>, secs: Option<u64>) -> bool {
    (column is Some <==> secs is Some) && (secs matches Some(n) ==> column == Some(n as i64))
}

/// A time as it stands in a column: its text, and nothing for none.
pub open spec fn same_time(column: Option<Text>, t: Option<Timestamp>) -> bool {
    (column is Some <==> t is Some) && (t matches Some(t) ==> column == Some(time_text(t)))
}

/// A run goes to the end of its table, column by column, where no run has its run ID; else nothing
/// changes. No other table changes.
pub proof fn law_run_inserted(s: Store, wf: WorkflowInstanceView)
    ensures
        ({
            let (after, r) = workflow_inserted(s, wf);
            let n = s.workflows.len() as int;
            if exists|i: int|
                0 <= i < n && (#[trigger] s.workflows[i]).run_id == uuid_text(wf.run_id) {
                r is Err && after == s
            } else {
                &&& r is Ok
                &&& after.workflows.len() == n + 1
                &&& forall|i: int| 0 <= i < n ==> (#[trigger] after.workflows[i]) == s.workflows[i]
                &&& after.workflows[n].run_id == uuid_text(wf.run_id)
                &&& after.workflows[n].workflow_id == wf.workflow_id
                &&& after.workflows[n].name == wf.name
                &&& after.workflows[n].task_queue == wf.task_queue
                &&& after.workflows[n].state == wf.state
                &&& after.workflows[n].args_json == wf.args_json
                &&& after.workflows[n].result_json == wf.result_json
                &&& after.workflows[n].namespace == wf.namespace
                &&& same_bits(
                    after.workflows[n].execution_timeout_secs,
                    wf.timeouts.execution_timeout_secs,
                )
                &&& same_bits(after.workflows[n].run_timeout_secs, wf.timeouts.run_timeout_secs)
                &&& same_bits(after.workflows[n].task_timeout_secs, wf.timeouts.task_timeout_secs)
                &&& same_time(after.workflows[n].started_at, wf.started_at)
                &&& same_time(after.workflows[n].completed_at, wf.completed_at)
                &&& after.schedules == s.schedules && after.steps == s.steps && after.activities
                    == s.activities && after.namespaces == s.namespaces
            }
        }),
{
    let id = uuid_text(wf.run_id);
    if exists|i: int|
        0 <= i < s.workflows.len() && (#[trigger] s.workflows[i]).run_id == uuid_text(wf.run_id) {
        let i = choose|i: int|
            0 <= i < s.workflows.len() && (#[trigger] s.workflows[i]).run_id == uuid_text(
                wf.run_id,
            );
        assert(s.workflows[i].key() == id);
        assert(has_key(s.workflows, id));
    } else if has_key(s.workflows, id) {
        let i = choose|i: int| 0 <= i < s.workflows.len() && (#[trigger] s.workflows[i]).key() == id;
        assert(s.workflows[i].run_id == id);
    }
}

/// Setting the state of a run sets its state, its result and its end, of that run alone.
pub proof fn law_run_state_set(
    s: Store,
    run_id: Text,
    state: WorkflowState,
    result: Option<Text>,
    completed_at: Option<Timestamp>,
    i: int,
)
    requires
        0 <= i < s.workflows.len(),
    ensures
        ({
            let after = workflow_state_updated(s, run_id, state, result, completed_at);
            let (a, b) = (s.workflows[i], after.workflows[i]);
            &&& after.workflows.len() == s.workflows.len()
            &&& a.run_id != run_id ==> b == a
            &&& a.run_id == run_id ==> b.state == state && b.result_json == result && same_time(
                b.completed_at,
                completed_at,
            )
            &&& b.run_id == a.run_id && b.workflow_id == a.workflow_id && b.name == a.name
                && b.task_queue == a.task_queue && b.args_json == a.args_json && b.started_at
                == a.started_at && b.namespace == a.namespace && b.execution_timeout_secs
                == a.execution_timeout_secs && b.run_timeout_secs == a.run_timeout_secs
                && b.task_timeout_secs == a.task_timeout_secs
            &&& after.schedules == s.schedules && after.steps == s.steps && after.activities
                == s.activities && after.namespaces == s.namespaces
        }),
{
}

/// Cancelling ends a run that is pending or running, with the time as its end, and changes nothing
/// else; where no such run has the ID, nothing changes.
pub proof fn law_run_cancelled(s: Store, run_id: Text, now: Timestamp, i: int)
    requires
        0 <= i < s.workflows.len(),
    ensures
        ({
            let (after, r) = workflow_cancelled(s, run_id, now);
            let (a, b) = (s.workflows[i], after.workflows[i]);
            let open = a.state is Pending || a.state is Running;
            &&& a.run_id == run_id && open ==> r is Ok && b.state is Cancelled && b.completed_at
                == Some(time_text(now))
            &&& !(a.run_id == run_id && open) ==> b == a
            &&& b.run_id == a.run_id && b.workflow_id == a.workflow_id && b.name == a.name
                && b.task_queue == a.task_queue && b.args_json == a.args_json && b.started_at
                == a.started_at && b.namespace == a.namespace && b.result_json == a.result_json
            &&& r is Ok ==> exists|k: int|
                0 <= k < s.workflows.len() && (#[trigger] s.workflows[k]).run_id == run_id && (
                s.workflows[k].state is Pending || s.workflows[k].state is Running)
            &&& r is Err ==> after == s
            &&& after.workflows.len() == s.workflows.len()
            &&& after.schedules == s.schedules && after.steps == s.steps && after.activities
                == s.activities && after.namespaces == s.namespaces
        }),
{
    if s.workflows[i].run_id == run_id && s.workflows[i].state.active() {
        assert(crate::db::workflows::active_run(s.workflows, run_id));
    }
}

/// A value that is read from a JSON column.
pub open spec fn same_value(column: Option<Text>, value: Option<Text>) -> bool {
    match column {
        Some(text) => value is Some && json_parse(text) == Ok::<Text, Text>(value->0),
        None => value is None,
    }
}

/// A time that is read from a column.
pub open spec fn read_time(column: Option<Text>, t: Option<Timestamp>) -> bool {
    match column {
        Some(text) => t is Some && time_in(text) == Ok::<Timestamp, Text>(t->0),
        None => t is None,
    }
}

/// What is read of a run is what the columns of its row hold, each in its own place.
pub proof fn law_run_read(row: WorkflowRecord)
    ensures
        workflow_in(row) matches Ok(wf) ==> {
            &&& uuid_parse(row.run_id) == Ok::<u128, Text>(wf.run_id)
            &&& wf.workflow_id == row.workflow_id
            &&& wf.name == row.name
            &&& wf.task_queue == row.task_queue
            &&& wf.state == row.state
            &&& wf.namespace == row.namespace
            &&& json_parse(row.args_json) == Ok::<Text, Text>(wf.args_json)
            &&& same_value(row.result_json, wf.result_json)
            &&& wf.timeouts.execution_timeout_secs is Some <==> row.execution_timeout_secs is Some
            &&& wf.timeouts.run_timeout_secs is Some <==> row.run_timeout_secs is Some
            &&& wf.timeouts.task_timeout_secs is Some <==> row.task_timeout_secs is Some
            &&& row.execution_timeout_secs matches Some(n) ==> wf.timeouts.execution_timeout_secs
                == Some(n as u64)
            &&& row.run_timeout_secs matches Some(n) ==> wf.timeouts.run_timeout_secs == Some(
                n as u64,
            )
            &&& row.task_timeout_secs matches Some(n) ==> wf.timeouts.task_timeout_secs == Some(
                n as u64,
            )
            &&& read_time(row.started_at, wf.started_at)
            &&& read_time(row.completed_at, wf.completed_at)
        },
        workflow_in(row) is Err <==> {
            ||| uuid_parse(row.run_id) is Err
            ||| json_parse(row.args_json) is Err
            ||| row.result_json is Some && json_parse(row.result_json->0) is Err
            ||| row.started_at is Some && time_in(row.started_at->0) is Err
            ||| row.completed_at is Some && time_in(row.completed_at->0) is Err
        },
{
}

/// Runs are listed with the latest start first, and those that have not started last.
pub proof fn law_runs_listed_in_order(
    rows: Seq<WorkflowRecord>,
    namespace: Text,
    state: Option<WorkflowState>,
    p: int,
    q: int,
)
    requires
        0 <= p < q < workflow_rows_listed(rows, namespace, state).len(),
    ensures
        ({
            let list = workflow_rows_listed(rows, namespace, state);
            match (list[p].started_at, list[q].started_at) {
                (Some(a), Some(b)) => text_le(b, a),
                (None, Some(_)) => false,
                (_, None) => true,
            }
        }),
        rows.contains(workflow_rows_listed(rows, namespace, state)[p]),
        workflow_rows_listed(rows, namespace, state)[p].namespace == namespace,
{
    let test = listed(namespace, state);
    let picked = rows.filter(test);
    let keys = picked.map_values(|row: WorkflowRecord| row.started_at);
    law_ordered(keys, keys.len(), true);
    let order = ordered(keys, keys.len(), true);
    assert(in_order(keys[order[p]], keys[order[q]], true));
    lemma_filter(rows, test);
    assert(0 <= order[p] < picked.len());
    assert(rows.contains(picked[order[p]]));
}

/// A run is found by its run ID, as its row has it; nothing is found exactly where no row has the ID.
pub proof fn law_run_found(s: Store, run_id: Text)
    ensures
        match workflow_found(s, run_id) {
            Ok(Some(wf)) => exists|i: int|
                0 <= i < s.workflows.len() && (#[trigger] s.workflows[i]).run_id == run_id
                    && workflow_in(s.workflows[i]) == Ok::<WorkflowInstanceView, Text>(wf),
            Ok(None) => forall|i: int|
                0 <= i < s.workflows.len() ==> (#[trigger] s.workflows[i]).run_id != run_id,
            Err(e) => exists|i: int|
                0 <= i < s.workflows.len() && (#[trigger] s.workflows[i]).run_id == run_id
                    && workflow_in(s.workflows[i]) == Err::<WorkflowInstanceView, Text>(e),
        },
{
    law_found_by_id(s, run_id);
    if let Some(row) = with_key(s.workflows, run_id) {
        let i = choose|i: int| 0 <= i < s.workflows.len() && s.workflows[i] == row;
        assert(s.workflows[i].run_id == run_id);
    }
}

// ---- steps ----------------------------------------------------------------------------------

/// The row of a step holds the step, column by column, and the time of its insertion.
pub open spec fn step_holds(row: StepRecord, step: WorkflowStepInstanceView, now: Timestamp) -> bool {
    &&& row.id == uuid_text(step.id)
    &&& row.workflow_run_id == uuid_text(step.workflow_run_id)
    &&& row.step_index == step.step_index as i64
    &&& row.activity_name == step.activity_name
    &&& row.args_json == step.args_json
    &&& row.retry_policy == PolicyColumnView::Policy(step.retry_policy)
    &&& row.timeout_secs == step.timeout_secs as i64
    &&& same_bits(row.heartbeat_timeout_secs, step.heartbeat_timeout_secs)
    &&& step.state is Pending ==> row.state is Pending
    &&& step.state is Running ==> row.state is Running
    &&& step.state is Completed ==> row.state is Completed
    &&& step.state is Failed ==> row.state is Failed
    &&& row.attempt == step.attempt
    &&& row.result_json == step.result_json
    &&& same_time(row.next_retry_at, step.next_retry_at)
    &&& row.created_at == time_text(now)
}

/// A step goes to the end of its table, column by column, where no step has its ID and its run is
/// there; a cancelled step is refused. Else nothing changes, and no other table does.
pub proof fn law_step_inserted_row(s: Store, step: WorkflowStepInstanceView, now: Timestamp)
    ensures
        ({
            let (after, r) = step_inserted(s, step, now);
            let n = s.steps.len() as int;
            &&& r is Ok <==> {
                &&& !(step.state is Cancelled)
                &&& forall|i: int| 0 <= i < n ==> (#[trigger] s.steps[i]).id != uuid_text(step.id)
                &&& exists|i: int|
                    0 <= i < s.workflows.len() && (#[trigger] s.workflows[i]).run_id == uuid_text(
                        step.workflow_run_id,
                    )
            }
            &&& r is Err ==> after == s
            &&& r is Ok ==> {
                &&& after.steps.len() == n + 1
                &&& forall|i: int| 0 <= i < n ==> (#[trigger] after.steps[i]) == s.steps[i]
                &&& step_holds(after.steps[n], step, now)
                &&& after.schedules == s.schedules && after.workflows == s.workflows
                    && after.activities == s.activities && after.namespaces == s.namespaces
            }
        }),
{
    let id = uuid_text(step.id);
    let run_id = uuid_text(step.workflow_run_id);
    if has_key(s.steps, id) {
        let i = choose|i: int| 0 <= i < s.steps.len() && (#[trigger] s.steps[i]).key() == id;
        assert(s.steps[i].id == id);
    } else {
        assert forall|i: int| 0 <= i < s.steps.len() implies (#[trigger] s.steps[i]).id != id by {
            if s.steps[i].id == id {
                assert(s.steps[i].key() == id);
            }
        }
    }
    if has_key(s.workflows, run_id) {
        let i = choose|i: int| 0 <= i < s.workflows.len() && (#[trigger] s.workflows[i]).key() == run_id;
        assert(s.workflows[i].run_id == run_id);
    } else {
        assert forall|i: int| 0 <= i < s.workflows.len() implies (#[trigger] s.workflows[i]).run_id
            != run_id by {
            if s.workflows[i].run_id == run_id {
                assert(s.workflows[i].key() == run_id);
            }
        }
    }
}

/// Setting the state of a step sets its state, its result and the time of its next retry, and its
/// attempt where one is given, of that step alone.
pub proof fn law_step_state_set(
    s: Store,
    step_id: Text,
    state: WorkflowState,
    attempt: Option<u32>,
    result: Option<Text>,
    next_retry_at: Option<Timestamp>,
    i: int,
)
    requires
        0 <= i < s.steps.len(),
        !(state is Cancelled),
    ensures
        ({
            let (after, r) = step_state_updated(s, step_id, state, attempt, result, next_retry_at);
            let (a, b) = (s.steps[i], after.steps[i]);
            &&& r is Ok
            &&& after.steps.len() == s.steps.len()
            &&& a.id != step_id ==> b == a
            &&& a.id == step_id ==> {
                &&& state is Pending ==> b.state is Pending
                &&& state is Running ==> b.state is Running
                &&& state is Completed ==> b.state is Completed
                &&& state is Failed ==> b.state is Failed
                &&& b.result_json == result
                &&& same_time(b.next_retry_at, next_retry_at)
                &&& attempt matches Some(n) ==> b.attempt == n
                &&& attempt is None ==> b.attempt == a.attempt
            }
            &&& b.id == a.id && b.workflow_run_id == a.workflow_run_id && b.step_index
                == a.step_index && b.activity_name == a.activity_name && b.args_json == a.args_json
                && b.retry_policy == a.retry_policy && b.timeout_secs == a.timeout_secs
                && b.heartbeat_timeout_secs == a.heartbeat_timeout_secs && b.created_at
                == a.created_at
            &&& after.schedules == s.schedules && after.workflows == s.workflows
                && after.activities == s.activities && after.namespaces == s.namespaces
        }),
{
}

/// A step cannot be set to cancelled: that is refused where the step is there, and nothing changes.
pub proof fn law_step_not_cancelled(
    s: Store,
    step_id: Text,
    attempt: Option<u32>,
    result: Option<Text>,
    next_retry_at: Option<Timestamp>,
)
    ensures
        ({
            let (after, r) = step_state_updated(
                s,
                step_id,
                WorkflowState::Cancelled,
                attempt,
                result,
                next_retry_at,
            );
            &&& after == s
            &&& r is Err <==> with_key(s.steps, step_id) is Some
        }),
{
    lemma_with_key(s.steps, step_id);
}

/// What is read of a step is what the columns of its row hold, each in its own place; a step marked
/// for a retry reads as one that waits.
pub proof fn law_step_read(row: StepRecord)
    ensures
        step_in(row) matches Ok(step) ==> {
            &&& uuid_parse(row.id) == Ok::<u128, Text>(step.id)
            &&& uuid_parse(row.workflow_run_id) == Ok::<u128, Text>(step.workflow_run_id)
            &&& step.step_index == row.step_index as usize
            &&& step.activity_name == row.activity_name
            &&& json_parse(row.args_json) == Ok::<Text, Text>(step.args_json)
            &&& row.retry_policy == PolicyColumnView::Policy(step.retry_policy)
            &&& step.timeout_secs == row.timeout_secs as u64
            &&& step.heartbeat_timeout_secs is Some <==> row.heartbeat_timeout_secs is Some
            &&& row.heartbeat_timeout_secs matches Some(n) ==> step.heartbeat_timeout_secs == Some(
                n as u64,
            )
            &&& step.attempt == row.attempt as u32
            &&& same_value(row.result_json, step.result_json)
            &&& read_time(row.next_retry_at, step.next_retry_at)
            &&& row.state is Pending || row.state is Retried <==> step.state is Pending
            &&& row.state is Running <==> step.state is Running
            &&& row.state is Completed <==> step.state is Completed
            &&& row.state is Failed <==> step.state is Failed
        },
        step_in(row) is Err <==> {
            ||| uuid_parse(row.id) is Err
            ||| uuid_parse(row.workflow_run_id) is Err
            ||| json_parse(row.args_json) is Err
            ||| row.retry_policy is Malformed
            ||| row.result_json is Some && json_parse(row.result_json->0) is Err
            ||| row.next_retry_at is Some && time_in(row.next_retry_at->0) is Err
        },
{
}

/// A step is ready when it waits and its time, if it has one, has come; only a step marked for a
/// retry needs a time. A step that runs or has ended is not.
pub proof fn law_ready(row: StepRecord, now: Timestamp)
    ensures
        ready(row, time_text(now)) <==> match (row.state, row.next_retry_at) {
            (ActivityState::Pending, None) => true,
            (ActivityState::Pending, Some(at)) => text_le(at, time_text(now)),
            (ActivityState::Retried, Some(at)) => text_le(at, time_text(now)),
            _ => false,
        },
{
}

// ---- attempts -------------------------------------------------------------------------------

/// An attempt goes to the end of its table, running since `now`, where no attempt has its ID and its
/// step is there; else nothing changes.
pub proof fn law_attempt_inserted_row(s: Store, id: Text, step_id: Text, attempt: u32, now: Timestamp)
    ensures
        ({
            let (after, r) = attempt_inserted(s, id, step_id, attempt, now);
            let n = s.activities.len() as int;
            &&& r is Ok <==> {
                &&& forall|i: int| 0 <= i < n ==> (#[trigger] s.activities[i]).id != id
                &&& exists|i: int| 0 <= i < s.steps.len() && (#[trigger] s.steps[i]).id == step_id
            }
            &&& r is Err ==> after == s
            &&& r is Ok ==> {
                let row = after.activities[n];
                &&& after.activities.len() == n + 1
                &&& forall|i: int| 0 <= i < n ==> (#[trigger] after.activities[i]) == s.activities[i]
                &&& row.id == id && row.step_id == step_id && row.attempt == attempt
                &&& row.state is Running
                &&& row.started_at == Some(time_text(now))
                &&& row.completed_at is None && row.last_heartbeat_at is None && row.result_json
                    is None && row.error_message is None
                &&& after.schedules == s.schedules && after.workflows == s.workflows && after.steps
                    == s.steps && after.namespaces == s.namespaces
            }
        }),
{
    if has_key(s.activities, id) {
        let i = choose|i: int| 0 <= i < s.activities.len() && (#[trigger] s.activities[i]).key() == id;
        assert(s.activities[i].id == id);
    } else {
        assert forall|i: int| 0 <= i < s.activities.len() implies (#[trigger] s.activities[i]).id
            != id by {
            if s.activities[i].id == id {
                assert(s.activities[i].key() == id);
            }
        }
    }
    if has_key(s.steps, step_id) {
        let i = choose|i: int| 0 <= i < s.steps.len() && (#[trigger] s.steps[i]).key() == step_id;
        assert(s.steps[i].id == step_id);
    } else {
        assert forall|i: int| 0 <= i < s.steps.len() implies (#[trigger] s.steps[i]).id
            != step_id by {
            if s.steps[i].id == step_id {
                assert(s.steps[i].key() == step_id);
            }
        }
    }
}

/// Setting the state of an attempt sets its state, its end, its result and its error, of that
/// attempt alone.
pub proof fn law_attempt_state_set(
    s: Store,
    id: Text,
    state: ActivityState,
    result: Option<Text>,
    error: Option<Text>,
    now: Timestamp,
    i: int,
)
    requires
        0 <= i < s.activities.len(),
        !(state is Retried),
    ensures
        ({
            let (after, r) = activity_state_updated(s, id, state, result, error, now);
            let (a, b) = (s.activities[i], after.activities[i]);
            &&& r is Ok
            &&& after.activities.len() == s.activities.len()
            &&& a.id != id ==> b == a
            &&& a.id == id ==> b.state == state && b.completed_at == Some(time_text(now))
                && b.result_json == result && b.error_message == error
            &&& b.id == a.id && b.step_id == a.step_id && b.attempt == a.attempt && b.started_at
                == a.started_at && b.last_heartbeat_at == a.last_heartbeat_at
            &&& after.schedules == s.schedules && after.workflows == s.workflows && after.steps
                == s.steps && after.namespaces == s.namespaces
        }),
{
}

/// An attempt cannot be marked for a retry: that is refused where the attempt is there, and nothing
/// changes.
pub proof fn law_attempt_not_retried(
    s: Store,
    id: Text,
    result: Option<Text>,
    error: Option<Text>,
    now: Timestamp,
)
    ensures
        ({
            let (after, r) = activity_state_updated(
                s,
                id,
                ActivityState::Retried,
                result,
                error,
                now,
            );
            &&& after == s
            &&& r is Err <==> with_key(s.activities, id) is Some
        }),
{
    lemma_with_key(s.activities, id);
}

/// A heartbeat sets the time of the last heartbeat of a running attempt, and nothing else; where no
/// running attempt has the ID it is refused and nothing changes.
pub proof fn law_heartbeat_set(s: Store, id: Text, now: Timestamp, i: int)
    requires
        0 <= i < s.activities.len(),
    ensures
        ({
            let (after, r) = heartbeat_updated(s, id, now);
            let (a, b) = (s.activities[i], after.activities[i]);
            &&& a.id == id && a.state is Running ==> r is Ok && b.last_heartbeat_at == Some(
                time_text(now),
            )
            &&& !(a.id == id && a.state is Running) ==> b == a
            &&& b.id == a.id && b.step_id == a.step_id && b.attempt == a.attempt && b.state
                == a.state && b.started_at == a.started_at && b.completed_at == a.completed_at
                && b.result_json == a.result_json && b.error_message == a.error_message
            &&& r is Ok ==> exists|k: int|
                0 <= k < s.activities.len() && (#[trigger] s.activities[k]).id == id
                    && s.activities[k].state is Running
            &&& r is Err ==> after == s
            &&& after.activities.len() == s.activities.len()
            &&& after.schedules == s.schedules && after.workflows == s.workflows && after.steps
                == s.steps && after.namespaces == s.namespaces
        }),
{
    if s.activities[i].id == id && s.activities[i].state is Running {
        assert(crate::db::activities::running_attempt(s.activities, id));
    }
}

/// Every attempt that runs and whose step is there is among the running attempts, with what it and
/// its step hold.
pub proof fn law_running_listed(rows: Seq<ActivityRecord>, steps: Seq<StepRecord>, k: int)
    requires
        0 <= k < rows.len(),
        rows[k].state is Running,
        with_key(steps, rows[k].step_id) is Some,
    ensures
        exists|p: int|
            0 <= p < running_activities(rows, steps).len() && tells_of(
                #[trigger] running_activities(rows, steps)[p],
                rows[k],
                steps,
            ),
    decreases rows.len(),
{
    let front = rows.drop_last();
    let before = running_activities(front, steps);
    let all = running_activities(rows, steps);
    if k < front.len() {
        assert(front[k] == rows[k]);
        law_running_listed(front, steps, k);
        let p = choose|p: int|
            0 <= p < before.len() && tells_of(#[trigger] before[p], front[k], steps);
        assert(all[p] == before[p]);
    } else {
        assert(rows.last() == rows[k]);
        assert(tells_of(all[before.len() as int], rows[k], steps));
    }
}

/// What is among the running attempts is told of an attempt that runs.
pub proof fn law_listed_is_running(rows: Seq<ActivityRecord>, steps: Seq<StepRecord>, p: int)
    requires
        0 <= p < running_activities(rows, steps).len(),
    ensures
        exists|k: int|
            0 <= k < rows.len() && (#[trigger] rows[k]).state is Running && tells_of(
                running_activities(rows, steps)[p],
                rows[k],
                steps,
            ),
    decreases rows.len(),
{
    let front = rows.drop_last();
    let before = running_activities(front, steps);
    if p < before.len() {
        law_listed_is_running(front, steps, p);
        let k = choose|k: int|
            0 <= k < front.len() && (#[trigger] front[k]).state is Running && tells_of(
                before[p],
                front[k],
                steps,
            );
        assert(rows[k] == front[k]);
    } else {
        assert(rows.last() == rows[rows.len() - 1]);
    }
}

/// What is listed of a running attempt is what it and its step hold.
pub open spec fn tells_of(a: RunningActivityView, row: ActivityRecord, steps: Seq<StepRecord>) -> bool {
    with_key(steps, row.step_id) matches Some(step) && {
        &&& a.id == row.id
        &&& a.step_id == row.step_id
        &&& a.attempt == row.attempt as u32
        &&& a.started_at_str == row.started_at
        &&& a.last_heartbeat_at_str == row.last_heartbeat_at
        &&& a.workflow_run_id == step.workflow_run_id
        &&& a.activity_name == step.activity_name
        &&& a.heartbeat_timeout_secs is Some <==> step.heartbeat_timeout_secs is Some
        &&& step.heartbeat_timeout_secs matches Some(n) ==> a.heartbeat_timeout_secs == Some(
            n as u64,
        )
    }
}

// ---- schedules ------------------------------------------------------------------------------

/// The columns of a schedule: what triggers it, what it starts, and its overlap policy, each in its
/// own place, and the time of insertion.
pub proof fn law_schedule_columns(schedule: ScheduleView, now: Timestamp)
    ensures
        ({
            let row = schedule_record(schedule, now);
            &&& row.schedule_id == schedule.schedule_id
            &&& row.namespace == schedule.namespace
            &&& schedule.spec matches ScheduleSpecView::Cron(list) ==> row.spec_type is Cron
                && row.cron_expressions == Some(json_list_text(list)) && row.interval_seconds is None
            &&& schedule.spec matches ScheduleSpecView::Interval(interval) ==> row.spec_type
                is Interval && row.interval_seconds == Some(interval.secs as i64)
                && row.cron_expressions is None
            &&& schedule.policy is Skip <==> row.overlap_policy is Skip
            &&& schedule.policy is TerminateExisting <==> row.overlap_policy is Terminate
            &&& schedule.policy matches OverlapPolicy::Buffer(n) ==> row.overlap_policy
                == OverlapColumn::Buffer(n)
            &&& row.action_workflow_name == schedule.action.workflow_name
            &&& row.action_task_queue == schedule.action.task_queue
            &&& row.action_args_json == json_object_text(by_key(schedule.action.args))
            &&& row.action_id == Some(schedule.action.id)
            &&& row.timeouts == TimeoutsColumnView::Timeouts(schedule.action.timeouts)
            &&& row.created_at == time_text(now) && row.updated_at == time_text(now)
        }),
{
}

/// A schedule goes to the end of its table where no schedule has its ID, in whatever namespace; else
/// nothing changes.
pub proof fn law_schedule_inserted(s: Store, row: ScheduleRecord)
    ensures
        ({
            let (after, r) = schedule_row_inserted(s, row);
            let n = s.schedules.len() as int;
            &&& r is Ok <==> forall|i: int|
                0 <= i < n ==> (#[trigger] s.schedules[i]).schedule_id != row.schedule_id
            &&& r is Err ==> after == s
            &&& r is Ok ==> after.schedules.len() == n + 1 && after.schedules[n] == row && (forall|
                i: int,
            | 0 <= i < n ==> (#[trigger] after.schedules[i]) == s.schedules[i]) && after.workflows
                == s.workflows && after.steps == s.steps && after.activities == s.activities
                && after.namespaces == s.namespaces
        }),
{
    let id = row.schedule_id;
    if has_key(s.schedules, id) {
        let i = choose|i: int| 0 <= i < s.schedules.len() && (#[trigger] s.schedules[i]).key() == id;
        assert(s.schedules[i].schedule_id == id);
    } else {
        assert forall|i: int| 0 <= i < s.schedules.len() implies (
        #[trigger] s.schedules[i]).schedule_id != id by {
            if s.schedules[i].schedule_id == id {
                assert(s.schedules[i].key() == id);
            }
        }
    }
}

/// Setting a schedule sets everything but its ID, its namespace and its creation, where it is in the
/// namespace, and changes no other schedule.
pub proof fn law_schedule_set(
    s: Store,
    schedule_id: Text,
    namespace: Text,
    schedule: ScheduleView,
    now: Timestamp,
    i: int,
)
    requires
        0 <= i < s.schedules.len(),
    ensures
        ({
            let after = schedule_spec_updated(s, schedule_id, namespace, schedule, now);
            let (a, b) = (s.schedules[i], after.schedules[i]);
            let set = schedule_record(schedule, now);
            &&& after.schedules.len() == s.schedules.len()
            &&& !(a.schedule_id == schedule_id && a.namespace == namespace) ==> b == a
            &&& a.schedule_id == schedule_id && a.namespace == namespace ==> b.spec_type
                == set.spec_type && b.cron_expressions == set.cron_expressions
                && b.interval_seconds == set.interval_seconds && b.overlap_policy
                == set.overlap_policy && b.action_workflow_name == schedule.action.workflow_name
                && b.action_task_queue == schedule.action.task_queue && b.action_args_json
                == set.action_args_json && b.action_id == Some(schedule.action.id) && b.timeouts
                == TimeoutsColumnView::Timeouts(schedule.action.timeouts) && b.updated_at
                == time_text(now)
            &&& b.schedule_id == a.schedule_id && b.namespace == a.namespace && b.created_at
                == a.created_at
            &&& after.workflows == s.workflows && after.steps == s.steps && after.activities
                == s.activities && after.namespaces == s.namespaces
        }),
{
}

/// Deleting takes out the schedule with the ID in the namespace, and no other.
pub proof fn law_schedule_taken_out(s: Store, schedule_id: Text, namespace: Text, row: ScheduleRecord)
    ensures
        schedule_deleted(s, schedule_id, namespace).schedules.contains(row) <==> s.schedules.contains(
            row,
        ) && !(row.schedule_id == schedule_id && row.namespace == namespace),
        schedule_deleted(s, schedule_id, namespace).workflows == s.workflows,
        schedule_deleted(s, schedule_id, namespace).steps == s.steps,
        schedule_deleted(s, schedule_id, namespace).activities == s.activities,
        schedule_deleted(s, schedule_id, namespace).namespaces == s.namespaces,
{
    let test = crate::db::schedules::other_schedule(schedule_id, namespace);
    lemma_filter(s.schedules, test);
    let kept = s.schedules.filter(test);
    if kept.contains(row) {
        let p = choose|p: int| 0 <= p < kept.len() && kept[p] == row;
        assert(test(kept[p]));
    }
    if s.schedules.contains(row) && test(row) {
        let k = choose|k: int| 0 <= k < s.schedules.len() && s.schedules[k] == row;
        assert(test(s.schedules[k]));
    }
}

/// What is read of a schedule is what the columns of its row hold, each in its own place.
pub proof fn law_schedule_read(row: ScheduleRecord)
    ensures
        schedule_in(row) matches Ok(schedule) ==> {
            &&& schedule.schedule_id == row.schedule_id
            &&& schedule.namespace == row.namespace
            &&& row.spec_type is Cron <==> schedule.spec is Cron
            &&& row.spec_type is Cron ==> (row.cron_expressions matches Some(text)
                ==> json_string_list(text) == Ok::<Seq<Text>, Text>(schedule.spec->Cron_0))
            &&& row.spec_type is Cron && row.cron_expressions is None
                ==> schedule.spec->Cron_0.len() == 0
            &&& row.spec_type is Interval ==> (row.interval_seconds matches Some(n)
                ==> schedule.spec->Interval_0.secs == n as u64) && schedule.spec->Interval_0.nanos
                == 0
            &&& row.spec_type is Interval && row.interval_seconds is None
                ==> schedule.spec->Interval_0.secs == 0
            &&& row.overlap_policy is Skip <==> schedule.policy is Skip
            &&& row.overlap_policy is Terminate <==> schedule.policy is TerminateExisting
            &&& row.overlap_policy matches OverlapColumn::Buffer(n) ==> schedule.policy
                == OverlapPolicy::Buffer(n)
            &&& schedule.action.workflow_name == row.action_workflow_name
            &&& schedule.action.task_queue == row.action_task_queue
            &&& row.action_id matches Some(id) ==> schedule.action.id == id
            &&& row.action_id is None ==> schedule.action.id.len() == 0
            &&& row.action_args_json.len() > 0 ==> json_string_map(row.action_args_json) == Ok::<
                Seq<(Text, Text)>,
                Text,
            >(schedule.action.args)
            &&& row.action_args_json.len() == 0 ==> schedule.action.args.len() == 0
            &&& row.timeouts == TimeoutsColumnView::Timeouts(schedule.action.timeouts)
            &&& time_in(row.created_at) == Ok::<Timestamp, Text>(schedule.created_at)
            &&& time_in(row.updated_at) == Ok::<Timestamp, Text>(schedule.updated_at)
        },
        schedule_in(row) is Err <==> {
            ||| row.spec_type is Cron && row.cron_expressions is Some && json_string_list(
                row.cron_expressions->0,
            ) is Err
            ||| row.action_args_json.len() > 0 && json_string_map(row.action_args_json) is Err
            ||| row.timeouts is Malformed
            ||| time_in(row.created_at) is Err
            ||| time_in(row.updated_at) is Err
        },
{
}

/// A schedule is found by its ID, in whatever namespace, as its row has it; nothing is found exactly
/// where no row has the ID.
pub proof fn law_schedule_found(s: Store, schedule_id: Text)
    ensures
        match schedule_found(s, schedule_id) {
            Ok(Some(schedule)) => exists|i: int|
                0 <= i < s.schedules.len() && (#[trigger] s.schedules[i]).schedule_id == schedule_id
                    && schedule_in(s.schedules[i]) == Ok::<ScheduleView, Text>(schedule),
            Ok(None) => forall|i: int|
                0 <= i < s.schedules.len() ==> (#[trigger] s.schedules[i]).schedule_id
                    != schedule_id,
            Err(e) => exists|i: int|
                0 <= i < s.schedules.len() && (#[trigger] s.schedules[i]).schedule_id == schedule_id
                    && schedule_in(s.schedules[i]) == Err::<ScheduleView, Text>(e),
        },
{
    law_found_by_id(s, schedule_id);
    if let Some(row) = with_key(s.schedules, schedule_id) {
        let i = choose|i: int| 0 <= i < s.schedules.len() && s.schedules[i] == row;
        assert(s.schedules[i].schedule_id == schedule_id);
    }
}

/// Schedules are listed in the order of their creation.
pub proof fn law_schedules_listed_in_order(rows: Seq<ScheduleRecord>, namespace: Text, p: int, q: int)
    requires
        0 <= p < q < schedule_rows_listed(rows, namespace).len(),
    ensures
        text_le(
            schedule_rows_listed(rows, namespace)[p].created_at,
            schedule_rows_listed(rows, namespace)[q].created_at,
        ),
        rows.contains(schedule_rows_listed(rows, namespace)[p]),
        schedule_rows_listed(rows, namespace)[p].namespace == namespace,
{
    let test = |row: ScheduleRecord| row.namespace == namespace;
    let picked = rows.filter(test);
    let keys = picked.map_values(|row: ScheduleRecord| Some(row.created_at));
    law_ordered(keys, keys.len(), false);
    let order = ordered(keys, keys.len(), false);
    assert(in_order(keys[order[p]], keys[order[q]], false));
    lemma_filter(rows, test);
    assert(0 <= order[p] < picked.len());
    assert(rows.contains(picked[order[p]]));
}

// ---- lists ----------------------------------------------------------------------------------

/// Of two rows that pass a test and whose columns are in order, or are equal with the first inserted
/// earlier, the first is listed first.
proof fn lemma_listed_before<A>(
    rows: Seq<A>,
    test: spec_fn(A) -> bool,
    column: spec_fn(A) -> Option<Text>,
    falling: bool,
    i: int,
    j: int,
)
    requires
        0 <= i < rows.len(),
        0 <= j < rows.len(),
        i != j,
        test(rows[i]),
        test(rows[j]),
        !in_order(column(rows[j]), column(rows[i]), falling) || (in_order(
            column(rows[i]),
            column(rows[j]),
            falling,
        ) && i < j),
    ensures
        ({
            let picked = rows.filter(test);
            let keys = picked.map_values(column);
            let list = arranged(picked, ordered(keys, keys.len(), falling));
            exists|p: int, q: int|
                0 <= p < q < list.len() && (#[trigger] list[p]) == rows[i] && (#[trigger] list[q])
                    == rows[j]
        }),
{
    let picked = rows.filter(test);
    let keys = picked.map_values(column);
    let order = ordered(keys, keys.len(), falling);
    let list = arranged(picked, order);
    law_ordered(keys, keys.len(), falling);
    let a = lemma_filter_keeps(rows, test, i);
    let b = lemma_filter_keeps(rows, test, j);
    if i < j {
        lemma_filter_grows(rows, test, i, j);
    } else {
        lemma_filter_grows(rows, test, j, i);
    }
    assert(order.contains(a) && order.contains(b));
    let p = choose|p: int| 0 <= p < order.len() && order[p] == a;
    let q = choose|q: int| 0 <= q < order.len() && order[q] == b;
    assert(keys[a] == column(rows[i]) && keys[b] == column(rows[j]));
    if q < p {
        assert(in_order(keys[order[q]], keys[order[p]], falling));
        assert(order[q] < order[p]);
    }
    assert(list[p] == rows[i] && list[q] == rows[j]);
}

/// Rows that differ are not listed twice.
proof fn lemma_listed_once<A>(
    rows: Seq<A>,
    test: spec_fn(A) -> bool,
    column: spec_fn(A) -> Option<Text>,
    falling: bool,
)
    requires
        forall|i: int, j: int| 0 <= i < j < rows.len() ==> #[trigger] rows[i] != #[trigger] rows[j],
    ensures
        ({
            let picked = rows.filter(test);
            let keys = picked.map_values(column);
            let list = arranged(picked, ordered(keys, keys.len(), falling));
            forall|p: int, q: int|
                0 <= p < q < list.len() ==> #[trigger] list[p] != #[trigger] list[q]
        }),
{
    let picked = rows.filter(test);
    let keys = picked.map_values(column);
    let order = ordered(keys, keys.len(), falling);
    let list = arranged(picked, order);
    lemma_filter_apart(rows, test);
    law_ordered(keys, keys.len(), falling);
    assert forall|p: int, q: int| 0 <= p < q < list.len() implies #[trigger] list[p]
        != #[trigger] list[q] by {
        assert(order[p] != order[q]);
        if order[p] < order[q] {
            assert(picked[order[p]] != picked[order[q]]);
        } else {
            assert(picked[order[q]] != picked[order[p]]);
        }
    }
}

/// In consistent tables a list of runs holds none twice, and of two runs that started in the same
/// second the one that was inserted first comes first.
pub proof fn law_runs_listed_once(
    s: Store,
    namespace: Text,
    state: Option<WorkflowState>,
    i: int,
    j: int,
)
    requires
        consistent(s),
    ensures
        ({
            let list = workflow_rows_listed(s.workflows, namespace, state);
            &&& forall|p: int, q: int|
                0 <= p < q < list.len() ==> (#[trigger] list[p]).run_id != (
                #[trigger] list[q]).run_id
            &&& 0 <= i < j < s.workflows.len() && s.workflows[i].started_at
                == s.workflows[j].started_at && list.contains(s.workflows[i]) && list.contains(
                s.workflows[j],
            ) ==> exists|p: int, q: int|
                0 <= p < q < list.len() && (#[trigger] list[p]) == s.workflows[i] && (
                #[trigger] list[q]) == s.workflows[j]
        }),
{
    let rows = s.workflows;
    let test = listed(namespace, state);
    let column = |row: WorkflowRecord| row.started_at;
    let list = workflow_rows_listed(rows, namespace, state);
    assert forall|a: int, b: int| 0 <= a < b < rows.len() implies #[trigger] rows[a]
        != #[trigger] rows[b] by {
        assert(rows[a].key() != rows[b].key());
    }
    lemma_listed_once(rows, test, column, true);
    assert forall|p: int, q: int| 0 <= p < q < list.len() implies (#[trigger] list[p]).run_id != (
    #[trigger] list[q]).run_id by {
        law_workflows_by_namespace(rows, namespace, state, list[p]);
        law_workflows_by_namespace(rows, namespace, state, list[q]);
        assert(list.contains(list[p]) && list.contains(list[q]));
        let a = choose|a: int| 0 <= a < rows.len() && rows[a] == list[p];
        let b = choose|b: int| 0 <= b < rows.len() && rows[b] == list[q];
        assert(list[p] != list[q]);
        if a < b {
            assert(rows[a].key() != rows[b].key());
        } else {
            assert(rows[b].key() != rows[a].key());
        }
    }
    if 0 <= i < j < rows.len() && rows[i].started_at == rows[j].started_at && list.contains(rows[i])
        && list.contains(rows[j]) {
        law_workflows_by_namespace(rows, namespace, state, rows[i]);
        law_workflows_by_namespace(rows, namespace, state, rows[j]);
        lemma_column_order(rows[i].started_at, rows[j].started_at, rows[j].started_at);
        lemma_listed_before(rows, test, column, true, i, j);
    }
}

/// In consistent tables a list of schedules holds none twice, and of two schedules that were created
/// in the same second the one that was inserted first comes first.
pub proof fn law_schedules_listed_once(s: Store, namespace: Text, i: int, j: int)
    requires
        consistent(s),
    ensures
        ({
            let list = schedule_rows_listed(s.schedules, namespace);
            &&& forall|p: int, q: int|
                0 <= p < q < list.len() ==> (#[trigger] list[p]).schedule_id != (
                #[trigger] list[q]).schedule_id
            &&& 0 <= i < j < s.schedules.len() && s.schedules[i].created_at
                == s.schedules[j].created_at && list.contains(s.schedules[i]) && list.contains(
                s.schedules[j],
            ) ==> exists|p: int, q: int|
                0 <= p < q < list.len() && (#[trigger] list[p]) == s.schedules[i] && (
                #[trigger] list[q]) == s.schedules[j]
        }),
{
    let rows = s.schedules;
    let test = |row: ScheduleRecord| row.namespace == namespace;
    let column = |row: ScheduleRecord| Some(row.created_at);
    let list = schedule_rows_listed(rows, namespace);
    assert forall|a: int, b: int| 0 <= a < b < rows.len() implies #[trigger] rows[a]
        != #[trigger] rows[b] by {
        assert(rows[a].key() != rows[b].key());
    }
    lemma_listed_once(rows, test, column, false);
    assert forall|p: int, q: int| 0 <= p < q < list.len() implies (#[trigger] list[p]).schedule_id
        != (#[trigger] list[q]).schedule_id by {
        law_schedules_by_namespace(rows, namespace, list[p]);
        law_schedules_by_namespace(rows, namespace, list[q]);
        assert(list.contains(list[p]) && list.contains(list[q]));
        let a = choose|a: int| 0 <= a < rows.len() && rows[a] == list[p];
        let b = choose|b: int| 0 <= b < rows.len() && rows[b] == list[q];
        assert(list[p] != list[q]);
        if a < b {
            assert(rows[a].key() != rows[b].key());
        } else {
            assert(rows[b].key() != rows[a].key());
        }
    }
    if 0 <= i < j < rows.len() && rows[i].created_at == rows[j].created_at && list.contains(rows[i])
        && list.contains(rows[j]) {
        law_schedules_by_namespace(rows, namespace, rows[i]);
        law_schedules_by_namespace(rows, namespace, rows[j]);
        lemma_column_order(
            Some(rows[i].created_at),
            Some(rows[j].created_at),
            Some(rows[j].created_at),
        );
        lemma_listed_before(rows, test, column, false, i, j);
    }
}

} // verus!
