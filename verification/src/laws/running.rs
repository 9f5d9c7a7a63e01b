//! Runs, steps and attempts: what handing out, failing, completing and cancelling come to.

use vstd::prelude::*;
use crate::activity::{ActivityState, RetryPolicy};
use crate::clock::{between, plus_seconds, time_in, time_text, Timestamp};
use crate::db::activities::{activity_state_updated, attempt_record, attempt_set, beaten, heartbeat_updated, law_lowest_waiting, ready, ready_rows, running_with_step, step_in, step_set, waiting, RunningActivityView};
use crate::db::order::{law_ordered, lemma_arranged, lemma_filter, ordered};
use crate::db::rows::{consistent, lemma_changed_keeps_keys, lemma_first_with_key, lemma_with_key, lemma_with_key_changed, lemma_with_key_push, unique_keys, with_key, ActivityRecord, Keyed, StepRecord, Store, WorkflowRecord};
use crate::db::workflows::{active_run, cancelled, state_set, time_column, workflow_cancelled};
use crate::engine::{all_completed, completed_before, deadline_ahead, has_steps, heartbeat_timed_out, heartbeats_checked, none_waits, outlook, policy_of, silent_too_long, some_failed, started, workflow_processed, workflow_started, Outlook, TimerView};
use crate::ids::uuid_text;
use crate::retry::{attempt_failed, next_retry, retries};
use crate::service::temporal;
use crate::service::worker::{activity_completed, activity_polled, handed_out, lemma_step_chosen, step_wanted, task_for};
use crate::text::{lemma_text_lt, text_le, text_lt, Text};
use crate::workflow::{WorkflowState, WorkflowStepInstanceView};

verus! {

// ---- handing out ----------------------------------------------------------------------------

/// A step that was handed out runs as its next attempt, which is recorded. Its run is running where
/// it was pending, with its time of start, and stays as it is otherwise.
pub proof fn law_handed_out_step_runs(
    s: Store,
    step: WorkflowStepInstanceView,
    activity_id: u128,
    now: Timestamp,
)
    requires
        handed_out(s, step, activity_id, now).1 is Ok,
        step.attempt < u32::MAX,
    ensures
        ({
            let after = handed_out(s, step, activity_id, now).0;
            &&& with_key(after.steps, uuid_text(step.id)) matches Some(row) && row.state is Running
                && row.attempt == step.attempt + 1 && row.next_retry_at is None
            &&& with_key(after.activities, uuid_text(activity_id)) == Some(
                attempt_record(
                    uuid_text(activity_id),
                    uuid_text(step.id),
                    (step.attempt + 1) as u32,
                    now,
                ),
            )
            &&& with_key(after.workflows, uuid_text(step.workflow_run_id)) == match with_key(
                s.workflows,
                uuid_text(step.workflow_run_id),
            ) {
                Some(run) => Some(started(run, time_text(now))),
                None => None,
            }
        }),
{
    let attempt = (step.attempt + 1) as u32;
    let id = uuid_text(step.id);
    let change = |row: StepRecord|
        step_set(row, ActivityState::Running, Some(attempt), None, time_column(None));
    lemma_with_key_changed(s.steps, id, change, id);
    lemma_changed_keeps_keys(s.steps, id, change);
    lemma_with_key(s.steps, id);
    let record = attempt_record(uuid_text(activity_id), id, attempt, now);
    lemma_with_key_push(s.activities, record, record.id);
    let run_id = uuid_text(step.workflow_run_id);
    lemma_with_key_changed(
        s.workflows,
        run_id,
        |row: WorkflowRecord| started(row, time_text(now)),
        run_id,
    );
}

/// Activities are executed in order: the step that a poll hands out is ready, and all steps of its
/// run before it are completed.
pub proof fn law_polled_in_order(
    s: Store,
    queue: Text,
    types: Seq<Text>,
    activity_id: u128,
    now: Timestamp,
)
    ensures
        activity_polled(s, queue, types, activity_id, now).1 matches Ok(Some(task)) ==> exists|i: int|
            {
                &&& 0 <= i < s.steps.len()
                &&& step_in(#[trigger] s.steps[i]) matches Ok(step) && task == task_for(
                    step,
                    activity_id,
                )
                &&& ready(s.steps[i], time_text(now))
                &&& completed_before(s.steps, s.steps[i].workflow_run_id, s.steps[i].step_index)
            },
{
    let i = lemma_step_chosen(
        s,
        now,
        |row: StepRecord, step: WorkflowStepInstanceView| step_wanted(s, row, step, queue, types),
    );
}

/// Activities are executed in order: the step that a poll of a task queue hands out is ready, and
/// all steps of its run before it are completed.
pub proof fn law_queue_polled_in_order(s: Store, queue: Text, activity_id: u128, now: Timestamp)
    ensures
        temporal::queue_polled(s, queue, activity_id, now).1 matches Ok(Some(task)) ==> exists|i: int|
            {
                &&& 0 <= i < s.steps.len()
                &&& step_in(#[trigger] s.steps[i]) matches Ok(step) && task
                    == temporal::queued_task(
                    step,
                    activity_id,
                    temporal::namespace_of(
                        temporal::queue_polled(s, queue, activity_id, now).0.workflows,
                        uuid_text(step.workflow_run_id),
                    ),
                )
                &&& ready(s.steps[i], time_text(now))
                &&& completed_before(s.steps, s.steps[i].workflow_run_id, s.steps[i].step_index)
            },
{
    let i = lemma_step_chosen(
        s,
        now,
        |row: StepRecord, step: WorkflowStepInstanceView|
            temporal::step_wanted(s, row, step, queue),
    );
}

/// Handing out a step starts its run where that is pending; every run that is not, a cancelled one
/// among them, stays as it is, and so does every run of another step.
pub proof fn law_handing_out_starts_pending(
    s: Store,
    step: WorkflowStepInstanceView,
    activity_id: u128,
    now: Timestamp,
    run_id: Text,
)
    ensures
        with_key(s.workflows, run_id) matches Some(run) ==> (!(run.state is Pending) || run_id
            != uuid_text(step.workflow_run_id) ==> with_key(
            handed_out(s, step, activity_id, now).0.workflows,
            run_id,
        ) == Some(run)),
{
    lemma_with_key_changed(
        s.workflows,
        uuid_text(step.workflow_run_id),
        |row: WorkflowRecord| started(row, time_text(now)),
        run_id,
    );
}

/// A step that was handed out is not ready again, at whatever time: nothing is handed out twice.
pub proof fn law_handed_out_once(
    s: Store,
    step: WorkflowStepInstanceView,
    activity_id: u128,
    now: Timestamp,
    later: Timestamp,
)
    requires
        consistent(s),
        handed_out(s, step, activity_id, now).1 is Ok,
        step.attempt < u32::MAX,
    ensures
        forall|i: int|
            0 <= i < ready_rows(handed_out(s, step, activity_id, now).0.steps, later).len()
                ==> (#[trigger] ready_rows(
                handed_out(s, step, activity_id, now).0.steps,
                later,
            )[i]).id != uuid_text(step.id),
{
    let after = handed_out(s, step, activity_id, now).0;
    law_handed_out_step_runs(s, step, activity_id, now);
    crate::laws::tables::law_handed_out(s, step, activity_id, now);
    let list = ready_rows(after.steps, later);
    assert forall|i: int| 0 <= i < list.len() implies (#[trigger] list[i]).id != uuid_text(
        step.id,
    ) by {
        lemma_ready_row(after.steps, later, i);
        let k = choose|k: int| 0 <= k < after.steps.len() && after.steps[k] == list[i];
        if list[i].id == uuid_text(step.id) {
            lemma_unique_with_key(after.steps, k);
        }
    }
}

/// With unique keys every row is the one that is found under its key.
proof fn lemma_unique_with_key<R: Keyed>(rows: Seq<R>, k: int)
    requires
        unique_keys(rows),
        0 <= k < rows.len(),
    ensures
        with_key(rows, rows[k].key()) == Some(rows[k]),
{
    lemma_first_with_key(rows, rows[k].key(), k);
}

/// Every step among those that are ready is a row of the table, and ready.
pub(crate) proof fn lemma_ready_row(rows: Seq<StepRecord>, now: Timestamp, i: int)
    requires
        0 <= i < ready_rows(rows, now).len(),
    ensures
        rows.contains(ready_rows(rows, now)[i]),
        ready(ready_rows(rows, now)[i], time_text(now)),
{
    let test = |row: StepRecord| ready(row, time_text(now));
    let picked = rows.filter(test);
    let keys = picked.map_values(|row: StepRecord| Some(row.created_at));
    lemma_filter(rows, test);
    lemma_arranged(picked, keys, false);
    assert(ready_rows(rows, now).contains(ready_rows(rows, now)[i]));
    let p = choose|p: int| 0 <= p < picked.len() && picked[p] == ready_rows(rows, now)[i];
    assert(rows.contains(picked[p]));
}

/// The steps that are handed out are ready, and every step that is ready is among them.
pub proof fn law_ready_rows(rows: Seq<StepRecord>, now: Timestamp)
    ensures
        forall|i: int|
            0 <= i < ready_rows(rows, now).len() ==> rows.contains(
                #[trigger] ready_rows(rows, now)[i],
            ) && ready(ready_rows(rows, now)[i], time_text(now)),
        forall|k: int|
            0 <= k < rows.len() && ready(#[trigger] rows[k], time_text(now)) ==> ready_rows(
                rows,
                now,
            ).contains(rows[k]),
{
    assert forall|i: int| 0 <= i < ready_rows(rows, now).len() implies rows.contains(
        #[trigger] ready_rows(rows, now)[i],
    ) && ready(ready_rows(rows, now)[i], time_text(now)) by {
        lemma_ready_row(rows, now, i);
    }
    let test = |row: StepRecord| ready(row, time_text(now));
    let picked = rows.filter(test);
    let keys = picked.map_values(|row: StepRecord| Some(row.created_at));
    law_ordered(keys, keys.len(), false);
    let order = ordered(keys, keys.len(), false);
    assert forall|k: int| 0 <= k < rows.len() && ready(
        #[trigger] rows[k],
        time_text(now),
    ) implies ready_rows(rows, now).contains(rows[k]) by {
        let p = lemma_filter_keeps(rows, test, k);
        assert(order.contains(p));
        let q = choose|q: int| 0 <= q < order.len() && order[q] == p;
        assert(ready_rows(rows, now)[q] == picked[p]);
    }
}

/// What passes the test of a filter is kept.
pub(crate) proof fn lemma_filter_keeps<A>(rows: Seq<A>, test: spec_fn(A) -> bool, k: int) -> (p: int)
    requires
        0 <= k < rows.len(),
        test(rows[k]),
    ensures
        0 <= p < rows.filter(test).len(),
        rows.filter(test)[p] == rows[k],
        p == rows.take(k).filter(test).len(),
    decreases rows.len(),
{
    reveal(Seq::filter);
    let front = rows.drop_last();
    if k == rows.len() - 1 {
        assert(rows.take(k) =~= front);
        front.filter(test).len() as int
    } else {
        assert(front[k] == rows[k]);
        assert(front.take(k) =~= rows.take(k));
        lemma_filter_keeps(front, test, k)
    }
}

/// More rows, more that a filter keeps.
pub(crate) proof fn lemma_filter_grows<A>(rows: Seq<A>, test: spec_fn(A) -> bool, i: int, j: int)
    requires
        0 <= i < j <= rows.len(),
        test(rows[i]),
    ensures
        rows.take(i).filter(test).len() < rows.take(j).filter(test).len(),
    decreases j,
{
    reveal(Seq::filter);
    assert(rows.take(j).drop_last() =~= rows.take(j - 1));
    assert(rows.take(j).last() == rows[j - 1]);
    if j - 1 > i {
        lemma_filter_grows(rows, test, i, j - 1);
    }
}

/// Ready steps are listed, and so handed out, in the order in which they were created; of two that
/// were created in one second, as the steps of one run are, the one that was inserted first comes
/// first.
pub proof fn law_ready_in_order(rows: Seq<StepRecord>, now: Timestamp, i: int, j: int)
    requires
        0 <= i < rows.len(),
        0 <= j < rows.len(),
        ready(rows[i], time_text(now)),
        ready(rows[j], time_text(now)),
        text_lt(rows[i].created_at, rows[j].created_at) || (rows[i].created_at
            == rows[j].created_at && i < j),
    ensures
        exists|p: int, q: int|
            0 <= p < q < ready_rows(rows, now).len() && (#[trigger] ready_rows(rows, now)[p])
                == rows[i] && (#[trigger] ready_rows(rows, now)[q]) == rows[j],
{
    let test = |row: StepRecord| ready(row, time_text(now));
    let picked = rows.filter(test);
    let keys = picked.map_values(|row: StepRecord| Some(row.created_at));
    let order = ordered(keys, keys.len(), false);
    law_ordered(keys, keys.len(), false);
    let a = lemma_filter_keeps(rows, test, i);
    let b = lemma_filter_keeps(rows, test, j);
    if i < j {
        lemma_filter_grows(rows, test, i, j);
    }
    assert(order.contains(a) && order.contains(b));
    let p = choose|p: int| 0 <= p < order.len() && order[p] == a;
    let q = choose|q: int| 0 <= q < order.len() && order[q] == b;
    let (x, y) = (rows[i].created_at, rows[j].created_at);
    assert(keys[a] == Some(x) && keys[b] == Some(y));
    crate::db::order::lemma_column_order(keys[a], keys[b], keys[b]);
    lemma_text_lt(x, y, y);
    assert(p < q) by {
        if q < p {
            assert(crate::db::order::in_order(keys[order[q]], keys[order[p]], false));
            assert(text_le(y, x));
            assert(order[q] < order[p]);
        }
    }
    assert(ready_rows(rows, now)[p] == rows[i]);
    assert(ready_rows(rows, now)[q] == rows[j]);
}

// ---- failing --------------------------------------------------------------------------------

/// A failed attempt is marked with its error. Its step waits for the next attempt, whose number is
/// within the limit of the policy; or it fails where that limit is reached, and is then never
/// ready again.
pub proof fn law_attempts_are_limited(
    s: Store,
    activity_id: Text,
    step_id: Text,
    attempt: u32,
    policy: RetryPolicy,
    error: Text,
    now: Timestamp,
)
    ensures
        ({
            let after = attempt_failed(s, activity_id, step_id, attempt, policy, error, now);
            &&& with_key(after.activities, activity_id) matches Some(a) ==> a.state is Failed
                && a.error_message == Some(error) && a.completed_at == Some(time_text(now))
            &&& with_key(after.steps, step_id) matches Some(step) ==> step.attempt == attempt
                && if retries(policy, attempt) {
                step.state is Pending && step.attempt + 1 <= policy.maximum_attempts
                    && step.next_retry_at == time_column(next_retry(policy, attempt, now))
            } else {
                step.state is Failed && forall|clock: Text| !#[trigger] ready(step, clock)
            }
        }),
{
    let marked = activity_state_updated(
        s,
        activity_id,
        ActivityState::Failed,
        None,
        Some(error),
        now,
    ).0;
    lemma_with_key_changed(
        s.activities,
        activity_id,
        |row: ActivityRecord|
            attempt_set(row, ActivityState::Failed, None, Some(error), time_text(now)),
        activity_id,
    );
    let state = if retries(policy, attempt) {
        ActivityState::Pending
    } else {
        ActivityState::Failed
    };
    let at = time_column(next_retry(policy, attempt, now));
    lemma_with_key_changed(
        s.steps,
        step_id,
        |row: StepRecord| step_set(row, state, Some(attempt), None, at),
        step_id,
    );
}

// ---- completing -----------------------------------------------------------------------------

/// An activity whose result was taken is completed with it, and so is its step, which is never
/// ready again.
pub proof fn law_result_completes_step(s: Store, activity_id: Text, result: Text, now: Timestamp)
    requires
        activity_completed(s, activity_id, result, now).1 is Ok,
    ensures
        ({
            let (after, r) = activity_completed(s, activity_id, result, now);
            &&& with_key(after.activities, activity_id) matches Some(a) && a.state is Completed
                && a.result_json == Some(result)
            &&& with_key(after.activities, activity_id) matches Some(a) && with_key(
                after.steps,
                a.step_id,
            ) matches Some(step) && step.state is Completed && step.result_json == Some(result)
                && step.workflow_run_id == r->Ok_0 && forall|clock: Text|
                !#[trigger] ready(step, clock)
        }),
{
    let marked = activity_state_updated(
        s,
        activity_id,
        ActivityState::Completed,
        Some(result),
        None,
        now,
    ).0;
    lemma_with_key_changed(
        s.activities,
        activity_id,
        |row: ActivityRecord|
            attempt_set(row, ActivityState::Completed, Some(result), None, time_text(now)),
        activity_id,
    );
    if let Some(row) = with_key(marked.activities, activity_id) {
        lemma_with_key_changed(
            marked.steps,
            row.step_id,
            |step: StepRecord|
                step_set(step, ActivityState::Completed, None, Some(result), time_column(None)),
            row.step_id,
        );
    }
}

/// A run has ended well exactly where it has steps and all are completed; it has failed exactly
/// where a step failed and none waits.
pub proof fn law_completed_outlook(rows: Seq<StepRecord>, run_id: Text)
    ensures
        outlook(rows, run_id) is Completed <==> has_steps(rows, run_id) && all_completed(
            rows,
            run_id,
        ),
        outlook(rows, run_id) is Failed <==> some_failed(rows, run_id) && none_waits(rows, run_id),
        outlook(rows, run_id) matches Outlook::Ready(index) ==> completed_before(
            rows,
            run_id,
            index,
        ),
{
    law_lowest_waiting(rows, run_id);
    if has_steps(rows, run_id) && all_completed(rows, run_id) {
        assert forall|i: int| 0 <= i < rows.len() implies !waiting(#[trigger] rows[i], run_id) by {
            if rows[i].workflow_run_id == run_id {
                assert(rows[i].state is Completed);
            }
        }
        assert(!some_failed(rows, run_id)) by {
            if some_failed(rows, run_id) {
                let i = choose|i: int|
                    0 <= i < rows.len() && (#[trigger] rows[i]).workflow_run_id == run_id
                        && rows[i].state is Failed;
                assert(rows[i].state is Completed);
            }
        }
    }
    if some_failed(rows, run_id) {
        let i = choose|i: int|
            0 <= i < rows.len() && (#[trigger] rows[i]).workflow_run_id == run_id && rows[i].state
                is Failed;
        assert(has_steps(rows, run_id));
    }
}

/// When a run is looked at whose steps are all completed, it is completed; where a step failed and
/// none waits, it has failed; otherwise a pending run is started, and any other stays as it is. A
/// time of start that is there stays.
pub proof fn law_run_follows_its_steps(s: Store, run_id: Text, now: Timestamp)
    ensures
        match (with_key(s.workflows, run_id), with_key(
            workflow_processed(s, run_id, now).workflows,
            run_id,
        )) {
            (None, None) => true,
            (Some(before), Some(after)) => match outlook(s.steps, run_id) {
                Outlook::Completed => after == state_set(
                    started(before, time_text(now)),
                    WorkflowState::Completed,
                    None,
                    Some(time_text(now)),
                ),
                Outlook::Failed => after == state_set(
                    started(before, time_text(now)),
                    WorkflowState::Failed,
                    None,
                    Some(time_text(now)),
                ),
                _ => after == started(before, time_text(now)),
            },
            _ => false,
        },
        workflow_processed(s, run_id, now).steps == s.steps,
{
    lemma_with_key_changed(
        s.workflows,
        run_id,
        |row: WorkflowRecord| started(row, time_text(now)),
        run_id,
    );
    let open = workflow_started(s, run_id, now);
    lemma_with_key_changed(
        open.workflows,
        run_id,
        |row: WorkflowRecord|
            state_set(row, WorkflowState::Failed, None, time_column(Some(now))),
        run_id,
    );
    lemma_with_key_changed(
        open.workflows,
        run_id,
        |row: WorkflowRecord|
            state_set(row, WorkflowState::Completed, None, time_column(Some(now))),
        run_id,
    );
}

/// Looking at a run leaves every other run as it is.
pub proof fn law_other_runs_stay(s: Store, run_id: Text, now: Timestamp, other: Text)
    requires
        other != run_id,
    ensures
        with_key(workflow_processed(s, run_id, now).workflows, other) == with_key(
            s.workflows,
            other,
        ),
{
    lemma_with_key_changed(
        s.workflows,
        run_id,
        |row: WorkflowRecord| started(row, time_text(now)),
        other,
    );
    let open = workflow_started(s, run_id, now);
    lemma_with_key_changed(
        open.workflows,
        run_id,
        |row: WorkflowRecord|
            state_set(row, WorkflowState::Failed, None, time_column(Some(now))),
        other,
    );
    lemma_with_key_changed(
        open.workflows,
        run_id,
        |row: WorkflowRecord|
            state_set(row, WorkflowState::Completed, None, time_column(Some(now))),
        other,
    );
}

// ---- cancelling -----------------------------------------------------------------------------

/// A run is cancelled exactly where it is there and has not ended; then it cannot be cancelled
/// again. Every other run stays as it is.
pub proof fn law_cancelled_once(s: Store, run_id: Text, now: Timestamp, later: Timestamp, other: Text)
    requires
        consistent(s),
    ensures
        workflow_cancelled(s, run_id, now).1 is Ok <==> (with_key(s.workflows, run_id) matches Some(
            row,
        ) && row.state.active()),
        workflow_cancelled(s, run_id, now).1 is Ok ==> (with_key(
            workflow_cancelled(s, run_id, now).0.workflows,
            run_id,
        ) matches Some(row) && row.state is Cancelled && row.completed_at == Some(time_text(now))),
        workflow_cancelled(workflow_cancelled(s, run_id, now).0, run_id, later) == (
            workflow_cancelled(s, run_id, now).0,
            Err::<(), Text>("Workflow not found or already in terminal state"@),
        ),
        other != run_id ==> with_key(workflow_cancelled(s, run_id, now).0.workflows, other)
            == with_key(s.workflows, other),
{
    let change = |row: WorkflowRecord| cancelled(row, time_text(now));
    lemma_with_key_changed(s.workflows, run_id, change, run_id);
    lemma_with_key_changed(s.workflows, run_id, change, other);
    let after = workflow_cancelled(s, run_id, now).0;
    lemma_with_key(s.workflows, run_id);
    if active_run(s.workflows, run_id) {
        let i = choose|i: int|
            0 <= i < s.workflows.len() && (#[trigger] s.workflows[i]).run_id == run_id
                && s.workflows[i].state.active();
        lemma_unique_with_key(s.workflows, i);
    }
    if let Some(row) = with_key(s.workflows, run_id) {
        if row.state.active() {
            let i = choose|i: int| 0 <= i < s.workflows.len() && s.workflows[i] == row;
            assert(s.workflows[i].run_id == run_id);
            assert(active_run(s.workflows, run_id));
        }
    }
    assert(!active_run(after.workflows, run_id)) by {
        if active_run(after.workflows, run_id) {
            let i = choose|i: int|
                0 <= i < after.workflows.len() && (#[trigger] after.workflows[i]).run_id == run_id
                    && after.workflows[i].state.active();
            if active_run(s.workflows, run_id) {
                assert(s.workflows[i].key() == run_id);
                assert(after.workflows[i] == cancelled(s.workflows[i], time_text(now)));
            }
        }
    }
}

// ---- heartbeats -----------------------------------------------------------------------------

/// After a heartbeat the silence of an attempt is counted from the second of the heartbeat, where
/// that reads back from its text: the attempt is not taken as silent until its timeout has passed
/// since, and a timer that fires before that leaves the tables as they are and is set again for the
/// new deadline.
pub proof fn law_heartbeat_keeps_alive(s: Store, id: Text, now: Timestamp, later: Timestamp, step: StepRecord)
    requires
        heartbeat_updated(s, id, now).1 is Ok,
        consistent(s),
        time_in(time_text(now)) == Ok::<Timestamp, Text>(now.whole_second()),
    ensures
        with_key(heartbeat_updated(s, id, now).0.activities, id) matches Some(row) && row.state
            is Running && silent_too_long(running_with_step(row, step), later) == Ok::<bool, Text>(
            match step.heartbeat_timeout_secs {
                Some(timeout) => between(later, now.whole_second()).0 > (timeout as u64) as i64,
                None => false,
            },
        ) && (with_key(s.steps, row.step_id) == Some(step) ==> (
        step.heartbeat_timeout_secs matches Some(timeout) ==> (plus_seconds(
            now.whole_second(),
            timeout as int,
        ) matches Some(deadline) ==> (deadline.after(later) ==> heartbeat_timed_out(
            heartbeat_updated(s, id, now).0,
            id,
            later,
        ) == (
            heartbeat_updated(s, id, now).0,
            Ok::<Seq<TimerView>, Text>(seq![TimerView::Heartbeat { activity_id: id, at: deadline }]),
        ))))),
{
    lemma_with_key_changed(
        s.activities,
        id,
        |row: ActivityRecord| beaten(row, time_text(now)),
        id,
    );
    let i = choose|i: int|
        0 <= i < s.activities.len() && (#[trigger] s.activities[i]).id == id && s.activities[i].state
            is Running;
    lemma_unique_with_key(s.activities, i);
}

/// A look at the running attempts fails each that has been silent for too long, and no other.
pub proof fn law_stalled_attempts_fail(
    s: Store,
    list: Seq<RunningActivityView>,
    now: Timestamp,
    i: int,
    other: Text,
)
    requires
        heartbeats_checked(s, list, now).1 is Ok,
        0 <= i < list.len(),
    ensures
        silent_too_long(list[i], now) == Ok::<bool, Text>(true) ==> (with_key(
            heartbeats_checked(s, list, now).0.activities,
            list[i].id,
        ) matches Some(row) ==> row.state is Failed && row.error_message == Some(
            "Heartbeat timeout"@,
        )),
        (forall|j: int|
            0 <= j < list.len() && silent_too_long(#[trigger] list[j], now) == Ok::<bool, Text>(
                true,
            ) ==> list[j].id != other) ==> with_key(
            heartbeats_checked(s, list, now).0.activities,
            other,
        ) == with_key(s.activities, other),
    decreases list.len(),
{
    let front = list.drop_last();
    let before = heartbeats_checked(s, front, now).0;
    let a = list.last();
    let policy = policy_of(before.steps, a.step_id);
    if front.len() > 0 {
        let k = if i < front.len() {
            i
        } else {
            0
        };
        law_stalled_attempts_fail(s, front, now, k, other);
        if forall|j: int|
            0 <= j < list.len() && silent_too_long(#[trigger] list[j], now) == Ok::<bool, Text>(
                true,
            ) ==> list[j].id != other {
            assert forall|j: int|
                0 <= j < front.len() && silent_too_long(#[trigger] front[j], now) == Ok::<
                    bool,
                    Text,
                >(true) implies front[j].id != other by {
                assert(front[j] == list[j]);
            }
        }
    }
    assert(list[list.len() - 1] == a);
    let change = |row: ActivityRecord|
        attempt_set(row, ActivityState::Failed, None, Some("Heartbeat timeout"@), time_text(now));
    lemma_with_key_changed(before.activities, a.id, change, list[i].id);
    lemma_with_key_changed(before.activities, a.id, change, other);
    law_attempts_are_limited(
        before,
        a.id,
        a.step_id,
        a.attempt,
        policy,
        "Heartbeat timeout"@,
        now,
    );
}

/// A heartbeat timeout fails a running attempt, unless a heartbeat has moved its deadline ahead;
/// it changes no other attempt.
pub proof fn law_timeout_fails(s: Store, id: Text, now: Timestamp, other: Text)
    ensures
        ({
            let after = heartbeat_timed_out(s, id, now).0;
            &&& with_key(s.activities, id) matches Some(row) ==> row.state is Running
                && deadline_ahead(row, s.steps, now) is None ==> (with_key(
                after.activities,
                id,
            ) matches Some(row) && row.state is Failed && row.error_message == Some(
                "Heartbeat timeout"@,
            ))
            &&& other != id ==> with_key(after.activities, other) == with_key(s.activities, other)
        }),
{
    let change = |row: ActivityRecord|
        attempt_set(row, ActivityState::Failed, None, Some("Heartbeat timeout"@), time_text(now));
    lemma_with_key_changed(s.activities, id, change, id);
    lemma_with_key_changed(s.activities, id, change, other);
}

} // verus!
