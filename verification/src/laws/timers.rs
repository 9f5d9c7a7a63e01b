//! What looking at a run comes to, and which timers are set, in terms of the rows.

use vstd::prelude::*;
use crate::activity::ActivityState;
use crate::clock::{between, nanos_between, plus_seconds, time_in, time_text, Timestamp, MAX_SECS, MIN_SECS};
use crate::db::activities::{law_lowest_waiting, lowest_waiting, next_step_found, running_activities, step_in, step_set, RunningActivityView};
use crate::db::order::{in_order, law_ordered, lemma_arranged, lemma_filter, ordered};
use crate::db::rows::{consistent, lemma_with_key_changed, with_key, ActivityRecord, Keyed, PolicyColumnView, StepRecord, Store, WorkflowRecord};
use crate::engine::{active_rows, all_advanced, all_completed, attempt_in, completed_before, deadline_ahead, event_handled, event_outcome, has_steps, heartbeat_timed_out, heartbeat_timers, heartbeats_checked, heartbeats_outcome, outlook, policy_of, retries_checked, retry_due, retry_timers, silent_too_long, some_failed, workflow_processed, workflow_started, workflow_timers, workflows_advanced, EngineEventView, Outlook, TimerView};
use crate::db::workflows::time_column;
use crate::laws::rows::law_run_state_set;
use crate::retry::attempt_failed;
use crate::laws::polling::law_attempt_failed;
use crate::text::{text_le, Text};
use crate::workflow::{WorkflowState, WorkflowStepInstanceView};

verus! {

// ---- looking at a run -----------------------------------------------------------------------

/// A step of the run in row `i`.
pub open spec fn step_of(rows: Seq<StepRecord>, run_id: Text, i: int) -> bool {
    0 <= i < rows.len() && rows[i].workflow_run_id == run_id
}

/// A step in row `i` that waits: it is pending, or marked for a retry.
pub open spec fn waits_at(rows: Seq<StepRecord>, run_id: Text, i: int) -> bool {
    step_of(rows, run_id, i) && (rows[i].state is Pending || rows[i].state is Retried)
}

/// The outlook of a run: completed where it has steps and all are completed; failed where one failed
/// and none waits; else the lowest step that waits is next, and ready exactly where all steps before
/// it are completed.
pub proof fn law_outlook(rows: Seq<StepRecord>, run_id: Text)
    ensures
        outlook(rows, run_id) is Completed <==> {
            &&& exists|i: int| #[trigger] step_of(rows, run_id, i)
            &&& forall|i: int| #[trigger] step_of(rows, run_id, i) ==> rows[i].state is Completed
        },
        outlook(rows, run_id) is Failed <==> {
            &&& exists|i: int| #[trigger] step_of(rows, run_id, i) && rows[i].state is Failed
            &&& forall|i: int| !#[trigger] waits_at(rows, run_id, i)
        },
        outlook(rows, run_id) is Ready || outlook(rows, run_id) is Waiting <==> exists|i: int|
            #[trigger] waits_at(rows, run_id, i),
        outlook(rows, run_id) matches Outlook::Ready(index) ==> {
            &&& exists|i: int| #[trigger] waits_at(rows, run_id, i) && rows[i].step_index == index
            &&& forall|i: int| #[trigger] waits_at(rows, run_id, i) ==> index <= rows[i].step_index
            &&& forall|i: int| #[trigger]
                step_of(rows, run_id, i) && rows[i].step_index < index ==> rows[i].state
                    is Completed
        },
        outlook(rows, run_id) matches Outlook::Waiting(index) ==> {
            &&& exists|i: int| #[trigger] waits_at(rows, run_id, i) && rows[i].step_index == index
            &&& forall|i: int| #[trigger] waits_at(rows, run_id, i) ==> index <= rows[i].step_index
            &&& exists|i: int| #[trigger]
                step_of(rows, run_id, i) && rows[i].step_index < index && !(rows[i].state
                    is Completed)
        },
{
    law_lowest_waiting(rows, run_id);
    if let Some(p) = lowest_waiting(rows, run_id) {
        assert(waits_at(rows, run_id, p));
        assert(step_of(rows, run_id, p));
        if !completed_before(rows, run_id, rows[p].step_index) {
            let j = choose|j: int|
                0 <= j < rows.len() && (#[trigger] rows[j]).workflow_run_id == run_id
                    && rows[j].step_index < rows[p].step_index && !(rows[j].state is Completed);
            assert(step_of(rows, run_id, j));
        }
        if some_failed(rows, run_id) {
            assert(waits_at(rows, run_id, p));
        }
        if outlook(rows, run_id) is Ready {
            assert forall|i: int| #[trigger]
                step_of(rows, run_id, i) && rows[i].step_index
                    < rows[p].step_index implies rows[i].state is Completed by {
                assert(rows[i].workflow_run_id == run_id);
            }
        }
        assert forall|i: int| #[trigger] waits_at(rows, run_id, i) implies rows[p].step_index
            <= rows[i].step_index by {
            assert(crate::db::activities::waiting(rows[i], run_id));
        }
    } else {
        assert forall|i: int| !#[trigger] waits_at(rows, run_id, i) by {
            if waits_at(rows, run_id, i) {
                assert(crate::db::activities::waiting(rows[i], run_id));
            }
        }
        if has_steps(rows, run_id) {
            let i = choose|i: int|
                0 <= i < rows.len() && (#[trigger] rows[i]).workflow_run_id == run_id;
            assert(step_of(rows, run_id, i));
        }
        if some_failed(rows, run_id) {
            let i = choose|i: int|
                0 <= i < rows.len() && (#[trigger] rows[i]).workflow_run_id == run_id
                    && rows[i].state is Failed;
            assert(step_of(rows, run_id, i));
        }
        if exists|i: int| #[trigger] step_of(rows, run_id, i) && rows[i].state is Failed {
            let i = choose|i: int| #[trigger] step_of(rows, run_id, i) && rows[i].state is Failed;
            assert(rows[i].workflow_run_id == run_id);
            assert(some_failed(rows, run_id));
            assert(has_steps(rows, run_id));
        }
        if exists|i: int| #[trigger] step_of(rows, run_id, i) {
            let i = choose|i: int| #[trigger] step_of(rows, run_id, i);
            assert(rows[i].workflow_run_id == run_id);
            assert(has_steps(rows, run_id));
        }
        if all_completed(rows, run_id) {
            assert forall|i: int| #[trigger] step_of(rows, run_id, i) implies rows[i].state
                is Completed by {
                assert(rows[i].workflow_run_id == run_id);
            }
        } else {
            let i = choose|i: int|
                0 <= i < rows.len() && (#[trigger] rows[i]).workflow_run_id == run_id && !(
                rows[i].state is Completed);
            assert(step_of(rows, run_id, i));
        }
    }
}

/// The next step of a run is its waiting step with the lowest index, as its row has it; there is
/// none exactly where none waits.
pub proof fn law_next_step(s: Store, run_id: Text)
    ensures
        match next_step_found(s, run_id) {
            Ok(Some(step)) => exists|p: int| #[trigger]
                waits_at(s.steps, run_id, p) && step_in(s.steps[p]) == Ok::<
                    WorkflowStepInstanceView,
                    Text,
                >(step) && forall|i: int| #[trigger]
                    waits_at(s.steps, run_id, i) ==> s.steps[p].step_index <= s.steps[i].step_index,
            Ok(None) => forall|i: int| !#[trigger] waits_at(s.steps, run_id, i),
            Err(_) => exists|p: int| #[trigger]
                waits_at(s.steps, run_id, p) && step_in(s.steps[p]) is Err,
        },
{
    law_lowest_waiting(s.steps, run_id);
    if let Some(p) = lowest_waiting(s.steps, run_id) {
        assert(waits_at(s.steps, run_id, p));
        assert forall|i: int| #[trigger]
            waits_at(s.steps, run_id, i) implies s.steps[p].step_index <= s.steps[i].step_index by {
            assert(crate::db::activities::waiting(s.steps[i], run_id));
        }
    } else {
        assert forall|i: int| !#[trigger] waits_at(s.steps, run_id, i) by {
            if waits_at(s.steps, run_id, i) {
                assert(crate::db::activities::waiting(s.steps[i], run_id));
            }
        }
    }
}

/// Starting a run: a pending run with the ID runs, since its start where it has one and else since
/// now; no other row changes.
pub proof fn law_run_started(s: Store, run_id: Text, now: Timestamp, i: int)
    requires
        0 <= i < s.workflows.len(),
    ensures
        ({
            let after = workflow_started(s, run_id, now);
            let (a, b) = (s.workflows[i], after.workflows[i]);
            &&& after.workflows.len() == s.workflows.len()
            &&& !(a.run_id == run_id && a.state is Pending) ==> b == a
            &&& a.run_id == run_id && a.state is Pending ==> b.state is Running && (a.started_at
                is Some ==> b.started_at == a.started_at) && (a.started_at is None ==> b.started_at
                == Some(time_text(now)))
            &&& b.run_id == a.run_id && b.workflow_id == a.workflow_id && b.name == a.name
                && b.task_queue == a.task_queue && b.args_json == a.args_json && b.result_json
                == a.result_json && b.completed_at == a.completed_at && b.namespace == a.namespace
                && b.execution_timeout_secs == a.execution_timeout_secs && b.run_timeout_secs
                == a.run_timeout_secs && b.task_timeout_secs == a.task_timeout_secs
            &&& after.schedules == s.schedules && after.steps == s.steps && after.activities
                == s.activities && after.namespaces == s.namespaces
        }),
{
}

/// Looking at a run: it is completed, with the time as its end, exactly where its steps say so, and
/// has failed exactly where they say so; otherwise a pending run starts. No other row changes.
pub proof fn law_run_processed(s: Store, run_id: Text, now: Timestamp, i: int)
    requires
        0 <= i < s.workflows.len(),
    ensures
        ({
            let after = workflow_processed(s, run_id, now);
            let (a, b) = (s.workflows[i], after.workflows[i]);
            let steps = s.steps;
            let completed = (exists|k: int| #[trigger] step_of(steps, run_id, k)) && (forall|k: int|
             #[trigger]
                step_of(steps, run_id, k) ==> steps[k].state is Completed);
            let failed = (exists|k: int| #[trigger]
                step_of(steps, run_id, k) && steps[k].state is Failed) && (forall|k: int|
                !#[trigger] waits_at(steps, run_id, k));
            &&& after.workflows.len() == s.workflows.len()
            &&& a.run_id != run_id ==> b == a
            &&& a.run_id == run_id && completed ==> b.state is Completed && b.completed_at == Some(
                time_text(now),
            ) && b.result_json is None
            &&& a.run_id == run_id && failed ==> b.state is Failed && b.completed_at == Some(
                time_text(now),
            ) && b.result_json is None
            &&& a.run_id == run_id && !completed && !failed ==> b.completed_at == a.completed_at
                && b.result_json == a.result_json && (a.state is Pending ==> b.state is Running)
                && (!(a.state is Pending) ==> b == a)
            &&& a.run_id == run_id && a.state is Pending && a.started_at is None ==> b.started_at
                == Some(time_text(now))
            &&& a.started_at is Some || !(a.state is Pending) ==> b.started_at == a.started_at
            &&& b.run_id == a.run_id && b.workflow_id == a.workflow_id && b.name == a.name
                && b.task_queue == a.task_queue && b.args_json == a.args_json && b.namespace
                == a.namespace
            &&& after.schedules == s.schedules && after.steps == s.steps && after.activities
                == s.activities && after.namespaces == s.namespaces
        }),
{
    law_outlook(s.steps, run_id);
    law_run_started(s, run_id, now, i);
    let open = workflow_started(s, run_id, now);
    law_run_state_set(open, run_id, WorkflowState::Failed, None, Some(now), i);
    law_run_state_set(open, run_id, WorkflowState::Completed, None, Some(now), i);
}

/// The active runs are those that are pending or running: first those without a start, and then in
/// the order of their starts.
pub proof fn law_active_rows(rows: Seq<WorkflowRecord>, row: WorkflowRecord)
    ensures
        active_rows(rows).contains(row) <==> rows.contains(row) && (row.state is Pending
            || row.state is Running),
        forall|p: int, q: int|
            0 <= p < q < active_rows(rows).len() ==> match (
                (#[trigger] active_rows(rows)[p]).started_at,
                (#[trigger] active_rows(rows)[q]).started_at,
            ) {
                (Some(a), Some(b)) => text_le(a, b),
                (None, _) => true,
                (Some(_), None) => false,
            },
{
    let test = |row: WorkflowRecord| row.state.active();
    let picked = rows.filter(test);
    let keys = picked.map_values(|row: WorkflowRecord| row.started_at);
    lemma_filter(rows, test);
    lemma_arranged(picked, keys, false);
    law_ordered(keys, keys.len(), false);
    let order = ordered(keys, keys.len(), false);
    if picked.contains(row) {
        let p = choose|p: int| 0 <= p < picked.len() && picked[p] == row;
        assert(rows.contains(picked[p]));
    }
    if rows.contains(row) && test(row) {
        let k = choose|k: int| 0 <= k < rows.len() && rows[k] == row;
        assert(test(rows[k]));
    }
    assert forall|p: int, q: int| 0 <= p < q < active_rows(rows).len() implies match (
        (#[trigger] active_rows(rows)[p]).started_at,
        (#[trigger] active_rows(rows)[q]).started_at,
    ) {
        (Some(a), Some(b)) => text_le(a, b),
        (None, _) => true,
        (Some(_), None) => false,
    } by {
        assert(in_order(keys[order[p]], keys[order[q]], false));
    }
}

/// Looking at runs one after the other changes no run that is not among them, and leaves none of
/// them pending.
pub proof fn law_runs_advanced(s: Store, run_ids: Seq<Text>, now: Timestamp, i: int)
    requires
        0 <= i < s.workflows.len(),
    ensures
        ({
            let (after, r) = workflows_advanced(s, run_ids, now);
            let (a, b) = (s.workflows[i], after.workflows[i]);
            &&& after.workflows.len() == s.workflows.len()
            &&& b.run_id == a.run_id
            &&& !run_ids.contains(a.run_id) ==> b == a
            &&& r is Ok && run_ids.contains(a.run_id) ==> !(b.state is Pending)
            &&& !(a.state is Pending) ==> !(b.state is Pending)
            &&& after.schedules == s.schedules && after.steps == s.steps && after.activities
                == s.activities && after.namespaces == s.namespaces
        }),
    decreases run_ids.len(),
{
    if run_ids.len() > 0 {
        let front = run_ids.drop_last();
        law_runs_advanced(s, front, now, i);
        let (before, earlier) = workflows_advanced(s, front, now);
        law_run_processed(before, run_ids.last(), now, i);
        law_outlook(before.steps, run_ids.last());
        let id = s.workflows[i].run_id;
        assert(run_ids[run_ids.len() - 1] == run_ids.last());
        if front.contains(id) {
            let k = choose|k: int| 0 <= k < front.len() && front[k] == id;
            assert(run_ids[k] == id);
        }
        if run_ids.contains(id) {
            let k = choose|k: int| 0 <= k < run_ids.len() && run_ids[k] == id;
            if k < front.len() {
                assert(front[k] == id);
            }
        }
    }
}

/// The timers of runs that are looked at one after the other are those of each of them: the timers of
/// one more run come behind those of the runs before it. Looking stops at the first whose timers
/// cannot be found.
pub proof fn law_timers_of_runs(s: Store, run_ids: Seq<Text>, run_id: Text, now: Timestamp)
    ensures
        ({
            let (before, first) = workflows_advanced(s, run_ids, now);
            let (after, all) = workflows_advanced(s, run_ids.push(run_id), now);
            &&& first matches Err(e) ==> after == before && all == Err::<Seq<TimerView>, Text>(e)
            &&& first matches Ok(timers) ==> after == workflow_processed(before, run_id, now)
                && match workflow_timers(after, run_id) {
                Ok(own) => all matches Ok(list) && list == timers + own,
                Err(e) => all == Err::<Seq<TimerView>, Text>(e),
            }
        }),
        workflows_advanced(s, Seq::empty(), now).0 == s,
        workflows_advanced(s, Seq::empty(), now).1 matches Ok(list) && list.len() == 0,
{
    assert(run_ids.push(run_id).drop_last() =~= run_ids);
    assert(run_ids.push(run_id).last() == run_id);
}

/// Looking at all runs changes only runs that are pending or running, and leaves none pending.
pub proof fn law_all_advanced(s: Store, now: Timestamp, i: int)
    requires
        consistent(s),
        0 <= i < s.workflows.len(),
    ensures
        ({
            let (after, r) = all_advanced(s, now);
            let (a, b) = (s.workflows[i], after.workflows[i]);
            &&& after.workflows.len() == s.workflows.len()
            &&& b.run_id == a.run_id
            &&& !(a.state is Pending || a.state is Running) ==> b == a
            &&& r is Ok && a.state is Pending ==> !(b.state is Pending)
            &&& after.schedules == s.schedules && after.steps == s.steps && after.activities
                == s.activities && after.namespaces == s.namespaces
        }),
{
    let rows = active_rows(s.workflows);
    let ids = rows.map_values(|row: WorkflowRecord| row.run_id);
    let a = s.workflows[i];
    law_runs_advanced(s, ids, now, i);
    law_active_rows(s.workflows, a);
    assert(s.workflows.contains(a));
    if a.state is Pending {
        let p = choose|p: int| 0 <= p < rows.len() && rows[p] == a;
        assert(ids[p] == a.run_id);
        assert(ids.contains(a.run_id));
    }
    if ids.contains(a.run_id) {
        let p = choose|p: int| 0 <= p < ids.len() && ids[p] == a.run_id;
        law_active_rows(s.workflows, rows[p]);
        assert(rows.contains(rows[p]));
        let k = choose|k: int| 0 <= k < s.workflows.len() && s.workflows[k] == rows[p];
        assert(s.workflows[k].key() == s.workflows[i].key());
        assert(k == i);
    }
}

// ---- timers ---------------------------------------------------------------------------------

/// A timer is set for each step of the run that is marked for a retry, at the time in its column,
/// and for no other.
pub proof fn law_retry_timers(rows: Seq<StepRecord>, run_id: Text, x: TimerView)
    ensures
        retry_timers(rows, run_id).contains(x) <==> exists|i: int| #[trigger]
            step_of(rows, run_id, i) && rows[i].state is Retried && rows[i].next_retry_at is Some
                && time_in(rows[i].next_retry_at->0) is Ok && x == (TimerView::Retry {
                step_id: rows[i].id,
                at: time_in(rows[i].next_retry_at->0)->Ok_0,
            }),
    decreases rows.len(),
{
    let all = retry_timers(rows, run_id);
    if rows.len() > 0 {
        let front = rows.drop_last();
        let before = retry_timers(front, run_id);
        let n = rows.len() - 1;
        law_retry_timers(front, run_id, x);
        assert(rows.last() == rows[n]);
        if before.contains(x) {
            let p = choose|p: int| 0 <= p < before.len() && before[p] == x;
            assert(all[p] == x);
            let i = choose|i: int| #[trigger]
                step_of(front, run_id, i) && front[i].state is Retried && front[i].next_retry_at
                    is Some && time_in(front[i].next_retry_at->0) is Ok && x == (TimerView::Retry {
                    step_id: front[i].id,
                    at: time_in(front[i].next_retry_at->0)->Ok_0,
                });
            assert(front[i] == rows[i]);
            assert(step_of(rows, run_id, i));
        } else if all.contains(x) {
            let p = choose|p: int| 0 <= p < all.len() && all[p] == x;
            assert(p == before.len()) by {
                if p < before.len() {
                    assert(before[p] == x);
                }
            }
            assert(step_of(rows, run_id, n));
        }
        if exists|i: int| #[trigger]
            step_of(rows, run_id, i) && rows[i].state is Retried && rows[i].next_retry_at is Some
                && time_in(rows[i].next_retry_at->0) is Ok && x == (TimerView::Retry {
                step_id: rows[i].id,
                at: time_in(rows[i].next_retry_at->0)->Ok_0,
            }) {
            let i = choose|i: int| #[trigger]
                step_of(rows, run_id, i) && rows[i].state is Retried && rows[i].next_retry_at
                    is Some && time_in(rows[i].next_retry_at->0) is Ok && x == (TimerView::Retry {
                    step_id: rows[i].id,
                    at: time_in(rows[i].next_retry_at->0)->Ok_0,
                });
            if i < n {
                assert(front[i] == rows[i]);
                assert(step_of(front, run_id, i));
            } else {
                assert(all[before.len() as int] == x);
            }
        }
    }
}

/// The last sign of life of an attempt: its last heartbeat, or else its start.
pub open spec fn sign_of(row: ActivityRecord) -> Option<Text> {
    if row.last_heartbeat_at is Some {
        row.last_heartbeat_at
    } else {
        row.started_at
    }
}

/// The timer of a running attempt of the run: the heartbeat limit of its step after its last sign of
/// life.
pub open spec fn beat_due(row: ActivityRecord, steps: Seq<StepRecord>, run_id: Text, x: TimerView) -> bool {
    row.state is Running && with_key(steps, row.step_id) is Some && {
        let step = with_key(steps, row.step_id)->0;
        &&& step.workflow_run_id == run_id
        &&& step.heartbeat_timeout_secs is Some
        &&& sign_of(row) is Some
        &&& time_in(sign_of(row)->0) is Ok
        &&& plus_seconds(
            time_in(sign_of(row)->0)->Ok_0,
            step.heartbeat_timeout_secs->0 as int,
        ) matches Some(at) && x == (TimerView::Heartbeat { activity_id: row.id, at })
    }
}

/// A timer is set for each running attempt of the run whose step has a heartbeat limit, and for no
/// other.
pub proof fn law_heartbeat_timers(
    rows: Seq<ActivityRecord>,
    steps: Seq<StepRecord>,
    run_id: Text,
    x: TimerView,
)
    requires
        heartbeat_timers(rows, steps, run_id) is Ok,
    ensures
        heartbeat_timers(rows, steps, run_id)->Ok_0.contains(x) <==> exists|i: int|
            0 <= i < rows.len() && beat_due(#[trigger] rows[i], steps, run_id, x),
    decreases rows.len(),
{
    let all = heartbeat_timers(rows, steps, run_id)->Ok_0;
    if rows.len() > 0 {
        let front = rows.drop_last();
        let before = heartbeat_timers(front, steps, run_id)->Ok_0;
        let n = rows.len() - 1;
        law_heartbeat_timers(front, steps, run_id, x);
        assert(rows.last() == rows[n]);
        if before.contains(x) {
            let p = choose|p: int| 0 <= p < before.len() && before[p] == x;
            assert(all[p] == x);
            let i = choose|i: int|
                0 <= i < front.len() && beat_due(#[trigger] front[i], steps, run_id, x);
            assert(front[i] == rows[i]);
        } else if all.contains(x) {
            let p = choose|p: int| 0 <= p < all.len() && all[p] == x;
            assert(p == before.len()) by {
                if p < before.len() {
                    assert(before[p] == x);
                }
            }
            assert(beat_due(rows[n], steps, run_id, x));
        }
        if exists|i: int| 0 <= i < rows.len() && beat_due(#[trigger] rows[i], steps, run_id, x) {
            let i = choose|i: int|
                0 <= i < rows.len() && beat_due(#[trigger] rows[i], steps, run_id, x);
            if i < n {
                assert(front[i] == rows[i]);
                assert(beat_due(front[i], steps, run_id, x));
            } else {
                assert(all[before.len() as int] == x);
            }
        }
    }
}

/// The timers of running attempts cannot be set exactly where the deadline of one of them lies outside
/// the calendar.
pub proof fn law_heartbeat_timers_fail(
    rows: Seq<ActivityRecord>,
    steps: Seq<StepRecord>,
    run_id: Text,
)
    ensures
        heartbeat_timers(rows, steps, run_id) is Err <==> exists|i: int|
            0 <= i < rows.len() && beat_outside(#[trigger] rows[i], steps, run_id),
    decreases rows.len(),
{
    if rows.len() > 0 {
        let front = rows.drop_last();
        let n = rows.len() - 1;
        law_heartbeat_timers_fail(front, steps, run_id);
        assert(rows.last() == rows[n]);
        if exists|i: int| 0 <= i < front.len() && beat_outside(#[trigger] front[i], steps, run_id) {
            let i = choose|i: int|
                0 <= i < front.len() && beat_outside(#[trigger] front[i], steps, run_id);
            assert(rows[i] == front[i]);
        }
        if exists|i: int| 0 <= i < rows.len() && beat_outside(#[trigger] rows[i], steps, run_id) {
            let i = choose|i: int|
                0 <= i < rows.len() && beat_outside(#[trigger] rows[i], steps, run_id);
            if i < n {
                assert(front[i] == rows[i]);
            }
        }
    }
}

/// A running attempt of the run whose deadline lies outside the calendar.
pub open spec fn beat_outside(row: ActivityRecord, steps: Seq<StepRecord>, run_id: Text) -> bool {
    row.state is Running && with_key(steps, row.step_id) is Some && {
        let step = with_key(steps, row.step_id)->0;
        &&& step.workflow_run_id == run_id
        &&& step.heartbeat_timeout_secs is Some
        &&& sign_of(row) is Some
        &&& time_in(sign_of(row)->0) is Ok
        &&& plus_seconds(
            time_in(sign_of(row)->0)->Ok_0,
            step.heartbeat_timeout_secs->0 as int,
        ) is None
    }
}

/// The timers of a run are those of its steps that are marked for a retry and those of its running
/// attempts.
pub proof fn law_workflow_timers(s: Store, run_id: Text, x: TimerView)
    requires
        workflow_timers(s, run_id) is Ok,
    ensures
        workflow_timers(s, run_id)->Ok_0.contains(x) <==> (exists|i: int| #[trigger]
            step_of(s.steps, run_id, i) && s.steps[i].state is Retried && s.steps[i].next_retry_at
                is Some && time_in(s.steps[i].next_retry_at->0) is Ok && x == (TimerView::Retry {
                step_id: s.steps[i].id,
                at: time_in(s.steps[i].next_retry_at->0)->Ok_0,
            })) || (exists|i: int|
            0 <= i < s.activities.len() && beat_due(#[trigger] s.activities[i], s.steps, run_id, x)),
{
    law_retry_timers(s.steps, run_id, x);
    law_heartbeat_timers(s.activities, s.steps, run_id, x);
    let a = retry_timers(s.steps, run_id);
    let b = heartbeat_timers(s.activities, s.steps, run_id)->Ok_0;
    let all = workflow_timers(s, run_id)->Ok_0;
    if a.contains(x) {
        let p = choose|p: int| 0 <= p < a.len() && a[p] == x;
        assert(all[p] == x);
    }
    if b.contains(x) {
        let p = choose|p: int| 0 <= p < b.len() && b[p] == x;
        assert(all[a.len() + p] == x);
    }
    if all.contains(x) {
        let p = choose|p: int| 0 <= p < all.len() && all[p] == x;
        if p < a.len() {
            assert(a[p] == x);
        } else {
            assert(b[p - a.len()] == x);
        }
    }
}

// ---- retries --------------------------------------------------------------------------------

/// A step whose retry is due waits again, without a time, and its run is looked at; a step that is
/// not marked for a retry is left alone, and one that is not there is an error. No other step
/// changes.
pub proof fn law_retry_due(s: Store, step_id: Text, now: Timestamp, i: int)
    requires
        0 <= i < s.steps.len(),
    ensures
        ({
            let (after, r) = retry_due(s, step_id, now);
            let (a, b) = (s.steps[i], after.steps[i]);
            &&& with_key(s.steps, step_id) is None ==> after == s && r is Err
            &&& with_key(s.steps, step_id) matches Some(step) ==> {
                &&& !(step.state is Retried) ==> after == s && (r matches Ok(timers) && timers.len()
                    == 0)
                &&& step.state is Retried ==> {
                    &&& a.id == step_id ==> b.state is Pending && b.next_retry_at is None
                        && b.attempt == a.attempt && b.result_json == a.result_json
                    &&& a.id != step_id ==> b == a
                    &&& r == workflow_timers(after, step.workflow_run_id)
                    &&& exists|reset: Store|
                        reset.workflows == s.workflows && reset.activities == s.activities
                            && reset.steps == after.steps && after == #[trigger] workflow_processed(
                            reset,
                            step.workflow_run_id,
                            now,
                        )
                }
            }
            &&& after.steps.len() == s.steps.len() && after.activities == s.activities
                && after.schedules == s.schedules && after.namespaces == s.namespaces
        }),
{
    if let Some(step) = with_key(s.steps, step_id) {
        if step.state is Retried {
            let reset = Store {
                steps: crate::db::rows::changed(
                    s.steps,
                    step_id,
                    |row: StepRecord| crate::engine::reset_to_pending(row),
                ),
                ..s
            };
            let after = retry_due(s, step_id, now).0;
            assert(after == workflow_processed(reset, step.workflow_run_id, now));
        }
    }
}

/// Checking retries: a step that is marked for a retry whose time has come waits again, without a
/// time; no other row changes.
pub proof fn law_retries_checked(s: Store, now: Timestamp, i: int)
    requires
        0 <= i < s.steps.len(),
    ensures
        ({
            let after = retries_checked(s, now);
            let (a, b) = (s.steps[i], after.steps[i]);
            let due = a.state is Retried && a.next_retry_at is Some && text_le(
                a.next_retry_at->0,
                time_text(now),
            );
            &&& after.steps.len() == s.steps.len()
            &&& due ==> b.state is Pending && b.next_retry_at is None && b.attempt == a.attempt
                && b.id == a.id && b.workflow_run_id == a.workflow_run_id && b.step_index
                == a.step_index && b.result_json == a.result_json
            &&& !due ==> b == a
            &&& after.workflows == s.workflows && after.activities == s.activities
                && after.schedules == s.schedules && after.namespaces == s.namespaces
        }),
{
}

// ---- heartbeats -----------------------------------------------------------------------------

/// An attempt was silent for too long exactly where it has a heartbeat limit and the time since its
/// last sign of life, its last heartbeat or else its start, is over the limit by a whole second or
/// more.
pub proof fn law_silent_too_long(a: RunningActivityView, now: Timestamp)
    requires
        now.ordinary(),
        a.heartbeat_timeout_secs matches Some(limit) ==> limit <= i64::MAX,
    ensures
        a.heartbeat_timeout_secs is None ==> silent_too_long(a, now) == Ok::<bool, Text>(false),
        a.last_heartbeat_at_str is None && a.started_at_str is None ==> silent_too_long(a, now)
            == Ok::<bool, Text>(false),
        a.heartbeat_timeout_secs matches Some(limit) ==> {
            &&& a.last_heartbeat_at_str matches Some(beat) ==> match time_in(beat) {
                Ok(at) => at.ordinary() ==> silent_too_long(a, now) == Ok::<bool, Text>(
                    nanos_between(now, at) >= (limit + 1) * 1_000_000_000,
                ),
                Err(_) => silent_too_long(a, now) is Err,
            }
            &&& a.last_heartbeat_at_str is None ==> (a.started_at_str matches Some(start)
                ==> match time_in(start) {
                Ok(at) => at.ordinary() ==> silent_too_long(a, now) == Ok::<bool, Text>(
                    nanos_between(now, at) >= (limit + 1) * 1_000_000_000,
                ),
                Err(_) => silent_too_long(a, now) is Err,
            })
        },
{
    let sign = if a.last_heartbeat_at_str is Some {
        a.last_heartbeat_at_str
    } else {
        a.started_at_str
    };
    if let Some(text) = sign {
        if let Ok(at) = time_in(text) {
            if at.ordinary() {
                let total = nanos_between(now, at);
                assert(between(now, at).0 == crate::clock::div_to_zero(total, 1_000_000_000));
                if total < 0 {
                    assert((-total) / 1_000_000_000 >= 0);
                }
            }
        }
    }
}

/// What a heartbeat timer does when it goes off. An attempt that is not there is an error, and one
/// that does not run any more is left alone. One with a heartbeat whose deadline is still ahead gets
/// a timer at that deadline, and nothing changes. Any other has failed, with the error; its step
/// waits for a retry, with a timer at the time of that retry, while the policy allows one, and has
/// failed otherwise, and then its run is looked at.
pub proof fn law_heartbeat_timed_out(s: Store, activity_id: Text, now: Timestamp, i: int)
    ensures
        ({
            let (after, r) = heartbeat_timed_out(s, activity_id, now);
            match with_key(s.activities, activity_id) {
                None => after == s && r is Err,
                Some(row) => if !(row.state is Running) {
                    after == s && (r matches Ok(timers) && timers.len() == 0)
                } else if deadline_ahead(row, s.steps, now) is Some {
                    after == s && (r matches Ok(timers) && timers.len() == 1 && timers[0] == (
                    TimerView::Heartbeat {
                        activity_id,
                        at: deadline_ahead(row, s.steps, now)->0,
                    }))
                } else {
                    let policy = policy_of(s.steps, row.step_id);
                    let attempt = attempt_in(row.attempt);
                    let at = plus_seconds(now, policy.backoff(attempt));
                    &&& 0 <= i < s.activities.len() && s.activities[i].id == activity_id
                        ==> after.activities[i].state is Failed
                        && after.activities[i].error_message == Some("Heartbeat timeout"@)
                        && after.activities[i].completed_at == Some(time_text(now))
                    &&& 0 <= i < s.activities.len() && s.activities[i].id != activity_id
                        ==> after.activities[i] == s.activities[i]
                    &&& 0 <= i < s.steps.len() && s.steps[i].id != row.step_id ==> after.steps[i]
                        == s.steps[i]
                    &&& attempt < policy.maximum_attempts && at is Some ==> {
                        &&& r matches Ok(timers) && timers.len() == 1 && timers[0] == (
                        TimerView::Retry { step_id: row.step_id, at: at->0 })
                        &&& after.workflows == s.workflows
                        &&& 0 <= i < s.steps.len() && s.steps[i].id == row.step_id
                            ==> after.steps[i].state is Pending && after.steps[i].next_retry_at
                            == Some(time_text(at->0)) && after.steps[i].attempt == attempt
                    }
                    &&& attempt >= policy.maximum_attempts ==> {
                        &&& r matches Ok(timers) ==> timers.len() == 0
                        &&& 0 <= i < s.steps.len() && s.steps[i].id == row.step_id
                            ==> after.steps[i].state is Failed
                        &&& with_key(s.steps, row.step_id) matches Some(step) ==> r is Ok && exists|
                            failed: Store,
                        |
                            failed.workflows == s.workflows && failed.steps == after.steps && after
                                == #[trigger] workflow_processed(failed, step.workflow_run_id, now)
                    }
                },
            }
        }),
{
    if let Some(row) = with_key(s.activities, activity_id) {
        let policy = policy_of(s.steps, row.step_id);
        let attempt = attempt_in(row.attempt);
        law_attempt_failed(
            s,
            activity_id,
            row.step_id,
            attempt,
            policy,
            "Heartbeat timeout"@,
            now,
            i,
        );
        if attempt >= policy.maximum_attempts {
            let failed = attempt_failed(
                s,
                activity_id,
                row.step_id,
                attempt,
                policy,
                "Heartbeat timeout"@,
                now,
            );
            let column = time_column(None);
            lemma_with_key_changed(
                s.steps,
                row.step_id,
                |step: StepRecord|
                    step_set(step, ActivityState::Failed, Some(attempt), None, column),
                row.step_id,
            );
            if let Some(step) = with_key(s.steps, row.step_id) {
                let after = heartbeat_timed_out(s, activity_id, now).0;
                if row.state is Running && deadline_ahead(row, s.steps, now) is None {
                    assert(after == workflow_processed(failed, step.workflow_run_id, now));
                }
            }
        }
    }
}

/// The deadline of a running attempt that has sent a heartbeat: the heartbeat limit of its step after
/// it, where that is still ahead.
pub proof fn law_deadline_ahead(row: ActivityRecord, steps: Seq<StepRecord>, now: Timestamp)
    ensures
        match deadline_ahead(row, steps, now) {
            Some(at) => at.after(now) && row.last_heartbeat_at is Some && (with_key(
                steps,
                row.step_id,
            ) matches Some(step) && (step.heartbeat_timeout_secs matches Some(limit) && (time_in(
                row.last_heartbeat_at->0,
            ) matches Ok(beat) && plus_seconds(beat, limit as int) == Some(at)))),
            None => row.last_heartbeat_at matches Some(text) ==> (with_key(
                steps,
                row.step_id,
            ) matches Some(step) ==> (step.heartbeat_timeout_secs matches Some(limit) ==> (time_in(
                text,
            ) matches Ok(beat) ==> (plus_seconds(beat, limit as int) matches Some(at)
                ==> !at.after(now))))),
        },
{
}

/// The policy of a step is the one in its column; where the step is not there or its column cannot be
/// read, no retry is allowed.
pub proof fn law_policy_of(rows: Seq<StepRecord>, step_id: Text)
    ensures
        match with_key(rows, step_id) {
            Some(step) => match step.retry_policy {
                PolicyColumnView::Policy(policy) => policy_of(rows, step_id) == policy,
                PolicyColumnView::Malformed(_) => policy_of(rows, step_id).maximum_attempts == 0,
            },
            None => policy_of(rows, step_id).maximum_attempts == 0,
        },
        forall|n: i64| 0 <= n <= u32::MAX ==> #[trigger] attempt_in(n) == n,
        forall|n: i64| n < 0 || n > u32::MAX ==> #[trigger] attempt_in(n) == 0,
{
}

/// Checking heartbeats goes through the attempts in order, and one more attempt is checked on what the
/// ones before it left: where it was silent for too long it has failed, and its step waits for a
/// retry while its policy allows one and has failed otherwise; else nothing changes.
pub proof fn law_heartbeats_checked(
    s: Store,
    list: Seq<RunningActivityView>,
    a: RunningActivityView,
    now: Timestamp,
    i: int,
)
    ensures
        ({
            let (before, first) = heartbeats_checked(s, list, now);
            let (after, all) = heartbeats_checked(s, list.push(a), now);
            let policy = policy_of(before.steps, a.step_id);
            &&& first is Err ==> after == before && all == first
            &&& first is Ok ==> match silent_too_long(a, now) {
                Err(e) => after == before && all == Err::<(), Text>(e),
                Ok(silent) => {
                    &&& all is Ok
                    &&& !silent ==> after == before
                    &&& silent ==> {
                        &&& 0 <= i < before.activities.len() && before.activities[i].id == a.id
                            ==> after.activities[i].state is Failed
                            && after.activities[i].error_message == Some("Heartbeat timeout"@)
                            && after.activities[i].completed_at == Some(time_text(now))
                        &&& 0 <= i < before.activities.len() && before.activities[i].id != a.id
                            ==> after.activities[i] == before.activities[i]
                        &&& 0 <= i < before.steps.len() && before.steps[i].id == a.step_id ==> {
                            &&& after.steps[i].attempt == a.attempt
                            &&& a.attempt < policy.maximum_attempts ==> after.steps[i].state
                                is Pending && (plus_seconds(
                                now,
                                policy.backoff(a.attempt),
                            ) matches Some(at) ==> after.steps[i].next_retry_at == Some(
                                time_text(at),
                            ))
                            &&& a.attempt >= policy.maximum_attempts ==> after.steps[i].state
                                is Failed && after.steps[i].next_retry_at is None
                        }
                        &&& 0 <= i < before.steps.len() && before.steps[i].id != a.step_id
                            ==> after.steps[i] == before.steps[i]
                        &&& after.workflows == before.workflows && after.schedules
                            == before.schedules && after.namespaces == before.namespaces
                    }
                },
            }
        }),
        heartbeats_checked(s, Seq::empty(), now).0 == s,
{
    assert(list.push(a).drop_last() =~= list);
    assert(list.push(a).last() == a);
    let before = heartbeats_checked(s, list, now).0;
    law_attempt_failed(
        before,
        a.id,
        a.step_id,
        a.attempt,
        policy_of(before.steps, a.step_id),
        "Heartbeat timeout"@,
        now,
        i,
    );
}

/// Heartbeats and events are handled unless a retry that they ask for lies outside the calendar; then
/// nothing changes.
pub proof fn law_outcomes(s: Store, event: EngineEventView, now: Timestamp)
    ensures
        heartbeats_outcome(s, now).1 is None ==> heartbeats_outcome(s, now).0 == s && exists|i: int|
            {
                let a = running_activities(s.activities, s.steps)[i];
                let policy = policy_of(s.steps, a.step_id);
                &&& 0 <= i < running_activities(s.activities, s.steps).len()
                &&& silent_too_long(#[trigger] running_activities(s.activities, s.steps)[i], now)
                    == Ok::<bool, Text>(true)
                &&& a.attempt < policy.maximum_attempts
                &&& !(MIN_SECS <= now.second() + policy.backoff(a.attempt) <= MAX_SECS)
            },
        heartbeats_outcome(s, now).1 matches Some(r) ==> heartbeats_checked(
            s,
            running_activities(s.activities, s.steps),
            now,
        ) == (heartbeats_outcome(s, now).0, r),
        event_outcome(s, event, now).1 is None ==> event_outcome(s, event, now).0 == s
            && event is HeartbeatTimeout,
        event_outcome(s, event, now).1 matches Some(r) ==> event_handled(s, event, now) == (
            event_outcome(s, event, now).0,
            r,
        ),
{
}

// ---- events ---------------------------------------------------------------------------------

/// A run that was created, or one of whose steps was completed, is looked at, and its timers are
/// set; a changed schedule has all active runs looked at. A retry and a heartbeat timer are handled
/// for their step and their attempt.
pub proof fn law_events(s: Store, id: Text, now: Timestamp)
    ensures
        event_handled(s, EngineEventView::WorkflowCreated { run_id: id }, now).0
            == workflow_processed(s, id, now),
        event_handled(s, EngineEventView::WorkflowCreated { run_id: id }, now).1 == workflow_timers(
            workflow_processed(s, id, now),
            id,
        ),
        event_handled(s, EngineEventView::StepCompleted { workflow_run_id: id }, now)
            == event_handled(s, EngineEventView::WorkflowCreated { run_id: id }, now),
        event_handled(s, EngineEventView::ScheduleChange, now) == all_advanced(s, now),
        event_handled(s, EngineEventView::RetryDue { step_id: id }, now) == retry_due(s, id, now),
        event_handled(s, EngineEventView::HeartbeatTimeout { activity_id: id }, now)
            == heartbeat_timed_out(s, id, now),
{
}

} // verus!
