//! When a schedule fires, what it starts, and what waits in the queue, in terms of the rows.

use vstd::prelude::*;
use crate::clock::{between, lemma_timestamp_parts, nanos_between, on_calendar, time_in, time_text, Timestamp, MAX_SECS, MIN_SECS};
use crate::cron_times::{law_earliest_occurrence, matches_now, next_occurrence};
use crate::db::rows::{unique_keys, with_key, Keyed, OverlapColumn, PolicyColumnView, ScheduleRecord, Store, TimeoutsColumnView, WorkflowRecord};
use crate::definitions::scheduled_definition;
use crate::engine::EngineEventView;
use crate::ids::uuid_text;
use crate::json::{by_key, json_object_text, json_string_list, json_string_map, json_string_text, value_of};
use crate::laws::requests::law_steps_created;
use crate::laws::rows::{law_run_inserted, same_bits, step_holds};
use crate::queue::{due_ids, entry_added, in_sequence, law_entry_added, EntryView};
use crate::schedule::Timeouts;
use crate::scheduler::{action_step_args, all_requeued, due_fired, fires, fires_now, fire_noted, has_active_run, interval_from, interval_passed, last_started, latest_start, next_fire, own_run, pending_runs, queued, requeued, run_prefix, run_triggered, runs_terminated, schedule_processed, scheduled_run, scheduled_steps, schedules_fired, sleep_time};
use crate::text::{lemma_bytes_le_reflexive, lemma_text_lt, text_le, Text};

verus! {

// ---- the runs of a schedule -----------------------------------------------------------------

/// A run of a schedule, by its workflow ID: `schedule:`, the schedule's ID, `-` and eight
/// characters.
pub open spec fn run_of(row: WorkflowRecord, schedule_id: Text) -> bool {
    &&& row.workflow_id.len() == schedule_id.len() + 18
    &&& row.workflow_id.take(schedule_id.len() as int + 10) == "schedule:"@ + schedule_id + "-"@
}

/// A run counts as one of a schedule exactly where its workflow ID says so.
pub proof fn law_runs_of_a_schedule(row: WorkflowRecord, schedule_id: Text)
    ensures
        own_run(row, schedule_id) <==> run_of(row, schedule_id),
{
    reveal_strlit("schedule:");
    reveal_strlit("-");
    let prefix = run_prefix(schedule_id);
    assert(prefix.len() == schedule_id.len() + 10);
    if run_of(row, schedule_id) {
        assert(prefix =~= row.workflow_id.take(prefix.len() as int));
        assert forall|i: int| 0 <= i < prefix.len() implies #[trigger] prefix[i]
            == row.workflow_id[i] by {
            assert(row.workflow_id.take(prefix.len() as int)[i] == row.workflow_id[i]);
        }
    }
    if own_run(row, schedule_id) {
        assert(row.workflow_id.take(prefix.len() as int) =~= prefix);
    }
}

/// Whatever its state, no run of a schedule started later than the last start, which is the start of
/// some run of the schedule; there is none exactly where no run of the schedule has a start.
pub proof fn law_last_start(rows: Seq<WorkflowRecord>, schedule_id: Text)
    ensures
        match latest_start(rows, schedule_id) {
            Some(last) => {
                &&& exists|i: int|
                    0 <= i < rows.len() && run_of(#[trigger] rows[i], schedule_id)
                        && rows[i].started_at == Some(last)
                &&& forall|i: int|
                    0 <= i < rows.len() && run_of(#[trigger] rows[i], schedule_id) ==> (
                    rows[i].started_at matches Some(at) ==> text_le(at, last))
            },
            None => forall|i: int|
                0 <= i < rows.len() && run_of(#[trigger] rows[i], schedule_id)
                    ==> rows[i].started_at is None,
        },
    decreases rows.len(),
{
    if rows.len() > 0 {
        let front = rows.drop_last();
        let row = rows.last();
        assert(row == rows[rows.len() - 1]);
        law_last_start(front, schedule_id);
        law_runs_of_a_schedule(row, schedule_id);
        let before = latest_start(front, schedule_id);
        let after = latest_start(rows, schedule_id);
        if let Some(last) = after {
            lemma_bytes_le_reflexive(vstd::utf8::encode_utf8(last));
            if after == before {
                let i = choose|i: int|
                    0 <= i < front.len() && run_of(#[trigger] front[i], schedule_id)
                        && front[i].started_at == Some(last);
                assert(rows[i] == front[i]);
            }
            assert forall|i: int|
                0 <= i < rows.len() && run_of(#[trigger] rows[i], schedule_id) implies (
            rows[i].started_at matches Some(at) ==> text_le(at, last)) by {
                if let Some(at) = rows[i].started_at {
                    lemma_text_lt(at, last, last);
                    if i < front.len() {
                        assert(rows[i] == front[i]);
                        let e = before->0;
                        assert(text_le(at, e));
                        if after != before {
                            crate::text::lemma_bytes_le_transitive(
                                vstd::utf8::encode_utf8(at),
                                vstd::utf8::encode_utf8(e),
                                vstd::utf8::encode_utf8(last),
                            );
                        }
                    }
                }
            }
        } else {
            assert forall|i: int|
                0 <= i < rows.len() && run_of(
                    #[trigger] rows[i],
                    schedule_id,
                ) implies rows[i].started_at is None by {
                if i < front.len() {
                    assert(rows[i] == front[i]);
                }
            }
        }
    }
}

/// The last start of a schedule, as it is given: for every run of the schedule that has a start,
/// whatever its state, there is a last start, and it is no earlier; and it is read from the start of
/// some run of the schedule.
pub proof fn law_last_started(s: Store, schedule_id: Text, i: int)
    ensures
        0 <= i < s.workflows.len() && run_of(s.workflows[i], schedule_id) ==> (
        s.workflows[i].started_at matches Some(at) ==> {
            &&& !(last_started(s, schedule_id) matches Ok(None))
            &&& exists|k: int|
                0 <= k < s.workflows.len() && run_of(#[trigger] s.workflows[k], schedule_id)
                    && s.workflows[k].started_at is Some && text_le(
                    at,
                    s.workflows[k].started_at->0,
                ) && (last_started(s, schedule_id) matches Ok(Some(t)) ==> time_in(
                    s.workflows[k].started_at->0,
                ) == Ok::<Timestamp, Text>(t))
        }),
        last_started(s, schedule_id) matches Ok(Some(t)) ==> exists|k: int|
            0 <= k < s.workflows.len() && run_of(#[trigger] s.workflows[k], schedule_id)
                && s.workflows[k].started_at is Some && time_in(s.workflows[k].started_at->0)
                == Ok::<Timestamp, Text>(t),
        (forall|k: int|
            0 <= k < s.workflows.len() && run_of(#[trigger] s.workflows[k], schedule_id) && (
            s.workflows[k].started_at is Some) ==> time_in(s.workflows[k].started_at->0) is Ok)
            ==> last_started(s, schedule_id) is Ok,
{
    law_last_start(s.workflows, schedule_id);
    if let Some(last) = latest_start(s.workflows, schedule_id) {
        let k = choose|k: int|
            0 <= k < s.workflows.len() && run_of(#[trigger] s.workflows[k], schedule_id)
                && s.workflows[k].started_at == Some(last);
        assert(run_of(s.workflows[k], schedule_id));
    }
}

/// A schedule has an active run exactly where a run of it is pending or running.
pub proof fn law_active_run(rows: Seq<WorkflowRecord>, schedule_id: Text)
    ensures
        has_active_run(rows, schedule_id) <==> exists|i: int|
            0 <= i < rows.len() && run_of(#[trigger] rows[i], schedule_id) && (rows[i].state
                is Pending || rows[i].state is Running),
{
    assert forall|i: int| 0 <= i < rows.len() implies own_run(#[trigger] rows[i], schedule_id)
        == run_of(rows[i], schedule_id) by {
        law_runs_of_a_schedule(rows[i], schedule_id);
    }
    if exists|i: int|
        0 <= i < rows.len() && run_of(#[trigger] rows[i], schedule_id) && (rows[i].state is Pending
            || rows[i].state is Running) {
        let i = choose|i: int|
            0 <= i < rows.len() && run_of(#[trigger] rows[i], schedule_id) && (rows[i].state
                is Pending || rows[i].state is Running);
        assert(own_run(rows[i], schedule_id) && rows[i].state.active());
    }
    if has_active_run(rows, schedule_id) {
        let i = choose|i: int|
            0 <= i < rows.len() && own_run(#[trigger] rows[i], schedule_id)
                && rows[i].state.active();
        assert(run_of(rows[i], schedule_id));
    }
}

/// Counting pending runs: each pending run of the schedule counts once, and nothing else counts.
pub proof fn law_pending_runs(rows: Seq<WorkflowRecord>, row: WorkflowRecord, schedule_id: Text)
    ensures
        pending_runs(Seq::empty(), schedule_id) == 0,
        pending_runs(rows.push(row), schedule_id) == pending_runs(rows, schedule_id) + if run_of(
            row,
            schedule_id,
        ) && row.state is Pending {
            1int
        } else {
            0int
        },
{
    reveal(Seq::filter);
    law_runs_of_a_schedule(row, schedule_id);
    assert(rows.push(row).drop_last() =~= rows);
    assert(rows.push(row).last() == row);
}

/// Terminating ends every pending or running run of the schedule, with the time as its end, and
/// changes no other row.
pub proof fn law_runs_terminated(s: Store, schedule_id: Text, now: Timestamp, i: int)
    requires
        0 <= i < s.workflows.len(),
    ensures
        ({
            let after = runs_terminated(s, schedule_id, now);
            let (a, b) = (s.workflows[i], after.workflows[i]);
            &&& after.workflows.len() == s.workflows.len()
            &&& run_of(a, schedule_id) && (a.state is Pending || a.state is Running) ==> b.state
                is Cancelled && b.completed_at == Some(time_text(now))
            &&& !(run_of(a, schedule_id) && (a.state is Pending || a.state is Running)) ==> b == a
            &&& b.run_id == a.run_id && b.workflow_id == a.workflow_id && b.namespace == a.namespace
                && b.started_at == a.started_at && b.result_json == a.result_json
            &&& after.schedules == s.schedules && after.steps == s.steps && after.activities
                == s.activities && after.namespaces == s.namespaces
        }),
{
    law_runs_of_a_schedule(s.workflows[i], schedule_id);
}

// ---- when -----------------------------------------------------------------------------------

/// An interval has passed where nothing started yet, or exactly where the time since the last start
/// is no shorter than the interval.
pub proof fn law_interval_passed(s: Store, schedule_id: Text, secs: u64, now: Timestamp)
    requires
        0 < secs <= i64::MAX,
        now.ordinary(),
    ensures
        match last_started(s, schedule_id) {
            Ok(None) => interval_passed(s, schedule_id, secs, now) == Ok::<bool, Text>(true),
            Ok(Some(last)) => last.ordinary() ==> interval_passed(s, schedule_id, secs, now)
                == Ok::<bool, Text>(nanos_between(now, last) >= secs * 1_000_000_000),
            Err(e) => interval_passed(s, schedule_id, secs, now) == Err::<bool, Text>(e),
        },
        forall|t: Timestamp| #[trigger]
            nanos_between(now, t) == (now.second() - t.second()) * 1_000_000_000 + now.nano()
                - t.nano(),
{
    if let Ok(Some(last)) = last_started(s, schedule_id) {
        if last.ordinary() {
            let total = nanos_between(now, last);
            assert(between(now, last).0 == crate::clock::div_to_zero(total, 1_000_000_000));
            if total < 0 {
                assert((-total) / 1_000_000_000 >= 0);
            }
        }
    }
}

/// A cron schedule fires exactly where one of its expressions matches, and not where they cannot be
/// read; an interval schedule exactly where its interval has passed, and not without one.
pub proof fn law_fires_now(s: Store, row: ScheduleRecord, now: Timestamp)
    ensures
        row.spec_type is Cron ==> {
            &&& fires_now(s, row, now) is Ok
            &&& fires_now(s, row, now)->Ok_0 <==> row.cron_expressions is Some && json_string_list(
                row.cron_expressions->0,
            ) is Ok && exists|i: int|
                0 <= i < json_string_list(row.cron_expressions->0)->Ok_0.len() && matches_now(
                    #[trigger] json_string_list(row.cron_expressions->0)->Ok_0[i],
                    now,
                )
        },
        row.spec_type is Interval && row.interval_seconds is None ==> fires_now(s, row, now)
            == Ok::<bool, Text>(false),
        row.spec_type is Interval && row.interval_seconds is Some ==> fires_now(s, row, now)
            == interval_passed(s, row.schedule_id, row.interval_seconds->0 as u64, now),
{
}

/// An expression matches where its next time is at most a second away, and where its time is the
/// current second; it does not match where its next time is two seconds away or more and the time
/// after a second ago is not in the current second.
pub proof fn law_matches_now(expression: Text, now: Timestamp, next: Timestamp)
    requires
        now.ordinary(),
        next.ordinary(),
        on_calendar(now.second(), now.nano()),
        on_calendar(next.second(), next.nano()),
        MIN_SECS < now.second(),
        next_occurrence(expression, now) == Some(Some(next)),
        next.after(now),
    ensures
        nanos_between(next, now) < 2_000_000_000 ==> matches_now(expression, now),
        nanos_between(next, now) >= 2_000_000_000 ==> (matches_now(expression, now) <==> (
        next_occurrence(
            expression,
            Timestamp::at(now.second() - 1, now.nano()),
        ) matches Some(Some(at)) && at.second() == now.second())),
{
    let total = nanos_between(next, now);
    assert(between(next, now).0 == crate::clock::div_to_zero(total, 1_000_000_000));
}

/// An expression without a next time matches only where its time after a second ago is in the current
/// second.
pub proof fn law_matches_last(expression: Text, now: Timestamp)
    requires
        now.ordinary(),
        MIN_SECS < now.second() <= MAX_SECS,
        !(next_occurrence(expression, now) matches Some(Some(_))),
    ensures
        matches_now(expression, now) <==> (next_occurrence(
            expression,
            Timestamp::at(now.second() - 1, now.nano()),
        ) matches Some(Some(at)) && at.second() == now.second()),
{
}

/// The next time of an interval schedule: now where nothing started; else a whole interval after the
/// last start where that is still ahead, and else a whole interval from now.
pub proof fn law_next_interval(last: Option<Timestamp>, secs: u64, now: Timestamp)
    requires
        0 < secs <= i64::MAX,
        now.ordinary(),
        on_calendar(now.second(), now.nano()),
        now.second() + secs <= MAX_SECS,
        last matches Some(t) ==> t.ordinary() && on_calendar(t.second(), t.nano()) && t.second()
            + secs <= MAX_SECS,
    ensures
        match last {
            None => interval_from(last, secs, now) == Ok::<Option<Timestamp>, Text>(Some(now)),
            Some(t) => {
                let ahead = t.second() + secs > now.second() || (t.second() + secs == now.second()
                    && t.nano() > now.nano());
                interval_from(last, secs, now) matches Ok(Some(next)) && if ahead {
                    next.second() == t.second() + secs && next.nano() == t.nano()
                } else {
                    next.second() == now.second() + secs && next.nano() == now.nano()
                }
            },
        },
{
    if let Some(t) = last {
        lemma_timestamp_parts(t.second() + secs, t.nano());
        lemma_timestamp_parts(now.second() + secs, now.nano());
    }
}

/// When a schedule fires next: a cron schedule at the earliest next time of its expressions, and
/// never where they cannot be read; an interval schedule as its last start says, and never without
/// an interval.
pub proof fn law_next_fire(s: Store, row: ScheduleRecord, now: Timestamp)
    ensures
        row.spec_type is Cron ==> match next_fire(s, row, now) {
            Ok(Some(next)) => row.cron_expressions is Some && json_string_list(
                row.cron_expressions->0,
            ) is Ok && {
                let list = json_string_list(row.cron_expressions->0)->Ok_0;
                &&& exists|i: int|
                    0 <= i < list.len() && next_occurrence(#[trigger] list[i], now) == Some(
                        Some(next),
                    )
                &&& forall|i: int|
                    0 <= i < list.len() ==> (next_occurrence(#[trigger] list[i], now) matches Some(
                        Some(other),
                    ) ==> !next.after(other))
            },
            Ok(None) => row.cron_expressions is Some && json_string_list(row.cron_expressions->0)
                is Ok ==> forall|i: int|
                0 <= i < json_string_list(row.cron_expressions->0)->Ok_0.len() ==> !(
                next_occurrence(
                    #[trigger] json_string_list(row.cron_expressions->0)->Ok_0[i],
                    now,
                ) matches Some(Some(_))),
            Err(_) => false,
        },
        row.spec_type is Interval && (row.interval_seconds is None || row.interval_seconds == Some(
            0i64,
        )) ==> next_fire(s, row, now) == Ok::<Option<Timestamp>, Text>(None),
        row.spec_type is Interval && (row.interval_seconds matches Some(secs) && secs > 0) ==> match last_started(
            s,
            row.schedule_id,
        ) {
            Ok(last) => next_fire(s, row, now) == interval_from(
                last,
                row.interval_seconds->0 as u64,
                now,
            ),
            Err(e) => next_fire(s, row, now) == Err::<Option<Timestamp>, Text>(e),
        },
{
    if row.cron_expressions is Some && json_string_list(row.cron_expressions->0) is Ok {
        law_earliest_occurrence(json_string_list(row.cron_expressions->0)->Ok_0, now);
    }
}

// ---- what is started ------------------------------------------------------------------------

/// The arguments of a scheduled run: those of the action; none for an empty column, and a column
/// that is no object of strings is the job ID.
pub open spec fn args_scheduled(args_json: Text, column: Text) -> bool {
    if column.len() == 0 {
        args_json == "{}"@
    } else {
        match json_string_map(column) {
            Ok(args) => if args.len() == 0 {
                args_json == "{}"@
            } else {
                args_json == json_object_text(by_key(args))
            },
            Err(_) => args_json == json_object_text(by_key(seq![("job_id"@, column)])),
        }
    }
}

/// A job ID as the argument of a step: a JSON string, and `null` for an empty one.
pub open spec fn job_argument(args_json: Text, job_id: Text) -> bool {
    if job_id.len() == 0 {
        args_json == "null"@
    } else {
        args_json == json_string_text(job_id)
    }
}

/// The argument of the steps of a scheduled run: the job ID in the action's arguments, under
/// `lycus_origin_id` or else under `job_id`; where there is neither, the column as it is.
pub proof fn law_action_step_args(column: Text)
    ensures
        column.len() == 0 ==> action_step_args(column) == "null"@,
        column.len() > 0 ==> match json_string_map(column) {
            Ok(args) => match (value_of(args, "lycus_origin_id"@), value_of(args, "job_id"@)) {
                (Some(job_id), _) => job_argument(action_step_args(column), job_id),
                (None, Some(job_id)) => job_argument(action_step_args(column), job_id),
                (None, None) => job_argument(action_step_args(column), column),
            },
            Err(_) => job_argument(action_step_args(column), column),
        },
{
    reveal_strlit("job_id");
    reveal_strlit("lycus_origin_id");
    assert("job_id"@.len() != "lycus_origin_id"@.len());
    let own = seq![("job_id"@, column)];
    reveal_with_fuel(value_of, 2);
    assert(own.drop_last() =~= Seq::empty());
    assert(value_of(own, "lycus_origin_id"@) is None);
    assert(value_of(own, "job_id"@) == Some(column));
}

/// The run that a schedule starts is the last row of its table: named and queued as the action says,
/// in the schedule's namespace, under a workflow ID that makes it a run of the schedule; pending,
/// with the time as its start. Its steps are those of the definition, in order, waiting and not
/// tried yet. No other run, step or table changes.
pub proof fn law_run_triggered(
    s: Store,
    row: ScheduleRecord,
    run_id: u128,
    ids: Seq<u128>,
    now: Timestamp,
)
    ensures
        run_triggered(s, row, run_id, ids, now).1 matches Ok(event) ==> {
            let after = run_triggered(s, row, run_id, ids, now).0;
            let n = s.workflows.len() as int;
            let m = s.steps.len() as int;
            let run = after.workflows[n];
            let defs = scheduled_definition(row.action_workflow_name);
            &&& event == (EngineEventView::WorkflowCreated { run_id: uuid_text(run_id) })
            &&& after.workflows.len() == n + 1
            &&& forall|i: int| 0 <= i < n ==> (#[trigger] after.workflows[i]) == s.workflows[i]
            &&& run.run_id == uuid_text(run_id)
            &&& uuid_text(run_id).len() >= 8 ==> run.workflow_id == "schedule:"@ + row.schedule_id
                + "-"@ + uuid_text(run_id).take(8) && run_of(run, row.schedule_id)
            &&& run.name == row.action_workflow_name
            &&& run.task_queue == row.action_task_queue
            &&& run.namespace == row.namespace
            &&& run.state is Pending && run.started_at == Some(time_text(now)) && run.completed_at
                is None && run.result_json is None
            &&& args_scheduled(run.args_json, row.action_args_json)
            &&& row.timeouts matches TimeoutsColumnView::Timeouts(t) ==> same_bits(
                run.execution_timeout_secs,
                t.execution_timeout_secs,
            ) && same_bits(run.run_timeout_secs, t.run_timeout_secs) && same_bits(
                run.task_timeout_secs,
                t.task_timeout_secs,
            )
            &&& row.timeouts is Malformed ==> run.execution_timeout_secs is None
                && run.run_timeout_secs is None && run.task_timeout_secs is None
            &&& after.steps.len() == m + defs.len()
            &&& forall|i: int| 0 <= i < m ==> (#[trigger] after.steps[i]) == s.steps[i]
            &&& forall|i: int|
                0 <= i < defs.len() ==> {
                    let step = #[trigger] after.steps[m + i];
                    &&& step.id == uuid_text(ids[i])
                    &&& step.workflow_run_id == uuid_text(run_id)
                    &&& step.step_index == i
                    &&& step.activity_name == defs[i].activity_name
                    &&& step.retry_policy == PolicyColumnView::Policy(defs[i].retry_policy)
                    &&& step.timeout_secs == defs[i].timeout_secs as i64
                    &&& same_bits(step.heartbeat_timeout_secs, defs[i].heartbeat_timeout_secs)
                    &&& step.state is Pending && step.attempt == 0 && step.result_json is None
                        && step.next_retry_at is None
                    &&& step.created_at == time_text(now)
                    &&& step.args_json == action_step_args(row.action_args_json)
                }
            &&& after.schedules == s.schedules && after.activities == s.activities
                && after.namespaces == s.namespaces
        },
{
    let wf = scheduled_run(row, run_id, now);
    law_run_inserted(s, wf);
    let (with_run, r) = crate::db::workflows::workflow_inserted(s, wf);
    if r is Ok {
        let steps = scheduled_steps(row, run_id, ids);
        law_steps_created(with_run, steps, now);
        let (after, r) = run_triggered(s, row, run_id, ids, now);
        if r is Ok {
            let n = s.workflows.len() as int;
            let m = s.steps.len() as int;
            let defs = scheduled_definition(row.action_workflow_name);
            reveal_strlit("schedule:");
            reveal_strlit("-");
            if uuid_text(run_id).len() >= 8 {
                let prefix = "schedule:"@ + row.schedule_id + "-"@;
                let id = prefix + uuid_text(run_id).take(8);
                assert(after.workflows[n].workflow_id =~= id);
                assert(id.take(row.schedule_id.len() as int + 10) =~= prefix);
            }
            assert forall|i: int| 0 <= i < defs.len() implies step_holds(
                #[trigger] after.steps[m + i],
                steps[i],
                now,
            ) by {}
        }
    }
}

/// A schedule is held back where a run of it is pending or running and its policy is to skip, or to
/// buffer no more than are pending.
pub open spec fn waits(rows: Seq<WorkflowRecord>, schedule_id: Text, policy: OverlapColumn) -> bool {
    (exists|i: int|
        0 <= i < rows.len() && run_of(#[trigger] rows[i], schedule_id) && (rows[i].state is Pending
            || rows[i].state is Running)) && (policy is Skip || (policy matches OverlapColumn::Buffer(
        n,
    ) && pending_runs(rows, schedule_id) >= n))
}

/// What comes of a schedule whose time has come: nothing where it is not there, where its trigger
/// has not come after all, or where it is held back; else a run is started, after the active runs
/// have been ended where its policy is to terminate them.
pub proof fn law_schedule_processed(
    s: Store,
    schedule_id: Text,
    run_id: u128,
    ids: Seq<u128>,
    now: Timestamp,
)
    ensures
        ({
            let (after, r) = schedule_processed(s, schedule_id, run_id, ids, now);
            match with_key(s.schedules, schedule_id) {
                None => after == s && (r matches Ok(None)),
                Some(row) => match fires_now(s, row, now) {
                    Err(e) => after == s && r is Err,
                    Ok(due) => if !due || waits(s.workflows, schedule_id, row.overlap_policy) {
                        after == s && (r matches Ok(None))
                    } else {
                        let clear = if row.overlap_policy is Terminate {
                            runs_terminated(s, schedule_id, now)
                        } else {
                            s
                        };
                        after == run_triggered(clear, row, run_id, ids, now).0 && match r {
                            Ok(Some(event)) => run_triggered(clear, row, run_id, ids, now).1
                                == Ok::<EngineEventView, Text>(event),
                            Ok(None) => false,
                            Err(_) => run_triggered(clear, row, run_id, ids, now).1 is Err,
                        }
                    },
                },
            }
        }),
{
    law_active_run(s.workflows, schedule_id);
    if !has_active_run(s.workflows, schedule_id) {
        let clear = runs_terminated(s, schedule_id, now);
        assert forall|i: int| 0 <= i < s.workflows.len() implies #[trigger] clear.workflows[i]
            == s.workflows[i] by {
            law_runs_terminated(s, schedule_id, now, i);
            law_runs_of_a_schedule(s.workflows[i], schedule_id);
        }
        assert(clear.workflows =~= s.workflows);
        assert(clear == s);
    }
}

/// Schedules whose time has come are handled one after the other, each on what the ones before it
/// left.
pub proof fn law_schedules_fired(
    s: Store,
    due: Seq<Text>,
    run_ids: Seq<u128>,
    step_ids: Seq<Seq<u128>>,
    now: Timestamp,
    k: int,
)
    requires
        0 <= k < due.len(),
    ensures
        schedules_fired(s, due, run_ids, step_ids, now).1.len() == due.len(),
        schedules_fired(s, due, run_ids, step_ids, now).1[k] == schedule_processed(
            schedules_fired(s, due.take(k), run_ids, step_ids, now).0,
            due[k],
            run_ids[k],
            step_ids[k],
            now,
        ).1,
        k == due.len() - 1 ==> schedules_fired(s, due, run_ids, step_ids, now).0
            == schedule_processed(
            schedules_fired(s, due.take(k), run_ids, step_ids, now).0,
            due[k],
            run_ids[k],
            step_ids[k],
            now,
        ).0,
        schedules_fired(s, due.take(0), run_ids, step_ids, now).0 == s,
    decreases due.len(),
{
    reveal_with_fuel(schedules_fired, 2);
    let front = due.drop_last();
    if k < front.len() {
        law_schedules_fired(s, front, run_ids, step_ids, now, k);
        assert(front.take(k) =~= due.take(k));
    } else {
        assert(due.take(k) =~= front);
        if front.len() > 0 {
            law_schedules_fired(s, front, run_ids, step_ids, now, front.len() - 1);
        }
    }
}

// ---- the queue ------------------------------------------------------------------------------

/// In a queue no entry is later than one behind it, and of two at the same time the one with the lower
/// ID comes first.
pub proof fn law_queue_order(queue: Seq<EntryView>, i: int, j: int)
    requires
        in_sequence(queue),
        0 <= i < j < queue.len(),
    ensures
        !queue[i].next_fire_time.after(queue[j].next_fire_time),
        queue[i].next_fire_time == queue[j].next_fire_time ==> text_le(
            queue[i].schedule_id,
            queue[j].schedule_id,
        ),
{
    assert(crate::queue::entry_le(queue[i], queue[j]));
}

/// The schedules that are due are those whose time is not ahead, in the order of the queue; the rest
/// of the queue is ahead.
pub proof fn law_due(queue: Seq<EntryView>, now: Timestamp)
    requires
        in_sequence(queue),
    ensures
        due_ids(queue, now).len() <= queue.len(),
        forall|i: int|
            0 <= i < due_ids(queue, now).len() ==> (#[trigger] due_ids(queue, now)[i])
                == queue[i].schedule_id && !queue[i].next_fire_time.after(now),
        forall|i: int|
            due_ids(queue, now).len() <= i < queue.len() ==> (
            #[trigger] queue[i]).next_fire_time.after(now),
    decreases queue.len(),
{
    if queue.len() > 0 {
        if queue[0].next_fire_time.after(now) {
            assert forall|i: int| 0 <= i < queue.len() implies (
            #[trigger] queue[i]).next_fire_time.after(now) by {
                if i > 0 {
                    assert(crate::queue::entry_le(queue[0], queue[i]));
                }
            }
        } else {
            let rest = queue.drop_first();
            assert forall|i: int, j: int| 0 <= i < j < rest.len() implies crate::queue::entry_le(
                #[trigger] rest[i],
                #[trigger] rest[j],
            ) by {
                assert(rest[i] == queue[i + 1] && rest[j] == queue[j + 1]);
            }
            law_due(rest, now);
            let due = due_ids(queue, now);
            assert forall|i: int| 0 <= i < due.len() implies (#[trigger] due[i])
                == queue[i].schedule_id && !queue[i].next_fire_time.after(now) by {
                if i > 0 {
                    assert(due[i] == due_ids(rest, now)[i - 1]);
                    assert(rest[i - 1] == queue[i]);
                }
            }
            assert forall|i: int| due.len() <= i < queue.len() implies (
            #[trigger] queue[i]).next_fire_time.after(now) by {
                assert(rest[i - 1] == queue[i]);
            }
        }
    }
}

/// What is added to a queue is in it, with what was there before, and nothing else.
pub proof fn law_queue_holds(queue: Seq<EntryView>, e: EntryView, x: EntryView)
    requires
        in_sequence(queue),
    ensures
        entry_added(queue, e).contains(x) <==> queue.contains(x) || x == e,
{
    law_entry_added(queue, e);
    let after = entry_added(queue, e);
    queue.to_multiset_ensures();
    after.to_multiset_ensures();
    assert(after.contains(x) <==> after.to_multiset().count(x) > 0);
    assert(queue.contains(x) <==> queue.to_multiset().count(x) > 0);
}

/// A schedule that is put back waits at its next time, beside all that waited before; a schedule
/// that is gone, or has no next time, adds nothing.
pub proof fn law_requeued(s: Store, queue: Seq<EntryView>, schedule_id: Text, now: Timestamp, x: EntryView)
    requires
        in_sequence(queue),
    ensures
        ({
            let (after, r) = requeued(s, queue, schedule_id, now);
            &&& in_sequence(after)
            &&& match with_key(s.schedules, schedule_id) {
                None => after == queue && r is Ok,
                Some(row) => match next_fire(s, row, now) {
                    Err(e) => after == queue && r == Err::<(), Text>(e),
                    Ok(None) => after == queue && r is Ok,
                    Ok(Some(at)) => r is Ok && (after.contains(x) <==> queue.contains(x) || (
                    x.next_fire_time == at && x.schedule_id == schedule_id)),
                },
            }
        }),
{
    if let Some(row) = with_key(s.schedules, schedule_id) {
        if let Ok(Some(at)) = next_fire(s, row, now) {
            let e = EntryView { next_fire_time: at, schedule_id };
            law_entry_added(queue, e);
            law_queue_holds(queue, e, x);
        }
    }
}

/// A schedule's next time, as an entry of the queue.
pub open spec fn fires_at(s: Store, schedule_id: Text, now: Timestamp, x: EntryView) -> bool {
    x.schedule_id == schedule_id && (with_key(s.schedules, schedule_id) matches Some(row)
        && next_fire(s, row, now) == Ok::<Option<Timestamp>, Text>(Some(x.next_fire_time)))
}

/// Putting schedules back keeps all that waits, adds the next time of each, and adds nothing else.
pub proof fn law_all_requeued(
    s: Store,
    queue: Seq<EntryView>,
    due: Seq<Text>,
    now: Timestamp,
    x: EntryView,
)
    requires
        in_sequence(queue),
    ensures
        ({
            let (after, r) = all_requeued(s, queue, due, now);
            &&& in_sequence(after)
            &&& r.len() == due.len()
            &&& after.contains(x) <==> queue.contains(x) || exists|i: int|
                0 <= i < due.len() && fires_at(s, #[trigger] due[i], now, x)
        }),
    decreases due.len(),
{
    if due.len() > 0 {
        let front = due.drop_last();
        law_all_requeued(s, queue, front, now, x);
        let (before, earlier) = all_requeued(s, queue, front, now);
        law_requeued(s, before, due.last(), now, x);
        assert(due.last() == due[due.len() - 1]);
        if exists|i: int| 0 <= i < front.len() && fires_at(s, #[trigger] front[i], now, x) {
            let i = choose|i: int| 0 <= i < front.len() && fires_at(s, #[trigger] front[i], now, x);
            assert(due[i] == front[i]);
        }
        if exists|i: int| 0 <= i < due.len() && fires_at(s, #[trigger] due[i], now, x) {
            let i = choose|i: int| 0 <= i < due.len() && fires_at(s, #[trigger] due[i], now, x);
            if i < front.len() {
                assert(front[i] == due[i]);
            }
        }
    }
}

/// What is answered of each schedule that is put back: an error exactly where its next time cannot be
/// found.
pub proof fn law_requeue_answers(
    s: Store,
    queue: Seq<EntryView>,
    due: Seq<Text>,
    now: Timestamp,
    k: int,
)
    requires
        0 <= k < due.len(),
    ensures
        all_requeued(s, queue, due, now).1.len() == due.len(),
        match with_key(s.schedules, due[k]) {
            None => all_requeued(s, queue, due, now).1[k] is Ok,
            Some(row) => match next_fire(s, row, now) {
                Ok(_) => all_requeued(s, queue, due, now).1[k] is Ok,
                Err(e) => all_requeued(s, queue, due, now).1[k] == Err::<(), Text>(e),
            },
        },
    decreases due.len(),
{
    reveal_with_fuel(all_requeued, 2);
    let front = due.drop_last();
    if k < front.len() {
        law_requeue_answers(s, queue, front, now, k);
        assert(front[k] == due[k]);
    } else if front.len() > 0 {
        law_requeue_answers(s, queue, front, now, front.len() - 1);
    }
}

/// Firing what is due: each due schedule is handled and put back, and is told of by its ID; what was
/// ahead in the queue still waits.
pub proof fn law_due_fired(
    s: Store,
    queue: Seq<EntryView>,
    run_ids: Seq<u128>,
    step_ids: Seq<Seq<u128>>,
    now: Timestamp,
    k: int,
)
    requires
        in_sequence(queue),
        0 <= k < queue.len(),
    ensures
        ({
            let (after, again, told) = due_fired(s, queue, run_ids, step_ids, now);
            let due = due_ids(queue, now);
            &&& in_sequence(again)
            &&& after == schedules_fired(s, due, run_ids, step_ids, now).0
            &&& told.len() == due.len()
            &&& queue[k].next_fire_time.after(now) ==> again.contains(queue[k])
            &&& !queue[k].next_fire_time.after(now) ==> k < told.len() && told[k].schedule_id
                == queue[k].schedule_id && told[k].started == schedules_fired(
                s,
                due,
                run_ids,
                step_ids,
                now,
            ).1[k] && told[k].requeued == all_requeued(
                after,
                queue.skip(due.len() as int),
                due,
                now,
            ).1[k] && forall|x: EntryView| #[trigger]
                fires_at(after, queue[k].schedule_id, now, x) ==> again.contains(x)
        }),
{
    let due = due_ids(queue, now);
    law_due(queue, now);
    let (after, again, told) = due_fired(s, queue, run_ids, step_ids, now);
    let rest = queue.skip(due.len() as int);
    assert forall|i: int, j: int| 0 <= i < j < rest.len() implies crate::queue::entry_le(
        #[trigger] rest[i],
        #[trigger] rest[j],
    ) by {
        assert(rest[i] == queue[i + due.len()] && rest[j] == queue[j + due.len()]);
    }
    law_all_requeued(after, rest, due, now, queue[k]);
    if queue[k].next_fire_time.after(now) {
        if k < due.len() {
            assert(due[k] == queue[k].schedule_id);
        }
        assert(rest[k - due.len()] == queue[k]);
        assert(rest.contains(queue[k]));
    } else {
        assert(k < due.len());
        assert(due[k] == queue[k].schedule_id);
        assert forall|x: EntryView| #[trigger]
            fires_at(after, queue[k].schedule_id, now, x) implies again.contains(x) by {
            law_all_requeued(after, rest, due, now, x);
            assert(fires_at(after, due[k], now, x));
        }
    }
}

/// Noting a time for a schedule that has none yet adds it, and changes no other entry.
proof fn lemma_fire_noted(entries: Seq<EntryView>, schedule_id: Text, at: Timestamp, x: EntryView)
    requires
        forall|i: int| 0 <= i < entries.len() ==> (#[trigger] entries[i]).schedule_id != schedule_id,
    ensures
        fire_noted(entries, schedule_id, at).contains(x) <==> entries.contains(x) || (x.schedule_id
            == schedule_id && x.next_fire_time == at),
    decreases entries.len(),
{
    let e = EntryView { next_fire_time: at, schedule_id };
    let after = fire_noted(entries, schedule_id, at);
    if entries.len() == 0 {
        assert(after =~= seq![e]);
        assert(after[0] == e);
    } else {
        let rest = entries.drop_first();
        assert(entries[0].schedule_id != schedule_id);
        assert forall|i: int| 0 <= i < rest.len() implies (#[trigger] rest[i]).schedule_id
            != schedule_id by {
            assert(rest[i] == entries[i + 1]);
        }
        lemma_fire_noted(rest, schedule_id, at, x);
        let noted = fire_noted(rest, schedule_id, at);
        assert(after =~= seq![entries[0]] + noted);
        if after.contains(x) {
            let i = choose|i: int| 0 <= i < after.len() && after[i] == x;
            if i > 0 {
                assert(noted[i - 1] == x);
                assert(noted.contains(x));
                if rest.contains(x) {
                    let j = choose|j: int| 0 <= j < rest.len() && rest[j] == x;
                    assert(entries[j + 1] == x);
                }
            } else {
                assert(entries[0] == x);
            }
        }
        if entries.contains(x) {
            let i = choose|i: int| 0 <= i < entries.len() && entries[i] == x;
            if i > 0 {
                assert(rest[i - 1] == x);
                assert(rest.contains(x));
            } else {
                assert(after[0] == x);
            }
        }
        if noted.contains(x) {
            let j = choose|j: int| 0 <= j < noted.len() && noted[j] == x;
            assert(after[j + 1] == x);
        }
    }
}

/// Noting a time for a schedule that has one keeps the earlier of the two, in its place, and changes
/// no other entry.
pub proof fn law_fire_noted(entries: Seq<EntryView>, schedule_id: Text, at: Timestamp, k: int)
    requires
        0 <= k < entries.len(),
        entries[k].schedule_id == schedule_id,
        forall|i: int| 0 <= i < k ==> (#[trigger] entries[i]).schedule_id != schedule_id,
    ensures
        ({
            let after = fire_noted(entries, schedule_id, at);
            let first = entries[k].next_fire_time;
            &&& after.len() == entries.len()
            &&& after[k].schedule_id == schedule_id
            &&& first.after(at) ==> after[k].next_fire_time == at
            &&& !first.after(at) ==> after[k].next_fire_time == first
            &&& forall|i: int|
                0 <= i < entries.len() && i != k ==> #[trigger] after[i] == entries[i]
        }),
    decreases entries.len(),
{
    if k > 0 {
        let rest = entries.drop_first();
        assert(entries[0].schedule_id != schedule_id);
        assert forall|i: int| 0 <= i < k - 1 implies (#[trigger] rest[i]).schedule_id
            != schedule_id by {
            assert(rest[i] == entries[i + 1]);
        }
        law_fire_noted(rest, schedule_id, at, k - 1);
        let noted = fire_noted(rest, schedule_id, at);
        let after = fire_noted(entries, schedule_id, at);
        assert(after =~= seq![entries[0]] + noted);
        assert forall|i: int| 0 <= i < entries.len() && i != k implies #[trigger] after[i]
            == entries[i] by {
            if i > 0 {
                assert(after[i] == noted[i - 1]);
                assert(rest[i - 1] == entries[i]);
            }
        }
        assert(after[k] == noted[k - 1]);
    }
}

/// Loading the schedules: an entry stands for each schedule that has a next time, at that time, and
/// for nothing else; loading fails exactly where the next time of some schedule cannot be found.
pub proof fn law_fires(s: Store, rows: Seq<ScheduleRecord>, now: Timestamp, x: EntryView)
    requires
        unique_keys(rows),
    ensures
        fires(s, rows, now) is Ok <==> forall|i: int|
            0 <= i < rows.len() ==> next_fire(s, #[trigger] rows[i], now) is Ok,
        fires(s, rows, now) matches Ok(entries) ==> (entries.contains(x) <==> exists|i: int|
            0 <= i < rows.len() && (#[trigger] rows[i]).schedule_id == x.schedule_id && next_fire(
                s,
                rows[i],
                now,
            ) == Ok::<Option<Timestamp>, Text>(Some(x.next_fire_time))),
    decreases rows.len(),
{
    if rows.len() > 0 {
        let front = rows.drop_last();
        let row = rows.last();
        assert(row == rows[rows.len() - 1]);
        assert(unique_keys(front)) by {
            assert forall|i: int, j: int|
                0 <= i < front.len() && 0 <= j < front.len() && (#[trigger] front[i]).key() == (
                #[trigger] front[j]).key() implies i == j by {
                assert(rows[i].key() == rows[j].key());
            }
        }
        law_fires(s, front, now, x);
        assert forall|i: int| 0 <= i < front.len() implies #[trigger] front[i] == rows[i] by {}
        if fires(s, rows, now) is Ok {
            assert forall|i: int| 0 <= i < rows.len() implies next_fire(
                s,
                #[trigger] rows[i],
                now,
            ) is Ok by {
                if i < front.len() {
                    assert(front[i] == rows[i]);
                }
            }
        }
        if forall|i: int| 0 <= i < rows.len() ==> next_fire(s, #[trigger] rows[i], now) is Ok {
            assert forall|i: int| 0 <= i < front.len() implies next_fire(
                s,
                #[trigger] front[i],
                now,
            ) is Ok by {
                assert(front[i] == rows[i]);
            }
            assert(next_fire(s, rows[rows.len() - 1], now) is Ok);
        }
        if let Ok(entries) = fires(s, front, now) {
            if let Ok(Some(at)) = next_fire(s, row, now) {
                assert forall|k: int| 0 <= k < entries.len() implies (
                #[trigger] entries[k]).schedule_id != row.schedule_id by {
                    law_fires(s, front, now, entries[k]);
                    assert(entries.contains(entries[k]));
                    let i = choose|i: int|
                        0 <= i < front.len() && (#[trigger] front[i]).schedule_id
                            == entries[k].schedule_id && next_fire(s, front[i], now) == Ok::<
                            Option<Timestamp>,
                            Text,
                        >(Some(entries[k].next_fire_time));
                    assert(front[i] == rows[i]);
                    assert(rows[i].key() != rows[rows.len() - 1].key());
                }
                lemma_fire_noted(entries, row.schedule_id, at, x);
            }
            if exists|i: int|
                0 <= i < front.len() && (#[trigger] front[i]).schedule_id == x.schedule_id
                    && next_fire(s, front[i], now) == Ok::<Option<Timestamp>, Text>(
                    Some(x.next_fire_time),
                ) {
                let i = choose|i: int|
                    0 <= i < front.len() && (#[trigger] front[i]).schedule_id == x.schedule_id
                        && next_fire(s, front[i], now) == Ok::<Option<Timestamp>, Text>(
                        Some(x.next_fire_time),
                    );
                assert(rows[i] == front[i]);
            }
            if exists|i: int|
                0 <= i < rows.len() && (#[trigger] rows[i]).schedule_id == x.schedule_id
                    && next_fire(s, rows[i], now) == Ok::<Option<Timestamp>, Text>(
                    Some(x.next_fire_time),
                ) {
                let i = choose|i: int|
                    0 <= i < rows.len() && (#[trigger] rows[i]).schedule_id == x.schedule_id
                        && next_fire(s, rows[i], now) == Ok::<Option<Timestamp>, Text>(
                        Some(x.next_fire_time),
                    );
                if i < front.len() {
                    assert(front[i] == rows[i]);
                }
            }
        }
    }
}

/// A queue that is loaded holds the entries it is loaded from, and nothing else, in the order of
/// their times.
pub proof fn law_queued(entries: Seq<EntryView>, x: EntryView)
    ensures
        in_sequence(queued(entries)),
        queued(entries).contains(x) <==> entries.contains(x),
        queued(entries).len() == entries.len(),
    decreases entries.len(),
{
    if entries.len() > 0 {
        let front = entries.drop_last();
        law_queued(front, x);
        law_entry_added(queued(front), entries.last());
        law_queue_holds(queued(front), entries.last(), x);
        if entries.contains(x) {
            let i = choose|i: int| 0 <= i < entries.len() && entries[i] == x;
            if i < front.len() {
                assert(front[i] == x);
                assert(front.contains(x));
            }
        }
        if front.contains(x) {
            let i = choose|i: int| 0 <= i < front.len() && front[i] == x;
            assert(entries[i] == x);
        }
        assert(entries[entries.len() - 1] == entries.last());
    }
}

// ---- sleeping -------------------------------------------------------------------------------

/// The scheduler sleeps until the next time, but half a second at least; a year where nothing waits.
pub proof fn law_sleep_time(next: Option<Timestamp>, now: Timestamp)
    requires
        now.ordinary(),
        next matches Some(at) ==> at.ordinary(),
    ensures
        ({
            let (secs, nanos) = sleep_time(next, now);
            match next {
                None => secs == 365 * 24 * 3600 && nanos == 0,
                Some(at) => {
                    let ahead = nanos_between(at, now);
                    &&& ahead < 500_000_000 ==> secs == 0 && nanos == 500_000_000
                    &&& 500_000_000 <= ahead <= i64::MAX ==> 0 <= nanos < 1_000_000_000 && secs
                        * 1_000_000_000 + nanos == ahead
                    &&& ahead > i64::MAX ==> nanos == 0 && secs * 1_000_000_000 <= ahead < (secs
                        + 1) * 1_000_000_000
                },
            }
        }),
{
    if let Some(at) = next {
        let total = nanos_between(at, now);
        let whole = crate::clock::div_to_zero(total, 1_000_000_000);
        assert(between(at, now) == (whole, total - whole * 1_000_000_000));
    }
}

} // verus!
