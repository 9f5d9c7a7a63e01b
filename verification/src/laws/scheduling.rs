//! Schedules: when they fire, what overlap policies come to, and what is told of them.

use vstd::prelude::*;
use crate::clock::{lemma_timestamp_parts, on_calendar, MAX_SECS, MIN_SECS, Timestamp};
use crate::db::order::{lemma_arranged, lemma_filter};
use crate::db::rows::{has_key, lemma_with_key, with_key, Keyed, OverlapColumn, ScheduleRecord, Store, WorkflowRecord};
use crate::db::schedules::{schedule_found, schedule_in, schedule_rows_listed, schedules_in};
use crate::db::workflows::{listed, workflow_inserted, workflow_record, workflow_rows_listed};
use crate::json::{holds_list, json_list_text};
use crate::schedule::ScheduleView;
use crate::scheduler::{fires_now, has_active_run, held_back, interval_from, own_run, pending_runs, run_prefix, runs_terminated, schedule_processed, scheduled_run};
use crate::service::schedules::{schedule_info, schedules_told, ScheduleInfoView};
use crate::service::status::{or_default, StatusView};
use crate::service::temporal::{description, description_meant, row_asked, schedule_created, schedule_described, schedule_place, ScheduleActionView, ScheduleBodyView, ScheduleDescriptionView};
use crate::text::{first_chars, Text};
use crate::workflow::WorkflowState;

verus! {

// ---- intervals ------------------------------------------------------------------------------

/// The next time of an interval schedule is never in the past: it is now where nothing started
/// yet, and later otherwise, by no more than the interval from the later of the last start and
/// now.
pub proof fn law_interval_never_in_the_past(last: Option<Timestamp>, secs: u64, now: Timestamp)
    requires
        0 < secs <= i64::MAX,
        now.ordinary(),
        on_calendar(now.second(), now.nano()),
        last matches Some(t) ==> t.ordinary() && on_calendar(t.second(), t.nano()),
    ensures
        interval_from(last, secs, now) matches Ok(Some(next)) ==> {
            &&& next == now || next.after(now)
            &&& last is None <==> next == now
            &&& last matches Some(t) ==> {
                ||| next.second() == t.second() + secs && next.nano() == t.nano()
                ||| next.second() == now.second() + secs && next.nano() == now.nano()
            }
        },
        !(interval_from(last, secs, now) matches Ok(None)),
{
    assert(secs as i64 == secs);
    broadcast use lemma_timestamp_parts;

    if let Some(t) = last {
        if MIN_SECS <= t.second() + secs <= MAX_SECS {
            let next = Timestamp::at(t.second() + secs, t.nano());
            assert(next.second() == t.second() + secs);
        }
        if MIN_SECS <= now.second() + secs <= MAX_SECS {
            let next = Timestamp::at(now.second() + secs, now.nano());
            assert(next.second() == now.second() + secs);
        }
    }
}

// ---- overlap --------------------------------------------------------------------------------

/// A run that a schedule starts counts as a run of that schedule.
pub proof fn law_started_run_is_own(row: ScheduleRecord, run_id: u128, now: Timestamp)
    requires
        crate::ids::uuid_text(run_id).len() == 36,
    ensures
        own_run(workflow_record(scheduled_run(row, run_id, now)), row.schedule_id),
{
    let prefix = run_prefix(row.schedule_id);
    let short = first_chars(crate::ids::uuid_text(run_id), 8);
    assert((prefix + short).take(prefix.len() as int) =~= prefix);
}

/// A run counts as a run of one schedule at most.
pub proof fn law_runs_of_one_schedule(row: WorkflowRecord, a: Text, b: Text)
    requires
        own_run(row, a),
        own_run(row, b),
    ensures
        a == b,
{
    reveal_strlit("schedule:");
    reveal_strlit("-");
    let (p, q) = (run_prefix(a), run_prefix(b));
    assert(p.len() == q.len());
    assert(p =~= row.workflow_id.take(p.len() as int));
    assert(q =~= row.workflow_id.take(q.len() as int));
    assert(a =~= p.subrange(9, p.len() - 1));
    assert(b =~= q.subrange(9, q.len() - 1));
}

/// With the policy to skip, a schedule starts nothing while a run of it has not ended.
pub proof fn law_skip_starts_nothing(
    s: Store,
    schedule_id: Text,
    run_id: u128,
    ids: Seq<u128>,
    now: Timestamp,
)
    requires
        with_key(s.schedules, schedule_id) matches Some(row) && row.overlap_policy is Skip,
        has_active_run(s.workflows, schedule_id),
    ensures
        schedule_processed(s, schedule_id, run_id, ids, now).0 == s,
        !(schedule_processed(s, schedule_id, run_id, ids, now).1 matches Ok(Some(_))),
{
}

/// With the policy to buffer, a schedule starts nothing while a run of it has not ended and as many
/// runs of it as may be buffered are pending.
pub proof fn law_buffer_is_limited(
    s: Store,
    schedule_id: Text,
    n: usize,
    run_id: u128,
    ids: Seq<u128>,
    now: Timestamp,
)
    requires
        with_key(s.schedules, schedule_id) matches Some(row) && row.overlap_policy
            == OverlapColumn::Buffer(n),
        has_active_run(s.workflows, schedule_id),
        pending_runs(s.workflows, schedule_id) >= n,
    ensures
        schedule_processed(s, schedule_id, run_id, ids, now).0 == s,
        !(schedule_processed(s, schedule_id, run_id, ids, now).1 matches Ok(Some(_))),
{
}

/// With the policy to terminate, no run of the schedule from before is left that has not ended
/// when a schedule has fired; runs that had ended stay as they are.
pub proof fn law_terminate_ends_all(s: Store, schedule_id: Text, now: Timestamp)
    ensures
        !has_active_run(runs_terminated(s, schedule_id, now).workflows, schedule_id),
        forall|i: int|
            0 <= i < s.workflows.len() && !(own_run(#[trigger] s.workflows[i], schedule_id)
                && s.workflows[i].state.active()) ==> runs_terminated(
                s,
                schedule_id,
                now,
            ).workflows[i] == s.workflows[i],
{
    let after = runs_terminated(s, schedule_id, now).workflows;
    assert forall|i: int| 0 <= i < after.len() implies !(own_run(#[trigger] after[i], schedule_id)
        && after[i].state.active()) by {
        assert(after[i].workflow_id == s.workflows[i].workflow_id);
    }
}

/// A schedule that should fire starts a run unless its policy holds it back: whatever is refused then is refused by the tables.
pub proof fn law_due_schedule_starts(
    s: Store,
    schedule_id: Text,
    run_id: u128,
    ids: Seq<u128>,
    now: Timestamp,
)
    requires
        with_key(s.schedules, schedule_id) matches Some(row) && fires_now(s, row, now) == Ok::<
            bool,
            Text,
        >(true) && !held_back(s.workflows, schedule_id, row.overlap_policy),
    ensures
        !(schedule_processed(s, schedule_id, run_id, ids, now).1 matches Ok(None)),
        schedule_processed(s, schedule_id, run_id, ids, now).1 is Ok ==> has_key(
            schedule_processed(s, schedule_id, run_id, ids, now).0.workflows,
            crate::ids::uuid_text(run_id),
        ),
{
    let row = with_key(s.schedules, schedule_id)->0;
    let clear = if has_active_run(s.workflows, schedule_id) && row.overlap_policy is Terminate {
        runs_terminated(s, schedule_id, now)
    } else {
        s
    };
    let (with_run, r) = workflow_inserted(clear, scheduled_run(row, run_id, now));
    if r is Ok {
        let record = workflow_record(scheduled_run(row, run_id, now));
        crate::db::rows::lemma_push_keeps_keys(clear.workflows, record);
        crate::service::workflows::lemma_steps_keep_runs(
            with_run,
            crate::scheduler::scheduled_steps(row, run_id, ids),
            now,
        );
    }
}

// ---- namespaces -----------------------------------------------------------------------------

/// A list of schedules holds the schedules of its namespace, all of them and no others.
pub proof fn law_schedules_by_namespace(rows: Seq<ScheduleRecord>, namespace: Text, row: ScheduleRecord)
    ensures
        schedule_rows_listed(rows, namespace).contains(row) <==> rows.contains(row) && row.namespace
            == namespace,
{
    let test = |row: ScheduleRecord| row.namespace == namespace;
    let picked = rows.filter(test);
    lemma_filter(rows, test);
    lemma_arranged(
        picked,
        picked.map_values(|row: ScheduleRecord| Some(row.created_at)),
        false,
    );
    if picked.contains(row) {
        let p = choose|p: int| 0 <= p < picked.len() && picked[p] == row;
        assert(rows.contains(picked[p]));
    }
    if rows.contains(row) && row.namespace == namespace {
        let k = choose|k: int| 0 <= k < rows.len() && rows[k] == row;
        assert(test(rows[k]));
    }
}

/// A list of runs holds the runs of its namespace in the state that is asked for, all of them and
/// no others.
pub proof fn law_workflows_by_namespace(
    rows: Seq<WorkflowRecord>,
    namespace: Text,
    state: Option<WorkflowState>,
    row: WorkflowRecord,
)
    ensures
        workflow_rows_listed(rows, namespace, state).contains(row) <==> rows.contains(row)
            && row.namespace == namespace && (state matches Some(wanted) ==> row.state == wanted),
{
    let test = listed(namespace, state);
    let picked = rows.filter(test);
    lemma_filter(rows, test);
    lemma_arranged(picked, picked.map_values(|row: WorkflowRecord| row.started_at), true);
    if picked.contains(row) {
        let p = choose|p: int| 0 <= p < picked.len() && picked[p] == row;
        assert(rows.contains(picked[p]));
    }
    if rows.contains(row) && test(row) {
        let k = choose|k: int| 0 <= k < rows.len() && rows[k] == row;
        assert(test(rows[k]));
    }
}

// ---- the Temporal service -------------------------------------------------------------------

/// A schedule that was created is described as it was asked for, where the list of its cron strings
/// reads back from its text.
pub proof fn law_created_schedule_is_described(
    s: Store,
    schedule_id: Text,
    namespace: Text,
    schedule: Option<ScheduleBodyView>,
    now: Timestamp,
)
    requires
        schedule_created(s, schedule_id, namespace, schedule, now).1 is Ok,
        schedule matches Some(ScheduleBodyView { spec: Some(spec), .. }) ==> holds_list(
            json_list_text(spec.cron_string),
            spec.cron_string,
        ),
    ensures
        schedule matches Some(ScheduleBodyView {
            spec: Some(spec),
            action: Some(ScheduleActionView { start_workflow: Some(start) }),
            overlap_policy,
        }) && schedule_described(
            schedule_created(s, schedule_id, namespace, schedule, now).0,
            schedule_id,
            namespace,
        ) == Ok::<ScheduleDescriptionView, StatusView>(
            description_meant(spec, start, overlap_policy),
        ),
{
    let row = row_asked(schedule_id, namespace, schedule, now)->Ok_0;
    let after = s.schedules.push(row);
    lemma_no_place(s.schedules, schedule_id, or_default(namespace));
    assert(after.drop_last() =~= s.schedules);
    assert(after.last() == row);
    let body = schedule->0;
    assert(description(row) =~= description_meant(
        body.spec->0,
        body.action->0.start_workflow->0,
        body.overlap_policy,
    ));
}

/// A schedule that can be read is listed in its namespace, as it is; and the list is given where
/// every schedule of the namespace can be read.
pub proof fn law_schedule_is_listed(s: Store, namespace: Text, row: ScheduleRecord)
    requires
        s.schedules.contains(row),
        row.namespace == or_default(namespace),
        schedule_in(row) is Ok,
    ensures
        schedules_told(s, namespace) matches Ok(list) ==> list.contains(
            schedule_info(schedule_in(row)->Ok_0),
        ),
        (forall|k: int|
            0 <= k < s.schedules.len() && (#[trigger] s.schedules[k]).namespace == or_default(
                namespace,
            ) ==> schedule_in(s.schedules[k]) is Ok) ==> schedules_told(s, namespace) is Ok,
{
    let rows = schedule_rows_listed(s.schedules, or_default(namespace));
    law_schedules_by_namespace(s.schedules, or_default(namespace), row);
    lemma_schedules_in(rows);
    let k = choose|k: int| 0 <= k < rows.len() && rows[k] == row;
    if let Ok(list) = schedules_in(rows) {
        let told = schedules_told(s, namespace)->Ok_0;
        assert(schedule_in(rows[k]) == Ok::<ScheduleView, Text>(list[k]));
        assert(told[k] == schedule_info(list[k]));
    }
    if forall|k: int|
        0 <= k < s.schedules.len() && (#[trigger] s.schedules[k]).namespace == or_default(
            namespace,
        ) ==> schedule_in(s.schedules[k]) is Ok {
        assert forall|j: int| 0 <= j < rows.len() implies schedule_in(#[trigger] rows[j]) is Ok by {
            law_schedules_by_namespace(s.schedules, or_default(namespace), rows[j]);
            assert(rows.contains(rows[j]));
            let i = choose|i: int| 0 <= i < s.schedules.len() && s.schedules[i] == rows[j];
            assert(s.schedules[i].namespace == or_default(namespace));
        }
    }
}

/// A schedule that is found under its ID is listed in its namespace, as it was found; and it is the
/// whole list where it is the only schedule.
pub proof fn law_found_schedule_is_listed(
    s: Store,
    namespace: Text,
    schedule_id: Text,
    schedule: ScheduleView,
)
    requires
        schedule_found(s, schedule_id) == Ok::<Option<ScheduleView>, Text>(Some(schedule)),
        schedule.namespace == or_default(namespace),
    ensures
        schedules_told(s, namespace) matches Ok(list) ==> list.contains(schedule_info(schedule)),
        s.schedules.len() == 1 ==> schedules_told(s, namespace) == Ok::<
            Seq<ScheduleInfoView>,
            StatusView,
        >(seq![schedule_info(schedule)]),
{
    let row = with_key(s.schedules, schedule_id)->0;
    lemma_with_key(s.schedules, schedule_id);
    law_schedule_is_listed(s, namespace, row);
    if s.schedules.len() == 1 {
        let k = choose|k: int| 0 <= k < s.schedules.len() && s.schedules[k] == row;
        assert(k == 0);
        let ns = or_default(namespace);
        let test = |row: ScheduleRecord| row.namespace == ns;
        let picked = s.schedules.filter(test);
        reveal(Seq::filter);
        assert(s.schedules.drop_last() =~= Seq::empty());
        assert(s.schedules.drop_last().filter(test) =~= Seq::empty());
        assert(picked.len() == 1);
        lemma_arranged(
            picked,
            picked.map_values(|row: ScheduleRecord| Some(row.created_at)),
            false,
        );
        let rows = schedule_rows_listed(s.schedules, ns);
        assert(rows.len() == 1);
        lemma_schedules_in(rows);
        let list = schedules_told(s, namespace)->Ok_0;
        assert(list.len() == 1);
        assert(list =~= seq![schedule_info(schedule)]);
    }
}

/// The schedules that rows hold are as many as the rows, each that of its row; all are read where
/// each can be.
pub(crate) proof fn lemma_schedules_in(rows: Seq<ScheduleRecord>)
    ensures
        schedules_in(rows) matches Ok(list) ==> list.len() == rows.len() && forall|i: int|
            0 <= i < list.len() ==> schedule_in(rows[i]) == Ok::<ScheduleView, Text>(
                #[trigger] list[i],
            ),
        (forall|i: int| 0 <= i < rows.len() ==> schedule_in(#[trigger] rows[i]) is Ok)
            ==> schedules_in(rows) is Ok,
    decreases rows.len(),
{
    if rows.len() > 0 {
        let front = rows.drop_last();
        lemma_schedules_in(front);
        if forall|i: int| 0 <= i < rows.len() ==> schedule_in(#[trigger] rows[i]) is Ok {
            assert forall|i: int| 0 <= i < front.len() implies schedule_in(
                #[trigger] front[i],
            ) is Ok by {
                assert(front[i] == rows[i]);
            }
            assert(schedule_in(rows[rows.len() - 1]) is Ok);
        }
    }
}

/// Where no schedule has an ID, none is found with it.
proof fn lemma_no_place(rows: Seq<ScheduleRecord>, schedule_id: Text, namespace: Text)
    ensures
        !has_key(rows, schedule_id) ==> schedule_place(rows, schedule_id, namespace) is None,
    decreases rows.len(),
{
    if rows.len() > 0 && !has_key(rows, schedule_id) {
        let front = rows.drop_last();
        assert(!has_key(front, schedule_id)) by {
            if has_key(front, schedule_id) {
                let i = choose|i: int|
                    0 <= i < front.len() && (#[trigger] front[i]).key() == schedule_id;
                assert(rows[i].key() == schedule_id);
            }
        }
        lemma_no_place(front, schedule_id, namespace);
        assert(rows[rows.len() - 1].key() != schedule_id);
    }
}

} // verus!
