//! The scheduler: when schedules fire next, and what happens when one fires.

use vstd::prelude::*;
use vstd::string::*;
use crate::clock::{between, clock_shows, parse_datetime, plus_seconds, time_in, time_text, utc_now, Timestamp};
use crate::cron_times::{check_cron_match, earliest_occurrence, find_earliest_occurrence, matches_now};
use crate::db::rows::{find_row, with_key, Database, OverlapColumn, ScheduleRecord, ScheduleRow, SpecType, Store, TimeoutsColumn, TimeoutsColumnView, WorkflowRecord, WorkflowRow};
use crate::db::schedules::{args_in, read_args};
use crate::db::workflows::{cancelled, insert_workflow, workflow_inserted};
use crate::definitions::{get_scheduled_definition, scheduled_definition};
use crate::engine::{EngineEvent, EngineEventView};
use crate::ids::{fresh_ids, uuid_text, uuid_to_text};
use crate::json::{by_key, find_value, json_string_list, json_string_text, law_by_key, list_in_json, object_text, string_args, value_of, Entries, Json};
use crate::queue::{due_ids, entry_added, EntryView, FireQueue, ScheduleEntry};
use crate::schedule::Timeouts;
use crate::service::workflows::{args_object, create_steps, first_step, make_first_step, steps_created, MOST_STEPS};
use crate::text::{concat2, concat3, first_chars, outcome, strip_text_prefix, take_chars, text_at_most, text_eq, text_le, Text};
use crate::workflow::{ActivityStep, WorkflowInstance, WorkflowInstanceView, WorkflowState, WorkflowStepInstance, WorkflowStepInstanceView};

verus! {

// ---- sleeping -------------------------------------------------------------------------------

/// The shortest time that the scheduler sleeps, in nanoseconds: half a second.
pub const SHORTEST_SLEEP_NANOS: u32 = 500_000_000;

/// How long the scheduler sleeps without schedules, in seconds: a year.
pub const IDLE_SLEEP_SECS: u64 = 31_536_000;

/// The length of a time in nanoseconds fits 64 bits.
pub open spec fn fits_nanos(secs: int, nanos: int) -> bool {
    secs * 1_000_000_000 + nanos <= i64::MAX
}

/// How long the scheduler sleeps before it looks at its schedules again: until the next one fires,
/// but half a second at least; a year where there is none. Of a time whose nanoseconds do not fit
/// 64 bits the fraction of a second is dropped.
pub open spec fn sleep_time(next: Option<Timestamp>, now: Timestamp) -> (int, int) {
    let (secs, nanos) = match next {
        Some(at) => {
            let (secs, nanos) = between(at, now);
            if secs < 0 || nanos < 0 {
                (0, 0)
            } else if fits_nanos(secs, nanos) {
                (secs, nanos)
            } else {
                (secs, 0)
            }
        },
        None => (IDLE_SLEEP_SECS as int, 0),
    };
    if secs == 0 && nanos < SHORTEST_SLEEP_NANOS {
        (0, SHORTEST_SLEEP_NANOS as int)
    } else {
        (secs, nanos)
    }
}

/// How long the scheduler sleeps before it looks at its schedules again.
pub fn sleep_duration(next: &Option<Timestamp>, now: &Timestamp) -> (r: (u64, u32))
    ensures
        (r.0 as int, r.1 as int) == sleep_time(*next, *now),
{
    let (secs, nanos): (u64, u32) = match next {
        Some(at) => {
            let (s, n): (i64, i32) = at.time_since(now);
            if s < 0 || n < 0 {
                (0, 0)
            } else if s as i128 * 1_000_000_000 + n as i128 <= i64::MAX as i128 {
                (s as u64, n as u32)
            } else {
                (s as u64, 0)
            }
        },
        None => (IDLE_SLEEP_SECS, 0),
    };
    if secs == 0 && nanos < SHORTEST_SLEEP_NANOS {
        (0, SHORTEST_SLEEP_NANOS)
    } else {
        (secs, nanos)
    }
}

// ---- the runs of a schedule -----------------------------------------------------------------

/// How the workflow IDs of the runs that a schedule started begin.
pub open spec fn run_prefix(schedule_id: Text) -> Text {
    "schedule:"@ + schedule_id + "-"@
}

/// How many characters of the run ID follow in a workflow ID.
pub const RUN_ID_CHARS: usize = 8;

/// A workflow ID of a run that the schedule started: its beginning, and eight characters more.
pub open spec fn own_id(workflow_id: Text, schedule_id: Text) -> bool {
    run_prefix(schedule_id).is_prefix_of(workflow_id) && workflow_id.len() == run_prefix(
        schedule_id,
    ).len() + RUN_ID_CHARS
}

/// A run that the schedule started, by its workflow ID.
pub open spec fn own_run(row: WorkflowRecord, schedule_id: Text) -> bool {
    own_id(row.workflow_id, schedule_id)
}

/// Whether a workflow ID begins with a prefix, and has eight characters more.
fn is_own_id(workflow_id: &str, prefix: &str) -> (r: bool)
    ensures
        r == (prefix@.is_prefix_of(workflow_id@) && workflow_id@.len() == prefix@.len()
            + RUN_ID_CHARS),
{
    match strip_text_prefix(workflow_id, prefix) {
        Some(rest) => rest.as_str().unicode_len() == RUN_ID_CHARS,
        None => false,
    }
}

/// The latest start among the runs of a schedule.
pub open spec fn latest_start(rows: Seq<WorkflowRecord>, schedule_id: Text) -> Option<Text>
    decreases rows.len(),
{
    if rows.len() == 0 {
        None
    } else {
        let earlier = latest_start(rows.drop_last(), schedule_id);
        match rows.last().started_at {
            Some(at) => if own_run(rows.last(), schedule_id) && (earlier is None || text_le(
                earlier->0,
                at,
            )) {
                Some(at)
            } else {
                earlier
            },
            None => earlier,
        }
    }
}

/// When a run of a schedule started last.
pub open spec fn last_started(s: Store, schedule_id: Text) -> Result<Option<Timestamp>, Text> {
    match latest_start(s.workflows, schedule_id) {
        Some(text) => match time_in(text) {
            Ok(t) => Ok(Some(t)),
            Err(e) => Err(e),
        },
        None => Ok(None),
    }
}

/// Get the last workflow start time for a schedule.
pub fn get_last_started(db: &Database, schedule_id: &str) -> (r: Result<Option<Timestamp>, String>)
    ensures
        outcome(r) == last_started(db.deep_view(), schedule_id@),
{
    let prefix: String = concat3("schedule:", schedule_id, "-");
    let ghost rows = db.workflows.deep_view();
    let mut latest: Option<&String> = None;
    let mut i: usize = 0;
    proof {
        assert(rows.take(0) =~= Seq::empty());
    }
    while i < db.workflows.len()
        invariant
            i <= db.workflows@.len(),
            rows == db.workflows.deep_view(),
            prefix@ == run_prefix(schedule_id@),
            match latest {
                Some(text) => latest_start(rows.take(i as int), schedule_id@) == Some(text@),
                None => latest_start(rows.take(i as int), schedule_id@) is None,
            },
        decreases rows.len() - i,
    {
        proof {
            assert(rows.take(i + 1).drop_last() =~= rows.take(i as int));
            assert(rows.take(i + 1).last() == rows[i as int]);
        }
        let row: &WorkflowRow = &db.workflows[i];
        if let Some(at) = &row.started_at {
            let later: bool = match latest {
                Some(text) => text_at_most(text.as_str(), at.as_str()),
                None => true,
            };
            if later && is_own_id(row.workflow_id.as_str(), prefix.as_str()) {
                latest = Some(at);
            }
        }
        i += 1;
    }
    proof {
        assert(rows.take(i as int) =~= rows);
    }
    match latest {
        Some(text) => match parse_datetime(text.as_str()) {
            Ok(t) => Ok(Some(t)),
            Err(e) => Err(e),
        },
        None => Ok(None),
    }
}

/// Some run of the schedule has not ended.
pub open spec fn has_active_run(rows: Seq<WorkflowRecord>, schedule_id: Text) -> bool {
    exists|i: int|
        0 <= i < rows.len() && own_run(#[trigger] rows[i], schedule_id) && rows[i].state.active()
}

/// Check if there's a running workflow from this schedule.
pub fn check_running_workflow(db: &Database, schedule_id: &str) -> (r: bool)
    ensures
        r == has_active_run(db.deep_view().workflows, schedule_id@),
{
    let prefix: String = concat3("schedule:", schedule_id, "-");
    let ghost rows = db.workflows.deep_view();
    let mut i: usize = 0;
    while i < db.workflows.len()
        invariant
            i <= db.workflows@.len(),
            rows == db.workflows.deep_view(),
            prefix@ == run_prefix(schedule_id@),
            forall|j: int|
                0 <= j < i ==> !(own_run(#[trigger] rows[j], schedule_id@)
                    && rows[j].state.active()),
        decreases rows.len() - i,
    {
        let row: &WorkflowRow = &db.workflows[i];
        if row.state.is_active() && is_own_id(row.workflow_id.as_str(), prefix.as_str()) {
            proof {
                assert(own_run(rows[i as int], schedule_id@));
            }
            return true;
        }
        i += 1;
    }
    false
}

/// How many runs of a schedule are pending.
pub open spec fn pending_runs(rows: Seq<WorkflowRecord>, schedule_id: Text) -> nat {
    rows.filter(|row: WorkflowRecord| own_run(row, schedule_id) && row.state is Pending).len()
}

/// Counts the pending runs of a schedule.
pub fn count_pending_runs(db: &Database, schedule_id: &str) -> (r: usize)
    ensures
        r == pending_runs(db.deep_view().workflows, schedule_id@),
{
    let prefix: String = concat3("schedule:", schedule_id, "-");
    let ghost rows = db.workflows.deep_view();
    let ghost test = |row: WorkflowRecord| own_run(row, schedule_id@) && row.state is Pending;
    let mut count: usize = 0;
    let mut i: usize = 0;
    proof {
        reveal(Seq::filter);
        assert(rows.take(0) =~= Seq::empty());
    }
    while i < db.workflows.len()
        invariant
            i <= db.workflows@.len(),
            count <= i,
            rows == db.workflows.deep_view(),
            prefix@ == run_prefix(schedule_id@),
            test == (|row: WorkflowRecord| own_run(row, schedule_id@) && row.state is Pending),
            count == rows.take(i as int).filter(test).len(),
        decreases rows.len() - i,
    {
        proof {
            reveal(Seq::filter);
            assert(rows.take(i + 1).drop_last() =~= rows.take(i as int));
            assert(rows.take(i + 1).last() == rows[i as int]);
        }
        let row: &WorkflowRow = &db.workflows[i];
        if row.state == WorkflowState::Pending && is_own_id(
            row.workflow_id.as_str(),
            prefix.as_str(),
        ) {
            count += 1;
        }
        i += 1;
    }
    proof {
        assert(rows.take(i as int) =~= rows);
    }
    count
}

/// The tables with every run of a schedule cancelled that has not ended.
pub open spec fn runs_terminated(s: Store, schedule_id: Text, now: Timestamp) -> Store {
    Store {
        workflows: s.workflows.map_values(
            |row: WorkflowRecord|
                if own_run(row, schedule_id) {
                    cancelled(row, time_text(now))
                } else {
                    row
                },
        ),
        ..s
    }
}

/// Terminate existing workflows from this schedule.
pub fn terminate_existing(db: &mut Database, schedule_id: &str, now: &Timestamp)
    ensures
        final(db).deep_view() == runs_terminated(old(db).deep_view(), schedule_id@, *now),
{
    let prefix: String = concat3("schedule:", schedule_id, "-");
    let ghost before = db.workflows.deep_view();
    let ghost after = runs_terminated(db.deep_view(), schedule_id@, *now).workflows;
    let mut i: usize = 0;
    while i < db.workflows.len()
        invariant
            i <= db.workflows@.len(),
            db.workflows@.len() == before.len(),
            prefix@ == run_prefix(schedule_id@),
            before == old(db).workflows.deep_view(),
            after == runs_terminated(old(db).deep_view(), schedule_id@, *now).workflows,
            db.namespaces == old(db).namespaces,
            db.schedules == old(db).schedules,
            db.steps == old(db).steps,
            db.activities == old(db).activities,
            forall|j: int| 0 <= j < i ==> #[trigger] db.workflows@[j].deep_view() == after[j],
            forall|j: int|
                i <= j < before.len() ==> #[trigger] db.workflows@[j].deep_view() == before[j],
        decreases before.len() - i,
    {
        proof {
            assert(db.workflows@[i as int].deep_view() == before[i as int]);
        }
        if db.workflows[i].state.is_active() && is_own_id(
            db.workflows[i].workflow_id.as_str(),
            prefix.as_str(),
        ) {
            let row: &mut WorkflowRow = &mut db.workflows[i];
            row.state = WorkflowState::Cancelled;
            row.completed_at = Some(crate::clock::format_datetime(now));
        }
        i += 1;
    }
    proof {
        assert(db.workflows.deep_view() =~= after);
    }
}

// ---- the next time --------------------------------------------------------------------------

/// The cron expressions of a schedule, where its column is a JSON list.
pub open spec fn cron_list(row: ScheduleRecord) -> Option<Seq<Text>> {
    match row.cron_expressions {
        Some(text) => match json_string_list(text) {
            Ok(list) => Some(list),
            Err(_) => None,
        },
        None => None,
    }
}

fn read_cron_list(row: &ScheduleRow) -> (r: Option<Vec<String>>)
    ensures
        r.deep_view() == cron_list(row.deep_view()),
{
    match &row.cron_expressions {
        Some(text) => match list_in_json(text.as_str()) {
            Ok(list) => Some(list),
            Err(_) => None,
        },
        None => None,
    }
}

/// The next time that a cron schedule fires: the earliest occurrence over all its expressions.
pub open spec fn next_cron_fire(row: ScheduleRecord, now: Timestamp) -> Option<Timestamp> {
    match cron_list(row) {
        Some(list) => earliest_occurrence(list, now),
        None => None,
    }
}

/// Calculate the next fire time for a cron schedule. It comes after `now`.
pub fn calculate_next_cron_fire(row: &ScheduleRow, now: &Timestamp) -> (r: Option<Timestamp>)
    ensures
        r == next_cron_fire(row.deep_view(), *now),
        r matches Some(next) ==> next.after(*now),
{
    match read_cron_list(row) {
        Some(list) => find_earliest_occurrence(&list, now),
        None => None,
    }
}

/// The next time after a last start at which an interval of `secs` seconds has passed: from the
/// last start, or from now where that has passed; now where nothing started. None without an
/// interval. A time that leaves the calendar is an error.
pub open spec fn interval_from(last: Option<Timestamp>, secs: u64, now: Timestamp) -> Result<
    Option<Timestamp>,
    Text,
> {
    match last {
        Some(last) => match plus_seconds(last, secs as i64 as int) {
            Some(next) => if next.after(now) {
                Ok(Some(next))
            } else {
                match plus_seconds(now, secs as i64 as int) {
                    Some(next) => Ok(Some(next)),
                    None => Err("next fire time is outside the calendar"@),
                }
            },
            None => Err("next fire time is outside the calendar"@),
        },
        None => Ok(Some(now)),
    }
}

/// The next time for an interval, given the last start.
pub fn next_interval_fire(last: &Option<Timestamp>, secs: u64, now: &Timestamp) -> (r: Result<
    Option<Timestamp>,
    String,
>)
    ensures
        outcome(r) == interval_from(*last, secs, *now),
{
    match last {
        Some(last) => match last.plus(secs as i64) {
            Some(next) => {
                if next.is_after(now) {
                    Ok(Some(next))
                } else {
                    match now.plus(secs as i64) {
                        Some(next) => Ok(Some(next)),
                        None => Err("next fire time is outside the calendar".to_owned()),
                    }
                }
            },
            None => Err("next fire time is outside the calendar".to_owned()),
        },
        None => Ok(Some(*now)),
    }
}

/// A schedule's interval in seconds; zero where it has none.
pub open spec fn interval_of(row: ScheduleRecord) -> u64 {
    match row.interval_seconds {
        Some(secs) => secs as u64,
        None => 0,
    }
}

/// The next time that an interval schedule fires.
pub open spec fn next_interval(s: Store, row: ScheduleRecord, now: Timestamp) -> Result<
    Option<Timestamp>,
    Text,
> {
    if interval_of(row) == 0 {
        Ok(None)
    } else {
        match last_started(s, row.schedule_id) {
            Err(e) => Err(e),
            Ok(last) => interval_from(last, interval_of(row), now),
        }
    }
}

/// Calculate the next fire time for an interval schedule.
pub fn calculate_next_interval_fire(db: &Database, row: &ScheduleRow, now: &Timestamp) -> (r:
    Result<Option<Timestamp>, String>)
    ensures
        outcome(r) == next_interval(db.deep_view(), row.deep_view(), *now),
{
    let secs: u64 = match row.interval_seconds {
        Some(secs) => secs as u64,
        None => 0,
    };
    if secs == 0 {
        return Ok(None);
    }
    match get_last_started(db, row.schedule_id.as_str()) {
        Err(e) => Err(e),
        Ok(last) => next_interval_fire(&last, secs, now),
    }
}

/// The next time that a schedule fires.
pub open spec fn next_fire(s: Store, row: ScheduleRecord, now: Timestamp) -> Result<
    Option<Timestamp>,
    Text,
> {
    match row.spec_type {
        SpecType::Cron => Ok(next_cron_fire(row, now)),
        SpecType::Interval => next_interval(s, row, now),
    }
}

fn calculate_next_fire(db: &Database, row: &ScheduleRow, now: &Timestamp) -> (r: Result<
    Option<Timestamp>,
    String,
>)
    ensures
        outcome(r) == next_fire(db.deep_view(), row.deep_view(), *now),
{
    match row.spec_type {
        SpecType::Cron => Ok(calculate_next_cron_fire(row, now)),
        SpecType::Interval => calculate_next_interval_fire(db, row, now),
    }
}

// ---- the queue ------------------------------------------------------------------------------

/// The entries with the time of a schedule noted; where the schedule is there already, the earlier
/// time stays.
pub open spec fn fire_noted(entries: Seq<EntryView>, schedule_id: Text, at: Timestamp) -> Seq<EntryView>
    decreases entries.len(),
{
    if entries.len() == 0 {
        seq![EntryView { next_fire_time: at, schedule_id }]
    } else if entries[0].schedule_id == schedule_id {
        if entries[0].next_fire_time.after(at) {
            seq![EntryView { next_fire_time: at, schedule_id }] + entries.drop_first()
        } else {
            entries
        }
    } else {
        seq![entries[0]] + fire_noted(entries.drop_first(), schedule_id, at)
    }
}

/// The times of the schedules in rows that fire at all, or the message on the first that fails.
pub open spec fn fires(s: Store, rows: Seq<ScheduleRecord>, now: Timestamp) -> Result<Seq<EntryView>, Text>
    decreases rows.len(),
{
    if rows.len() == 0 {
        Ok(Seq::empty())
    } else {
        match fires(s, rows.drop_last(), now) {
            Err(e) => Err(e),
            Ok(entries) => match next_fire(s, rows.last(), now) {
                Err(e) => Err(e),
                Ok(None) => Ok(entries),
                Ok(Some(at)) => Ok(fire_noted(entries, rows.last().schedule_id, at)),
            },
        }
    }
}

/// The queue that holds entries.
pub open spec fn queued(entries: Seq<EntryView>) -> Seq<EntryView>
    decreases entries.len(),
{
    if entries.len() == 0 {
        Seq::empty()
    } else {
        entry_added(queued(entries.drop_last()), entries.last())
    }
}

proof fn lemma_fires_prefix(s: Store, rows: Seq<ScheduleRecord>, now: Timestamp, n: int)
    requires
        0 <= n <= rows.len(),
        fires(s, rows.take(n), now) is Err,
    ensures
        fires(s, rows, now) == fires(s, rows.take(n), now),
    decreases rows.len(),
{
    if n == rows.len() {
        assert(rows.take(n) =~= rows);
    } else {
        assert(rows.drop_last().take(n) =~= rows.take(n));
        lemma_fires_prefix(s, rows.drop_last(), now, n);
    }
}

proof fn lemma_fire_noted(entries: Seq<EntryView>, schedule_id: Text, at: Timestamp, p: int)
    requires
        0 <= p <= entries.len(),
        forall|i: int| 0 <= i < p ==> (#[trigger] entries[i]).schedule_id != schedule_id,
        p < entries.len() ==> entries[p].schedule_id == schedule_id,
    ensures
        fire_noted(entries, schedule_id, at) == if p == entries.len() {
            entries.push(EntryView { next_fire_time: at, schedule_id })
        } else if entries[p].next_fire_time.after(at) {
            entries.update(p, EntryView { next_fire_time: at, schedule_id })
        } else {
            entries
        },
    decreases entries.len(),
{
    let e = EntryView { next_fire_time: at, schedule_id };
    if entries.len() == 0 {
        assert(entries.push(e) =~= seq![e]);
    } else if p == 0 {
        assert(entries.update(0, e) =~= seq![e] + entries.drop_first());
    } else {
        let rest = entries.drop_first();
        assert(entries[0].schedule_id != schedule_id);
        assert forall|i: int| 0 <= i < p - 1 implies (#[trigger] rest[i]).schedule_id
            != schedule_id by {
            assert(rest[i] == entries[i + 1]);
        }
        lemma_fire_noted(rest, schedule_id, at, p - 1);
        assert(seq![entries[0]] + rest =~= entries);
        if p == entries.len() {
            assert(seq![entries[0]] + rest.push(e) =~= entries.push(e));
        } else {
            assert(seq![entries[0]] + rest.update(p - 1, e) =~= entries.update(p, e));
        }
    }
}

/// Notes the time of a schedule.
fn note_fire(entries: &mut Vec<ScheduleEntry>, schedule_id: &str, at: Timestamp)
    ensures
        final(entries).deep_view() == fire_noted(old(entries).deep_view(), schedule_id@, at),
{
    let ghost before = entries.deep_view();
    let mut p: usize = 0;
    while p < entries.len() && !text_eq(entries[p].schedule_id.as_str(), schedule_id)
        invariant
            p <= entries@.len(),
            before == entries.deep_view(),
            forall|i: int| 0 <= i < p ==> (#[trigger] before[i]).schedule_id != schedule_id@,
        decreases entries@.len() - p,
    {
        p += 1;
    }
    proof {
        lemma_fire_noted(before, schedule_id@, at, p as int);
    }
    if p == entries.len() {
        entries.push(
            ScheduleEntry { next_fire_time: at, schedule_id: schedule_id.to_owned() },
        );
        proof {
            assert(entries.deep_view() =~= before.push(
                EntryView { next_fire_time: at, schedule_id: schedule_id@ },
            ));
        }
    } else if entries[p].next_fire_time.is_after(&at) {
        let entry: &mut ScheduleEntry = &mut entries[p];
        entry.next_fire_time = at;
        proof {
            assert(entries.deep_view() =~= before.update(
                p as int,
                EntryView { next_fire_time: at, schedule_id: schedule_id@ },
            ));
        }
    }
}

/// Reload all schedules from the tables and rebuild the queue; where one fails the queue stays as
/// it is.
pub fn reload_all_schedules(db: &Database, queue: &mut FireQueue, now: &Timestamp) -> (r: Result<
    (),
    String,
>)
    requires
        old(queue).wf(),
    ensures
        final(queue).wf(),
        match fires(db.deep_view(), db.deep_view().schedules, *now) {
            Ok(entries) => r is Ok && final(queue).deep_view() == queued(entries),
            Err(e) => outcome(r) == Err::<(), Text>(e) && final(queue).deep_view() == old(queue).deep_view(),
        },
{
    let ghost s = db.deep_view();
    let ghost rows = db.schedules.deep_view();
    let mut entries: Vec<ScheduleEntry> = Vec::new();
    let mut i: usize = 0;
    proof {
        assert(rows.take(0) =~= Seq::empty());
        assert(entries.deep_view() =~= Seq::empty());
    }
    while i < db.schedules.len()
        invariant
            i <= db.schedules@.len(),
            s == db.deep_view(),
            rows == db.schedules.deep_view(),
            fires(s, rows.take(i as int), *now) == Ok::<Seq<EntryView>, Text>(entries.deep_view()),
            *queue == *old(queue),
            old(queue).wf(),
        decreases rows.len() - i,
    {
        proof {
            assert(rows.take(i + 1).drop_last() =~= rows.take(i as int));
            assert(rows.take(i + 1).last() == rows[i as int]);
        }
        match calculate_next_fire(db, &db.schedules[i], now) {
            Err(e) => {
                proof {
                    lemma_fires_prefix(s, rows, *now, i + 1);
                }
                return Err(e);
            },
            Ok(None) => {},
            Ok(Some(at)) => {
                note_fire(&mut entries, db.schedules[i].schedule_id.as_str(), at);
            },
        }
        i += 1;
    }
    proof {
        assert(rows.take(i as int) =~= rows);
    }
    queue.clear();
    let ghost all = entries.deep_view();
    let mut k: usize = 0;
    proof {
        assert(all.take(0) =~= Seq::empty());
    }
    while k < entries.len()
        invariant
            k <= entries@.len(),
            all == entries.deep_view(),
            queue.wf(),
            queue.deep_view() == queued(all.take(k as int)),
        decreases entries@.len() - k,
    {
        proof {
            assert(all.take(k + 1).drop_last() =~= all.take(k as int));
            assert(all.take(k + 1).last() == all[k as int]);
        }
        let entry: ScheduleEntry = ScheduleEntry {
            next_fire_time: entries[k].next_fire_time,
            schedule_id: entries[k].schedule_id.clone(),
        };
        proof {
            assert(entry.deep_view() =~= all[k as int]);
        }
        queue.push(entry);
        k += 1;
    }
    proof {
        assert(all.take(k as int) =~= all);
    }
    Ok(())
}

/// The queue with a schedule that fired added for its next time, or the message that it failed
/// with; a schedule that is gone or fires no more is not added.
pub open spec fn requeued(s: Store, queue: Seq<EntryView>, schedule_id: Text, now: Timestamp) -> (
    Seq<EntryView>,
    Result<(), Text>,
) {
    match with_key(s.schedules, schedule_id) {
        None => (queue, Ok(())),
        Some(row) => match next_fire(s, row, now) {
            Err(e) => (queue, Err(e)),
            Ok(None) => (queue, Ok(())),
            Ok(Some(at)) => (
                entry_added(queue, EntryView { next_fire_time: at, schedule_id }),
                Ok(()),
            ),
        },
    }
}

/// Update the next fire time for a single schedule in the queue.
pub fn update_schedule_next_fire(
    db: &Database,
    schedule_id: &str,
    queue: &mut FireQueue,
    now: &Timestamp,
) -> (r: Result<(), String>)
    requires
        old(queue).wf(),
    ensures
        final(queue).wf(),
        (final(queue).deep_view(), outcome(r)) == requeued(
            db.deep_view(),
            old(queue).deep_view(),
            schedule_id@,
            *now,
        ),
{
    match find_row(&db.schedules, schedule_id) {
        None => Ok(()),
        Some(p) => match calculate_next_fire(db, &db.schedules[p], now) {
            Err(e) => Err(e),
            Ok(None) => Ok(()),
            Ok(Some(at)) => {
                queue.push(
                    ScheduleEntry { next_fire_time: at, schedule_id: schedule_id.to_owned() },
                );
                Ok(())
            },
        },
    }
}

// ---- firing ---------------------------------------------------------------------------------

/// An interval of `secs` seconds has passed since the last start of a run; or none ever started.
pub open spec fn interval_passed(s: Store, schedule_id: Text, secs: u64, now: Timestamp) -> Result<
    bool,
    Text,
> {
    match last_started(s, schedule_id) {
        Err(e) => Err(e),
        Ok(Some(last)) => Ok(between(now, last).0 >= secs as i64),
        Ok(None) => Ok(true),
    }
}

/// Check if an interval schedule should fire based on last workflow start time.
pub fn check_interval(db: &Database, schedule_id: &str, interval_secs: u64, now: &Timestamp) -> (r:
    Result<bool, String>)
    ensures
        outcome(r) == interval_passed(db.deep_view(), schedule_id@, interval_secs, *now),
{
    match get_last_started(db, schedule_id) {
        Err(e) => Err(e),
        Ok(Some(last)) => Ok(now.seconds_since(&last) >= interval_secs as i64),
        Ok(None) => Ok(true),
    }
}

/// Some expression matches the current time.
pub open spec fn some_match(expressions: Seq<Text>, now: Timestamp) -> bool {
    exists|i: int| 0 <= i < expressions.len() && matches_now(#[trigger] expressions[i], now)
}

/// A schedule should fire at `now`.
pub open spec fn fires_now(s: Store, row: ScheduleRecord, now: Timestamp) -> Result<bool, Text> {
    match row.spec_type {
        SpecType::Cron => match cron_list(row) {
            Some(list) => Ok(some_match(list, now)),
            None => Ok(false),
        },
        SpecType::Interval => match row.interval_seconds {
            Some(secs) => interval_passed(s, row.schedule_id, secs as u64, now),
            None => Ok(false),
        },
    }
}

/// Whether a schedule should fire at `now`.
pub fn should_fire(db: &Database, row: &ScheduleRow, now: &Timestamp) -> (r: Result<bool, String>)
    ensures
        outcome(r) == fires_now(db.deep_view(), row.deep_view(), *now),
{
    match row.spec_type {
        SpecType::Cron => match read_cron_list(row) {
            Some(list) => Ok(check_cron_match(&list, now)),
            None => Ok(false),
        },
        SpecType::Interval => match row.interval_seconds {
            Some(secs) => check_interval(db, row.schedule_id.as_str(), secs as u64, now),
            None => Ok(false),
        },
    }
}

/// The arguments for a job; none without a job.
pub open spec fn job_entries(job_id: Text) -> Entries {
    if job_id.len() == 0 {
        Seq::empty()
    } else {
        seq![("job_id"@, job_id)]
    }
}

/// The arguments that a schedule passes to the workflow: those in its column, or those for the job
/// that its column names in plain text.
pub open spec fn action_args(column: Text) -> Entries {
    match args_in(column) {
        Ok(args) => args,
        Err(_) => job_entries(column),
    }
}

/// The column of the arguments for a job; empty without a job.
pub open spec fn job_column(job_id: Text) -> Text {
    if job_id.len() == 0 {
        Seq::empty()
    } else {
        object_text(job_entries(job_id))
    }
}

/// The job that arguments name: its origin for the job of an agent.
pub open spec fn job_in(args: Entries) -> Option<Text> {
    match value_of(args, "lycus_origin_id"@) {
        Some(job_id) => Some(job_id),
        None => value_of(args, "job_id"@),
    }
}

/// The argument of a step: the job that the arguments name, or the text of the column; nothing
/// without a job.
pub open spec fn action_step_args(column: Text) -> Text {
    let job_id = match job_in(action_args(column)) {
        Some(job_id) => job_id,
        None => column,
    };
    if job_id.len() == 0 {
        "null"@
    } else {
        json_string_text(job_id)
    }
}

/// Makes the arguments for a job.
fn make_job_entries(job_id: &str) -> (r: Vec<(String, String)>)
    ensures
        r.deep_view() == job_entries(job_id@),
{
    let mut entries: Vec<(String, String)> = Vec::new();
    if !job_id.is_empty() {
        entries.push(("job_id".to_owned(), job_id.to_owned()));
        proof {
            assert(entries.deep_view() =~= seq![("job_id"@, job_id@)]);
        }
    } else {
        proof {
            assert(entries.deep_view() =~= Seq::empty());
        }
    }
    entries
}

/// Makes the column of the arguments for a job, which holds them.
pub(crate) fn make_job_column(job_id: &str) -> (r: String)
    ensures
        r@ == job_column(job_id@),
        args_in(r@) == Ok::<Entries, Text>(job_entries(job_id@)),
{
    if job_id.is_empty() {
        String::new()
    } else {
        let entries: Vec<(String, String)> = make_job_entries(job_id);
        proof {
            law_by_key(entries.deep_view(), Seq::empty());
        }
        Json::object(&entries).to_text()
    }
}

/// Reads the arguments that a schedule passes to the workflow.
fn read_action_args(column: &str) -> (r: Vec<(String, String)>)
    ensures
        r.deep_view() == action_args(column@),
{
    match read_args(column) {
        Ok(args) => args,
        Err(_) => make_job_entries(column),
    }
}

/// Makes the argument of a step.
fn make_action_step_args(column: &str, args: &Vec<(String, String)>) -> (r: Json)
    requires
        args.deep_view() == action_args(column@),
    ensures
        r.deep_view() == action_step_args(column@),
{
    let job_id: String = match find_value(args, "lycus_origin_id") {
        Some(job_id) => job_id,
        None => match find_value(args, "job_id") {
            Some(job_id) => job_id,
            None => column.to_owned(),
        },
    };
    if job_id.as_str().is_empty() {
        Json::null()
    } else {
        Json::string(job_id.as_str())
    }
}

/// The run that a schedule starts at `now`.
pub open spec fn scheduled_run(row: ScheduleRecord, run_id: u128, now: Timestamp) -> WorkflowInstanceView {
    WorkflowInstanceView {
        run_id,
        workflow_id: run_prefix(row.schedule_id) + first_chars(
            uuid_text(run_id),
            RUN_ID_CHARS as nat,
        ),
        name: row.action_workflow_name,
        task_queue: row.action_task_queue,
        state: WorkflowState::Pending,
        args_json: args_object(action_args(row.action_args_json)),
        result_json: None,
        timeouts: match row.timeouts {
            TimeoutsColumnView::Timeouts(timeouts) => timeouts,
            TimeoutsColumnView::Malformed(_) => Timeouts::unlimited(),
        },
        started_at: Some(now),
        completed_at: None,
        namespace: row.namespace,
    }
}

/// The steps of the run that a schedule starts; each gets the job.
pub open spec fn scheduled_steps(row: ScheduleRecord, run_id: u128, ids: Seq<u128>) -> Seq<
    WorkflowStepInstanceView,
> {
    let defs = scheduled_definition(row.action_workflow_name);
    Seq::new(
        defs.len(),
        |i: int|
            first_step(
                run_id,
                ids[i],
                i,
                defs[i],
                action_step_args(row.action_args_json),
            ),
    )
}

/// The tables after a schedule started a run, and the outcome, with the engine told of the run.
pub open spec fn run_triggered(
    s: Store,
    row: ScheduleRecord,
    run_id: u128,
    ids: Seq<u128>,
    now: Timestamp,
) -> (Store, Result<EngineEventView, Text>) {
    let (with_run, r) = workflow_inserted(s, scheduled_run(row, run_id, now));
    match r {
        Err(e) => (with_run, Err(e)),
        Ok(_) => {
            let (after, r) = steps_created(with_run, scheduled_steps(row, run_id, ids), now);
            match r {
                Err((_, e)) => (after, Err(e)),
                Ok(_) => (
                    after,
                    Ok(EngineEventView::WorkflowCreated { run_id: uuid_text(run_id) }),
                ),
            }
        },
    }
}

/// Start a new workflow triggered by a schedule, given by its row, with the given IDs for the run
/// and its steps. The run counts as a run of the schedule, and has the schedule's arguments.
pub fn start_schedule_workflow_at(
    db: &mut Database,
    place: usize,
    run_id: u128,
    step_ids: &Vec<u128>,
    now: &Timestamp,
) -> (r: Result<EngineEvent, String>)
    requires
        place < old(db).schedules@.len(),
        step_ids@.len() >= MOST_STEPS,
    ensures
        (final(db).deep_view(), outcome(r)) == run_triggered(
            old(db).deep_view(),
            old(db).deep_view().schedules[place as int],
            run_id,
            step_ids@,
            *now,
        ),
        ({
            let row = old(db).deep_view().schedules[place as int];
            let run = scheduled_run(row, run_id, *now);
            &&& own_id(run.workflow_id, row.schedule_id)
            &&& string_args(run.args_json) == by_key(action_args(row.action_args_json))
        }),
{
    let ghost record = db.schedules@[place as int].deep_view();
    let row: &ScheduleRow = &db.schedules[place];
    let run_text: String = uuid_to_text(run_id);
    let short: String = take_chars(run_text.as_str(), RUN_ID_CHARS);
    let front: String = concat3("schedule:", row.schedule_id.as_str(), "-");
    let name: String = row.action_workflow_name.clone();
    let column: String = row.action_args_json.clone();
    let args: Vec<(String, String)> = read_action_args(column.as_str());
    let workflow: WorkflowInstance = WorkflowInstance {
        run_id,
        workflow_id: concat2(front.as_str(), short.as_str()),
        name: name.clone(),
        task_queue: row.action_task_queue.clone(),
        state: WorkflowState::Pending,
        args_json: if args.len() == 0 {
            Json::empty_object()
        } else {
            Json::object(&args)
        },
        result_json: None,
        timeouts: match &row.timeouts {
            TimeoutsColumn::Timeouts(timeouts) => *timeouts,
            TimeoutsColumn::Malformed(_) => Timeouts::default(),
        },
        started_at: Some(*now),
        completed_at: None,
        namespace: row.namespace.clone(),
    };
    proof {
        assert(workflow.deep_view() =~= scheduled_run(record, run_id, *now));
        let prefix = run_prefix(record.schedule_id);
        assert(workflow.workflow_id@.take(prefix.len() as int) =~= prefix);
    }
    if let Err(e) = insert_workflow(db, &workflow) {
        return Err(e);
    }
    let defs: Vec<ActivityStep> = get_scheduled_definition(name.as_str());
    let ghost asked = scheduled_steps(record, run_id, step_ids@);
    let mut steps: Vec<WorkflowStepInstance> = Vec::new();
    let mut i: usize = 0;
    while i < defs.len()
        invariant
            i <= defs@.len(),
            defs@.len() <= MOST_STEPS <= step_ids@.len(),
            name@ == record.action_workflow_name,
            column@ == record.action_args_json,
            args.deep_view() == action_args(column@),
            defs.deep_view() == scheduled_definition(name@),
            asked == scheduled_steps(record, run_id, step_ids@),
            asked.len() == defs@.len(),
            steps@.len() == i,
            forall|j: int| 0 <= j < i ==> (#[trigger] steps@[j]).deep_view() == asked[j],
        decreases defs@.len() - i,
    {
        proof {
            assert(defs.deep_view()[i as int] == defs@[i as int].deep_view());
        }
        let args_json: Json = make_action_step_args(column.as_str(), &args);
        steps.push(make_first_step(run_id, step_ids[i], i, &defs[i], args_json));
        i += 1;
    }
    proof {
        assert(steps.deep_view() =~= asked);
    }
    match create_steps(db, &steps, now) {
        Ok(_) => Ok(EngineEvent::WorkflowCreated { run_id: run_text }),
        Err((_, e)) => Err(e),
    }
}

/// The policy holds a schedule back that should fire: a run of it has not ended, and the policy is to
/// skip, or as many runs as may be buffered are pending.
pub open spec fn held_back(
    rows: Seq<WorkflowRecord>,
    schedule_id: Text,
    policy: OverlapColumn,
) -> bool {
    has_active_run(rows, schedule_id) && match policy {
        OverlapColumn::Skip => true,
        OverlapColumn::Buffer(n) => pending_runs(rows, schedule_id) >= n,
        OverlapColumn::Terminate => false,
    }
}

/// The tables after a schedule was looked at, and the outcome: the run that it started, if any. A
/// schedule that is gone, should not fire or is held back by its policy starts none. Where a run of
/// it has not ended, the policy to terminate cancels all such runs first.
pub open spec fn schedule_processed(
    s: Store,
    schedule_id: Text,
    run_id: u128,
    ids: Seq<u128>,
    now: Timestamp,
) -> (Store, Result<Option<EngineEventView>, Text>) {
    match with_key(s.schedules, schedule_id) {
        None => (s, Ok(None)),
        Some(row) => match fires_now(s, row, now) {
            Err(e) => (s, Err(e)),
            Ok(false) => (s, Ok(None)),
            Ok(true) => {
                if held_back(s.workflows, schedule_id, row.overlap_policy) {
                    (s, Ok(None))
                } else {
                    let clear = if has_active_run(s.workflows, schedule_id)
                        && row.overlap_policy is Terminate {
                        runs_terminated(s, schedule_id, now)
                    } else {
                        s
                    };
                    let (after, r) = run_triggered(clear, row, run_id, ids, now);
                    match r {
                        Ok(event) => (after, Ok(Some(event))),
                        Err(e) => (after, Err(e)),
                    }
                }
            },
        },
    }
}

/// Process a single schedule at `now`: check if it should fire, handle overlap policy, and start
/// the workflow with the given IDs for the run and its steps.
pub fn process_schedule_at(
    db: &mut Database,
    schedule_id: &str,
    run_id: u128,
    step_ids: &Vec<u128>,
    now: &Timestamp,
) -> (r: Result<Option<EngineEvent>, String>)
    requires
        step_ids@.len() >= MOST_STEPS,
    ensures
        (final(db).deep_view(), outcome(r)) == schedule_processed(
            old(db).deep_view(),
            schedule_id@,
            run_id,
            step_ids@,
            *now,
        ),
{
    let place: usize = match find_row(&db.schedules, schedule_id) {
        None => return Ok(None),
        Some(p) => p,
    };
    match should_fire(db, &db.schedules[place], now) {
        Err(e) => return Err(e),
        Ok(false) => return Ok(None),
        Ok(true) => {},
    }
    let policy: OverlapColumn = db.schedules[place].overlap_policy;
    if check_running_workflow(db, schedule_id) {
        match policy {
            OverlapColumn::Skip => return Ok(None),
            OverlapColumn::Terminate => terminate_existing(db, schedule_id, now),
            OverlapColumn::Buffer(n) => {
                if count_pending_runs(db, schedule_id) >= n {
                    return Ok(None);
                }
            },
        }
    }
    match start_schedule_workflow_at(db, place, run_id, step_ids, now) {
        Ok(event) => Ok(Some(event)),
        Err(e) => Err(e),
    }
}

/// Process a single schedule: check if it should fire, handle overlap policy, and start the
/// workflow.
pub fn process_schedule(db: &mut Database, schedule_id: &str) -> (r: Result<
    Option<EngineEvent>,
    String,
>)
    ensures
        exists|run_id: u128, ids: Seq<u128>, now: Timestamp|
            clock_shows(now) && (final(db).deep_view(), outcome(r)) == #[trigger] schedule_processed(
                old(db).deep_view(),
                schedule_id@,
                run_id,
                ids,
                now,
            ),
{
    let run_ids: Vec<u128> = fresh_ids(1);
    let step_ids: Vec<u128> = fresh_ids(MOST_STEPS);
    let now: Timestamp = utc_now();
    process_schedule_at(db, schedule_id, run_ids[0], &step_ids, &now)
}

// ---- firing what is due ---------------------------------------------------------------------

/// The tables after schedules were looked at one after the other, with IDs for the run and the steps
/// of each, and the outcomes. One that fails does not stop those that follow.
pub open spec fn schedules_fired(
    s: Store,
    due: Seq<Text>,
    run_ids: Seq<u128>,
    step_ids: Seq<Seq<u128>>,
    now: Timestamp,
) -> (Store, Seq<Result<Option<EngineEventView>, Text>>)
    decreases due.len(),
{
    if due.len() == 0 {
        (s, Seq::empty())
    } else {
        let n = due.len() - 1;
        let (before, earlier) = schedules_fired(s, due.drop_last(), run_ids, step_ids, now);
        let (after, r) = schedule_processed(before, due.last(), run_ids[n], step_ids[n], now);
        (after, earlier.push(r))
    }
}

/// The queue with schedules added for their next times one after the other, and the outcomes.
pub open spec fn all_requeued(s: Store, queue: Seq<EntryView>, due: Seq<Text>, now: Timestamp) -> (
    Seq<EntryView>,
    Seq<Result<(), Text>>,
)
    decreases due.len(),
{
    if due.len() == 0 {
        (queue, Seq::empty())
    } else {
        let (before, earlier) = all_requeued(s, queue, due.drop_last(), now);
        let (after, r) = requeued(s, before, due.last(), now);
        (after, earlier.push(r))
    }
}

/// What came of a schedule whose time had come: the run that it started, if any, and whether it is
/// in the queue again.
#[derive(Debug)]
pub struct Firing {
    pub schedule_id: String,
    pub started: Result<Option<EngineEvent>, String>,
    pub requeued: Result<(), String>,
}

/// The view of a [`Firing`].
#[verifier::ext_equal]
pub struct FiringView {
    pub schedule_id: Text,
    pub started: Result<Option<EngineEventView>, Text>,
    pub requeued: Result<(), Text>,
}

impl DeepView for Firing {
    type V = FiringView;

    open spec fn deep_view(&self) -> FiringView {
        FiringView {
            schedule_id: self.schedule_id@,
            started: outcome(self.started),
            requeued: outcome(self.requeued),
        }
    }
}

/// The tables, the queue and the outcomes after every schedule whose time has come was taken out of
/// the queue and looked at, and then added for its next time.
pub open spec fn due_fired(
    s: Store,
    queue: Seq<EntryView>,
    run_ids: Seq<u128>,
    step_ids: Seq<Seq<u128>>,
    now: Timestamp,
) -> (Store, Seq<EntryView>, Seq<FiringView>) {
    let due = due_ids(queue, now);
    let (after, started) = schedules_fired(s, due, run_ids, step_ids, now);
    let (again, requeued) = all_requeued(after, queue.skip(due.len() as int), due, now);
    (
        after,
        again,
        Seq::new(
            due.len(),
            |i: int|
                FiringView { schedule_id: due[i], started: started[i], requeued: requeued[i] },
        ),
    )
}

/// Fires every schedule whose time has come at `now`, with the given IDs for the run and the steps
/// of each, and adds each to the queue for its next time.
pub fn fire_due_at(
    db: &mut Database,
    queue: &mut FireQueue,
    run_ids: &Vec<u128>,
    step_ids: &Vec<Vec<u128>>,
    now: &Timestamp,
) -> (r: Vec<Firing>)
    requires
        old(queue).wf(),
        run_ids@.len() >= old(queue).deep_view().len(),
        step_ids@.len() >= old(queue).deep_view().len(),
        forall|i: int| 0 <= i < step_ids@.len() ==> (#[trigger] step_ids@[i])@.len() >= MOST_STEPS,
    ensures
        final(queue).wf(),
        (final(db).deep_view(), final(queue).deep_view(), r.deep_view()) == due_fired(
            old(db).deep_view(),
            old(queue).deep_view(),
            run_ids@,
            step_ids.deep_view(),
            *now,
        ),
{
    let ghost first = db.deep_view();
    let ghost due = due_ids(queue.deep_view(), *now);
    let ids: Vec<String> = queue.take_due(now);
    let ghost rest = queue.deep_view();
    let ghost steps = step_ids.deep_view();
    let mut out: Vec<Firing> = Vec::new();
    let mut i: usize = 0;
    proof {
        assert(due.take(0) =~= Seq::empty());
    }
    while i < ids.len()
        invariant
            i <= ids@.len(),
            ids.deep_view() == due,
            steps == step_ids.deep_view(),
            ids@.len() <= run_ids@.len(),
            ids@.len() <= step_ids@.len(),
            forall|i: int|
                0 <= i < step_ids@.len() ==> (#[trigger] step_ids@[i])@.len() >= MOST_STEPS,
            out@.len() == i,
            schedules_fired(first, due.take(i as int), run_ids@, steps, *now).0 == db.deep_view(),
            schedules_fired(first, due.take(i as int), run_ids@, steps, *now).1.len() == i,
            forall|j: int|
                0 <= j < i ==> {
                    &&& (#[trigger] out@[j]).schedule_id@ == due[j]
                    &&& outcome(out@[j].started) == schedules_fired(
                        first,
                        due.take(i as int),
                        run_ids@,
                        steps,
                        *now,
                    ).1[j]
                },
        decreases ids@.len() - i,
    {
        proof {
            assert(due.take(i + 1).drop_last() =~= due.take(i as int));
            assert(due.take(i + 1).last() == ids@[i as int]@);
            assert(steps[i as int] =~= step_ids@[i as int]@);
        }
        let started: Result<Option<EngineEvent>, String> = process_schedule_at(
            db,
            ids[i].as_str(),
            run_ids[i],
            &step_ids[i],
            now,
        );
        out.push(Firing { schedule_id: ids[i].clone(), started, requeued: Ok(()) });
        i += 1;
    }
    let ghost after = db.deep_view();
    let ghost started = schedules_fired(first, due, run_ids@, steps, *now).1;
    let mut k: usize = 0;
    proof {
        assert(due.take(i as int) =~= due);
        assert(due.take(0) =~= Seq::empty());
    }
    while k < ids.len()
        invariant
            k <= ids@.len(),
            ids.deep_view() == due,
            queue.wf(),
            db.deep_view() == after,
            out@.len() == ids@.len(),
            all_requeued(after, rest, due.take(k as int), *now).0 == queue.deep_view(),
            all_requeued(after, rest, due.take(k as int), *now).1.len() == k,
            forall|j: int|
                0 <= j < out@.len() ==> (#[trigger] out@[j]).schedule_id@ == due[j] && outcome(
                    out@[j].started,
                ) == started[j],
            forall|j: int|
                0 <= j < k ==> outcome((#[trigger] out@[j]).requeued) == all_requeued(
                    after,
                    rest,
                    due.take(k as int),
                    *now,
                ).1[j],
        decreases ids@.len() - k,
    {
        proof {
            assert(due.take(k + 1).drop_last() =~= due.take(k as int));
            assert(due.take(k + 1).last() == ids@[k as int]@);
        }
        let requeued: Result<(), String> = update_schedule_next_fire(
            db,
            ids[k].as_str(),
            queue,
            now,
        );
        let firing: &mut Firing = &mut out[k];
        firing.requeued = requeued;
        k += 1;
    }
    proof {
        assert(due.take(k as int) =~= due);
        let target = due_fired(first, old(queue).deep_view(), run_ids@, steps, *now).2;
        assert(out.deep_view() =~= target);
    }
    out
}

/// Fires every schedule whose time has come by the clock, and adds each to the queue for its next
/// time.
pub fn fire_due(db: &mut Database, queue: &mut FireQueue) -> (r: Vec<Firing>)
    requires
        old(queue).wf(),
    ensures
        final(queue).wf(),
        exists|run_ids: Seq<u128>, step_ids: Seq<Seq<u128>>, now: Timestamp|
            clock_shows(now) && (
                final(db).deep_view(),
                final(queue).deep_view(),
                r.deep_view(),
            ) == #[trigger] due_fired(
                old(db).deep_view(),
                old(queue).deep_view(),
                run_ids,
                step_ids,
                now,
            ),
{
    let n: usize = queue.len();
    let run_ids: Vec<u128> = fresh_ids(n);
    let mut step_ids: Vec<Vec<u128>> = Vec::new();
    let mut i: usize = 0;
    while i < n
        invariant
            i <= n,
            step_ids@.len() == i,
            forall|j: int| 0 <= j < i ==> (#[trigger] step_ids@[j])@.len() >= MOST_STEPS,
        decreases n - i,
    {
        step_ids.push(fresh_ids(MOST_STEPS));
        i += 1;
    }
    let now: Timestamp = utc_now();
    fire_due_at(db, queue, &run_ids, &step_ids, &now)
}

} // verus!
