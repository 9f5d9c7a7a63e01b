//! Schedule CRUD operations.

use vstd::prelude::*;
use vstd::string::*;
use crate::clock::{clock_shows, format_datetime, parse_datetime, time_in, time_text, utc_now, Timestamp};
use crate::db::order::{arranged, ordered, sort_order};
use crate::db::rows::{changed, find_row, has_key, lemma_with_key, lemma_with_key_changed, lemma_with_key_push, with_key, Database, OverlapColumn, ScheduleRecord, ScheduleRow, SpecType, Store, TimeoutsColumn, TimeoutsColumnView};
use crate::db::workflows::lemma_signed_unsigned;
use crate::json::{by_key, json_list_text, json_string_list, json_string_map, list_in_json, list_to_json, map_in_json, object_text, Entries, Json};
use crate::schedule::{Interval, OverlapPolicy, Schedule, ScheduleSpec, ScheduleSpecView, ScheduleView, Timeouts, WorkflowAction, WorkflowActionView};
use crate::text::{outcome, text_eq, Text};

verus! {

// ---- columns --------------------------------------------------------------------------------

/// The trigger of a schedule as columns: its kind, its cron expressions, its interval.
pub open spec fn spec_columns(spec: ScheduleSpecView) -> (SpecType, Option<Text>, Option<i64>) {
    match spec {
        ScheduleSpecView::Cron(expressions) => (
            SpecType::Cron,
            Some(json_list_text(expressions)),
            None,
        ),
        ScheduleSpecView::Interval(interval) => (
            SpecType::Interval,
            None,
            Some(interval.secs as i64),
        ),
    }
}

/// The overlap policy as a column.
pub open spec fn overlap_column(policy: OverlapPolicy) -> OverlapColumn {
    match policy {
        OverlapPolicy::Skip => OverlapColumn::Skip,
        OverlapPolicy::Buffer(n) => OverlapColumn::Buffer(n),
        OverlapPolicy::TerminateExisting => OverlapColumn::Terminate,
    }
}

/// The overlap policy in a column.
pub open spec fn overlap_in(column: OverlapColumn) -> OverlapPolicy {
    match column {
        OverlapColumn::Skip => OverlapPolicy::Skip,
        OverlapColumn::Buffer(n) => OverlapPolicy::Buffer(n),
        OverlapColumn::Terminate => OverlapPolicy::TerminateExisting,
    }
}

/// An overlap policy comes back from its column.
pub proof fn law_overlap_reads_back(policy: OverlapPolicy)
    ensures
        overlap_in(overlap_column(policy)) == policy,
{
}

fn to_overlap_column(policy: &OverlapPolicy) -> (r: OverlapColumn)
    ensures
        r == overlap_column(*policy),
{
    match policy {
        OverlapPolicy::Skip => OverlapColumn::Skip,
        OverlapPolicy::Buffer(n) => OverlapColumn::Buffer(*n),
        OverlapPolicy::TerminateExisting => OverlapColumn::Terminate,
    }
}

fn read_overlap(column: OverlapColumn) -> (r: OverlapPolicy)
    ensures
        r == overlap_in(column),
{
    match column {
        OverlapColumn::Skip => OverlapPolicy::Skip,
        OverlapColumn::Buffer(n) => OverlapPolicy::Buffer(n),
        OverlapColumn::Terminate => OverlapPolicy::TerminateExisting,
    }
}

fn to_spec_columns(spec: &ScheduleSpec) -> (r: (SpecType, Option<String>, Option<i64>))
    ensures
        (r.0, r.1.deep_view(), r.2) == spec_columns(spec.deep_view()),
        spec.deep_view() matches ScheduleSpecView::Cron(list) ==> json_string_list(
            json_list_text(list),
        ) == Ok::<Seq<Text>, Text>(list),
{
    match spec {
        ScheduleSpec::Cron(expressions) => (
            SpecType::Cron,
            Some(list_to_json(expressions)),
            None,
        ),
        ScheduleSpec::Interval(interval) => (
            SpecType::Interval,
            None,
            Some(interval.secs as i64),
        ),
    }
}

/// The trigger in the columns of a row.
pub open spec fn spec_in(row: ScheduleRecord) -> Result<ScheduleSpecView, Text> {
    match row.spec_type {
        SpecType::Cron => match row.cron_expressions {
            Some(text) => match json_string_list(text) {
                Ok(list) => Ok(ScheduleSpecView::Cron(list)),
                Err(e) => Err(e),
            },
            None => Ok(ScheduleSpecView::Cron(Seq::empty())),
        },
        SpecType::Interval => Ok(
            ScheduleSpecView::Interval(
                Interval {
                    secs: match row.interval_seconds {
                        Some(secs) => secs as u64,
                        None => 0,
                    },
                    nanos: 0,
                },
            ),
        ),
    }
}

fn read_spec(row: &ScheduleRow) -> (r: Result<ScheduleSpec, String>)
    ensures
        outcome(r) == spec_in(row.deep_view()),
{
    match row.spec_type {
        SpecType::Cron => match &row.cron_expressions {
            Some(text) => match list_in_json(text.as_str()) {
                Ok(list) => Ok(ScheduleSpec::Cron(list)),
                Err(e) => Err(e),
            },
            None => {
                let none: Vec<String> = Vec::new();
                proof {
                    assert(none.deep_view() =~= Seq::empty());
                }
                Ok(ScheduleSpec::Cron(none))
            },
        },
        SpecType::Interval => {
            let secs: u64 = match row.interval_seconds {
                Some(secs) => secs as u64,
                None => 0,
            };
            Ok(ScheduleSpec::Interval(Interval { secs, nanos: 0 }))
        },
    }
}

// ---- rows -----------------------------------------------------------------------------------

/// The arguments in a column; none in an empty one.
pub open spec fn args_in(column: Text) -> Result<Entries, Text> {
    if column.len() == 0 {
        Ok(Seq::empty())
    } else {
        json_string_map(column)
    }
}

pub(crate) fn read_args(column: &str) -> (r: Result<Vec<(String, String)>, String>)
    ensures
        outcome(r) == args_in(column@),
{
    if column.is_empty() {
        let none: Vec<(String, String)> = Vec::new();
        proof {
            assert(none.deep_view() =~= Seq::empty());
        }
        Ok(none)
    } else {
        map_in_json(column)
    }
}

/// The schedule that a row holds, or the message on the first column that cannot be read.
pub open spec fn schedule_in(row: ScheduleRecord) -> Result<ScheduleView, Text> {
    match spec_in(row) {
        Err(e) => Err(e),
        Ok(spec) => match args_in(row.action_args_json) {
            Err(e) => Err(e),
            Ok(args) => match row.timeouts {
                TimeoutsColumnView::Malformed(e) => Err(e),
                TimeoutsColumnView::Timeouts(timeouts) => match time_in(row.created_at) {
                    Err(e) => Err(e),
                    Ok(created_at) => match time_in(row.updated_at) {
                        Err(e) => Err(e),
                        Ok(updated_at) => Ok(
                            ScheduleView {
                                schedule_id: row.schedule_id,
                                namespace: row.namespace,
                                spec,
                                action: WorkflowActionView {
                                    workflow_name: row.action_workflow_name,
                                    args,
                                    task_queue: row.action_task_queue,
                                    id: match row.action_id {
                                        Some(id) => id,
                                        None => Seq::empty(),
                                    },
                                    timeouts,
                                },
                                policy: overlap_in(row.overlap_policy),
                                created_at,
                                updated_at,
                            },
                        ),
                    },
                },
            },
        },
    }
}

/// Convert a database row to a Schedule.
pub fn row_to_schedule(row: &ScheduleRow) -> (r: Result<Schedule, String>)
    ensures
        outcome(r) == schedule_in(row.deep_view()),
{
    let spec: ScheduleSpec = match read_spec(row) {
        Ok(spec) => spec,
        Err(e) => return Err(e),
    };
    let policy: OverlapPolicy = read_overlap(row.overlap_policy);
    let args: Vec<(String, String)> = match read_args(row.action_args_json.as_str()) {
        Ok(args) => args,
        Err(e) => return Err(e),
    };
    let timeouts: Timeouts = match &row.timeouts {
        TimeoutsColumn::Timeouts(t) => *t,
        TimeoutsColumn::Malformed(e) => return Err(e.clone()),
    };
    let action: WorkflowAction = WorkflowAction {
        workflow_name: row.action_workflow_name.clone(),
        args,
        task_queue: row.action_task_queue.clone(),
        id: match &row.action_id {
            Some(id) => id.clone(),
            None => String::new(),
        },
        timeouts,
    };
    let created_at: Timestamp = match parse_datetime(row.created_at.as_str()) {
        Ok(t) => t,
        Err(e) => return Err(e),
    };
    let updated_at: Timestamp = match parse_datetime(row.updated_at.as_str()) {
        Ok(t) => t,
        Err(e) => return Err(e),
    };
    Ok(
        Schedule {
            schedule_id: row.schedule_id.clone(),
            namespace: row.namespace.clone(),
            spec,
            action,
            policy,
            created_at,
            updated_at,
        },
    )
}

// ---- insert ---------------------------------------------------------------------------------

/// The row that holds a schedule inserted at `now`.
pub open spec fn schedule_record(schedule: ScheduleView, now: Timestamp) -> ScheduleRecord {
    let (spec_type, cron_expressions, interval_seconds) = spec_columns(schedule.spec);
    ScheduleRecord {
        schedule_id: schedule.schedule_id,
        namespace: schedule.namespace,
        spec_type,
        cron_expressions,
        interval_seconds,
        overlap_policy: overlap_column(schedule.policy),
        action_workflow_name: schedule.action.workflow_name,
        action_task_queue: schedule.action.task_queue,
        action_args_json: object_text(schedule.action.args),
        action_id: Some(schedule.action.id),
        timeouts: TimeoutsColumnView::Timeouts(schedule.action.timeouts),
        created_at: time_text(now),
        updated_at: time_text(now),
    }
}

/// The tables with a row inserted into the schedules, and the outcome: a schedule ID that is there
/// already is refused, in whatever namespace it is.
pub open spec fn schedule_row_inserted(s: Store, row: ScheduleRecord) -> (Store, Result<(), Text>) {
    if has_key(s.schedules, row.schedule_id) {
        (s, Err("UNIQUE constraint failed: schedules.schedule_id"@))
    } else {
        (Store { schedules: s.schedules.push(row), ..s }, Ok(()))
    }
}

/// Insert a row into the schedules.
pub(crate) fn insert_schedule_row(db: &mut Database, row: ScheduleRow) -> (r: Result<(), String>)
    ensures
        (final(db).deep_view(), outcome(r)) == schedule_row_inserted(
            old(db).deep_view(),
            row.deep_view(),
        ),
{
    if find_row(&db.schedules, row.schedule_id.as_str()).is_some() {
        proof {
            lemma_with_key(db.schedules.deep_view(), row.schedule_id@);
        }
        return Err("UNIQUE constraint failed: schedules.schedule_id".to_owned());
    }
    let ghost record = row.deep_view();
    db.schedules.push(row);
    proof {
        assert(db.schedules.deep_view() =~= old(db).schedules.deep_view().push(record));
    }
    Ok(())
}

/// What is kept of a schedule inserted at `now`: everything, with an interval in whole seconds, the
/// arguments in the order of their keys, and the second of insertion as both times.
pub open spec fn kept(schedule: ScheduleView, now: Timestamp) -> ScheduleView {
    ScheduleView {
        spec: match schedule.spec {
            ScheduleSpecView::Interval(interval) => ScheduleSpecView::Interval(
                Interval { secs: interval.secs, nanos: 0 },
            ),
            spec => spec,
        },
        action: WorkflowActionView {
            args: by_key(schedule.action.args),
            ..schedule.action
        },
        created_at: now.whole_second(),
        updated_at: now.whole_second(),
        ..schedule
    }
}

/// The schedule with this ID.
pub open spec fn schedule_found(s: Store, schedule_id: Text) -> Result<Option<ScheduleView>, Text> {
    match with_key(s.schedules, schedule_id) {
        None => Ok(None),
        Some(row) => match schedule_in(row) {
            Ok(schedule) => Ok(Some(schedule)),
            Err(e) => Err(e),
        },
    }
}

/// Insert a new schedule into the database at `now`. What was inserted is found again under its
/// ID, as far as it is kept.
pub fn insert_schedule_at(db: &mut Database, schedule: &Schedule, now: &Timestamp) -> (r: Result<
    (),
    String,
>)
    ensures
        (final(db).deep_view(), outcome(r)) == schedule_row_inserted(
            old(db).deep_view(),
            schedule_record(schedule.deep_view(), *now),
        ),
        r is Ok ==> schedule_found(
            final(db).deep_view(),
            schedule.schedule_id@,
        ) == Ok::<Option<ScheduleView>, Text>(Some(kept(schedule.deep_view(), *now))),
{
    let columns: (SpecType, Option<String>, Option<i64>) = to_spec_columns(&schedule.spec);
    let row: ScheduleRow = ScheduleRow {
        schedule_id: schedule.schedule_id.clone(),
        namespace: schedule.namespace.clone(),
        spec_type: columns.0,
        cron_expressions: columns.1,
        interval_seconds: columns.2,
        overlap_policy: to_overlap_column(&schedule.policy),
        action_workflow_name: schedule.action.workflow_name.clone(),
        action_task_queue: schedule.action.task_queue.clone(),
        action_args_json: Json::object(&schedule.action.args).to_text(),
        action_id: Some(schedule.action.id.clone()),
        timeouts: TimeoutsColumn::Timeouts(schedule.action.timeouts),
        created_at: format_datetime(now),
        updated_at: format_datetime(now),
    };
    proof {
        let record = schedule_record(schedule.deep_view(), *now);
        assert(row.deep_view() =~= record);
        lemma_with_key_push(db.schedules.deep_view(), record, record.schedule_id);
        if let ScheduleSpecView::Interval(interval) = schedule.spec.deep_view() {
            lemma_signed_unsigned(Some(interval.secs));
        }
        assert(schedule_in(record) == Ok::<ScheduleView, Text>(
            kept(schedule.deep_view(), *now),
        ));
    }
    insert_schedule_row(db, row)
}

/// Insert a new schedule into the database. What was inserted is found again under its ID, as far as
/// it is kept.
pub fn insert_schedule(db: &mut Database, schedule: &Schedule) -> (r: Result<(), String>)
    ensures
        exists|now: Timestamp|
            clock_shows(now) && (final(db).deep_view(), outcome(r)) == schedule_row_inserted(
                old(db).deep_view(),
                #[trigger] schedule_record(schedule.deep_view(), now),
            ) && (r is Ok ==> schedule_found(final(db).deep_view(), schedule.schedule_id@) == Ok::<
                Option<ScheduleView>,
                Text,
            >(Some(kept(schedule.deep_view(), now)))),
{
    let now: Timestamp = utc_now();
    insert_schedule_at(db, schedule, &now)
}

// ---- update ---------------------------------------------------------------------------------

/// A row with everything set but what names it and when it was created.
pub open spec fn schedule_set(row: ScheduleRecord, schedule: ScheduleView, now: Timestamp) -> ScheduleRecord {
    ScheduleRecord {
        schedule_id: row.schedule_id,
        namespace: row.namespace,
        created_at: row.created_at,
        ..schedule_record(schedule, now)
    }
}

/// The tables with the row of a schedule in a namespace set.
pub open spec fn schedule_spec_updated(
    s: Store,
    schedule_id: Text,
    namespace: Text,
    schedule: ScheduleView,
    now: Timestamp,
) -> Store {
    Store {
        schedules: changed(
            s.schedules,
            schedule_id,
            |row: ScheduleRecord|
                if row.namespace == namespace {
                    schedule_set(row, schedule, now)
                } else {
                    row
                },
        ),
        ..s
    }
}

/// What was set of a schedule at `now` is found again under its ID, as far as it is kept, with the
/// time at which the schedule was created; where the schedule was in the namespace.
pub open spec fn update_reads_back(
    before: Store,
    after: Store,
    schedule_id: Text,
    namespace: Text,
    schedule: ScheduleView,
    now: Timestamp,
) -> bool {
    with_key(before.schedules, schedule_id) matches Some(row) ==> row.namespace == namespace ==> (
    time_in(row.created_at) matches Ok(created_at) ==> schedule_found(after, schedule_id) == Ok::<
        Option<ScheduleView>,
        Text,
    >(Some(ScheduleView { schedule_id, namespace, created_at, ..kept(schedule, now) })))
}

/// Update the spec fields of an existing schedule at `now`. What was set is found again under the
/// schedule's ID, as far as it is kept, with the time at which the schedule was created.
pub fn update_schedule_spec_at(
    db: &mut Database,
    schedule_id: &str,
    namespace: &str,
    schedule: &Schedule,
    now: &Timestamp,
) -> (r: Result<(), String>)
    ensures
        r is Ok,
        final(db).deep_view() == schedule_spec_updated(
            old(db).deep_view(),
            schedule_id@,
            namespace@,
            schedule.deep_view(),
            *now,
        ),
        update_reads_back(
            old(db).deep_view(),
            final(db).deep_view(),
            schedule_id@,
            namespace@,
            schedule.deep_view(),
            *now,
        ),
{
    let ghost before = db.schedules.deep_view();
    let ghost change = |row: ScheduleRecord|
        if row.namespace == namespace@ {
            schedule_set(row, schedule.deep_view(), *now)
        } else {
            row
        };
    let ghost after = changed(before, schedule_id@, change);
    let (spec_type, cron_expressions, interval_seconds): (SpecType, Option<String>, Option<i64>) =
        to_spec_columns(&schedule.spec);
    let args: Json = Json::object(&schedule.action.args);
    let updated_at: String = format_datetime(now);
    let mut i: usize = 0;
    while i < db.schedules.len()
        invariant
            i <= db.schedules@.len(),
            db.schedules@.len() == before.len(),
            (spec_type, cron_expressions.deep_view(), interval_seconds) == spec_columns(
                schedule.spec.deep_view(),
            ),
            args.deep_view() == object_text(schedule.action.args.deep_view()),
            updated_at@ == time_text(*now),
            before == old(db).schedules.deep_view(),
            change == (|row: ScheduleRecord|
                if row.namespace == namespace@ {
                    schedule_set(row, schedule.deep_view(), *now)
                } else {
                    row
                }),
            after == changed(before, schedule_id@, change),
            db.namespaces == old(db).namespaces,
            db.workflows == old(db).workflows,
            db.steps == old(db).steps,
            db.activities == old(db).activities,
            forall|j: int| 0 <= j < i ==> #[trigger] db.schedules@[j].deep_view() == after[j],
            forall|j: int|
                i <= j < before.len() ==> #[trigger] db.schedules@[j].deep_view() == before[j],
        decreases before.len() - i,
    {
        proof {
            assert(db.schedules@[i as int].deep_view() == before[i as int]);
        }
        if text_eq(db.schedules[i].schedule_id.as_str(), schedule_id) && text_eq(
            db.schedules[i].namespace.as_str(),
            namespace,
        ) {
            let row: &mut ScheduleRow = &mut db.schedules[i];
            row.spec_type = spec_type;
            row.cron_expressions = cron_expressions.clone();
            row.interval_seconds = interval_seconds;
            row.overlap_policy = to_overlap_column(&schedule.policy);
            row.action_workflow_name = schedule.action.workflow_name.clone();
            row.action_task_queue = schedule.action.task_queue.clone();
            row.action_args_json = args.to_text();
            row.action_id = Some(schedule.action.id.clone());
            row.timeouts = TimeoutsColumn::Timeouts(schedule.action.timeouts);
            row.updated_at = updated_at.clone();
        }
        i += 1;
    }
    proof {
        assert(db.schedules.deep_view() =~= after);
        if let ScheduleSpecView::Interval(interval) = schedule.spec.deep_view() {
            lemma_signed_unsigned(Some(interval.secs));
        }
        lemma_with_key_changed(before, schedule_id@, change, schedule_id@);
        lemma_with_key(before, schedule_id@);
    }
    Ok(())
}

/// Update the spec fields of an existing schedule.
pub fn update_schedule_spec(
    db: &mut Database,
    schedule_id: &str,
    namespace: &str,
    schedule: &Schedule,
) -> (r: Result<(), String>)
    ensures
        r is Ok,
        exists|now: Timestamp|
            clock_shows(now) && final(db).deep_view() == #[trigger] schedule_spec_updated(
                old(db).deep_view(),
                schedule_id@,
                namespace@,
                schedule.deep_view(),
                now,
            ) && update_reads_back(
                old(db).deep_view(),
                final(db).deep_view(),
                schedule_id@,
                namespace@,
                schedule.deep_view(),
                now,
            ),
{
    let now: Timestamp = utc_now();
    update_schedule_spec_at(db, schedule_id, namespace, schedule, &now)
}

// ---- delete ---------------------------------------------------------------------------------

/// The row is not the schedule in that namespace.
pub open spec fn other_schedule(schedule_id: Text, namespace: Text) -> spec_fn(ScheduleRecord) -> bool {
    |row: ScheduleRecord| !(row.schedule_id == schedule_id && row.namespace == namespace)
}

/// The tables without the schedule in that namespace.
pub open spec fn schedule_deleted(s: Store, schedule_id: Text, namespace: Text) -> Store {
    Store { schedules: s.schedules.filter(other_schedule(schedule_id, namespace)), ..s }
}

/// Delete a schedule by its ID and namespace, and count the rows that went.
pub fn delete_schedule(db: &mut Database, schedule_id: &str, namespace: &str) -> (r: Result<
    usize,
    String,
>)
    ensures
        final(db).deep_view() == schedule_deleted(old(db).deep_view(), schedule_id@, namespace@),
        r is Ok,
        r->Ok_0 == old(db).schedules@.len() - final(db).schedules@.len(),
{
    let ghost before = db.schedules.deep_view();
    let ghost test = other_schedule(schedule_id@, namespace@);
    let total: usize = db.schedules.len();
    let mut gone: usize = 0;
    let mut i: usize = 0;
    proof {
        reveal(Seq::filter);
        assert(before.take(0) =~= Seq::empty());
        assert(db.schedules.deep_view() =~= before.take(0).filter(test) + before.skip(0));
    }
    while i < db.schedules.len()
        invariant
            i <= db.schedules@.len(),
            before.len() == total,
            gone + db.schedules@.len() == total,
            before == old(db).schedules.deep_view(),
            test == other_schedule(schedule_id@, namespace@),
            db.namespaces == old(db).namespaces,
            db.workflows == old(db).workflows,
            db.steps == old(db).steps,
            db.activities == old(db).activities,
            before.take(gone + i).filter(test).len() == i,
            db.schedules.deep_view() == before.take(gone + i).filter(test) + before.skip(gone + i),
        decreases db.schedules@.len() - i,
    {
        let ghost at = gone + i;
        proof {
            reveal(Seq::filter);
            assert(before.take(at + 1).drop_last() =~= before.take(at));
            assert(before.take(at + 1).last() == before[at]);
            assert(before.skip(at)[0] == before[at]);
            assert(db.schedules.deep_view()[i as int] == before[at]);
            assert(before.skip(at).drop_first() =~= before.skip(at + 1));
        }
        if text_eq(db.schedules[i].schedule_id.as_str(), schedule_id) && text_eq(
            db.schedules[i].namespace.as_str(),
            namespace,
        ) {
            let ghost rows = db.schedules.deep_view();
            let _row: ScheduleRow = db.schedules.remove(i);
            gone += 1;
            proof {
                assert(db.schedules.deep_view() =~= rows.remove(i as int));
                assert(db.schedules.deep_view() =~= before.take(gone + i).filter(test)
                    + before.skip(gone + i));
            }
        } else {
            i += 1;
            proof {
                assert(db.schedules.deep_view() =~= before.take(gone + i).filter(test)
                    + before.skip(gone + i));
            }
        }
    }
    proof {
        assert(before.take(gone + i) =~= before);
        assert(before.skip(gone + i) =~= Seq::empty());
        assert(db.schedules.deep_view() =~= before.filter(test));
    }
    Ok(gone)
}

// ---- read -----------------------------------------------------------------------------------

/// Get a single schedule by its ID.
pub fn get_schedule(db: &Database, schedule_id: &str) -> (r: Result<Option<Schedule>, String>)
    ensures
        outcome(r) == schedule_found(db.deep_view(), schedule_id@),
{
    match find_row(&db.schedules, schedule_id) {
        None => Ok(None),
        Some(i) => match row_to_schedule(&db.schedules[i]) {
            Ok(schedule) => Ok(Some(schedule)),
            Err(e) => Err(e),
        },
    }
}

/// The rows of the schedules in a namespace, in the order in which they were created.
pub open spec fn schedule_rows_listed(rows: Seq<ScheduleRecord>, namespace: Text) -> Seq<
    ScheduleRecord,
> {
    let picked = rows.filter(|row: ScheduleRecord| row.namespace == namespace);
    let keys = picked.map_values(|row: ScheduleRecord| Some(row.created_at));
    arranged(picked, ordered(keys, keys.len(), false))
}

/// The schedules that rows hold, in their order, or the message on the first that cannot be read.
pub open spec fn schedules_in(rows: Seq<ScheduleRecord>) -> Result<Seq<ScheduleView>, Text>
    decreases rows.len(),
{
    if rows.len() == 0 {
        Ok(Seq::empty())
    } else {
        match schedules_in(rows.drop_last()) {
            Err(e) => Err(e),
            Ok(list) => match schedule_in(rows.last()) {
                Err(e) => Err(e),
                Ok(schedule) => Ok(list.push(schedule)),
            },
        }
    }
}

/// A row that cannot be read stops the list, whatever follows it.
proof fn lemma_schedules_in_prefix(rows: Seq<ScheduleRecord>, n: int)
    requires
        0 <= n <= rows.len(),
    ensures
        schedules_in(rows.take(n)) is Err ==> schedules_in(rows) == schedules_in(rows.take(n)),
    decreases rows.len(),
{
    if n == rows.len() {
        assert(rows.take(n) =~= rows);
    } else {
        assert(rows.drop_last().take(n) =~= rows.take(n));
        lemma_schedules_in_prefix(rows.drop_last(), n);
    }
}

/// List all schedules in a namespace.
pub fn list_schedules(db: &Database, namespace: &str) -> (r: Result<Vec<Schedule>, String>)
    ensures
        outcome(r) == schedules_in(schedule_rows_listed(db.deep_view().schedules, namespace@)),
{
    let ghost rows = db.schedules.deep_view();
    let ghost test = |row: ScheduleRecord| row.namespace == namespace@;
    let mut places: Vec<usize> = Vec::new();
    let mut keys: Vec<Option<String>> = Vec::new();
    let ghost mut picked: Seq<ScheduleRecord> = Seq::empty();
    let mut i: usize = 0;
    proof {
        reveal(Seq::filter);
        assert(rows.take(0) =~= Seq::empty());
    }
    while i < db.schedules.len()
        invariant
            i <= db.schedules@.len(),
            rows == db.schedules.deep_view(),
            test == (|row: ScheduleRecord| row.namespace == namespace@),
            picked == rows.take(i as int).filter(test),
            places@.len() == picked.len(),
            keys@.len() == picked.len(),
            forall|k: int|
                0 <= k < picked.len() ==> {
                    &&& (#[trigger] places@[k]) < rows.len()
                    &&& rows[places@[k] as int] == picked[k]
                },
            forall|k: int|
                0 <= k < picked.len() ==> (#[trigger] keys@[k]).deep_view() == Some(
                    picked[k].created_at,
                ),
        decreases rows.len() - i,
    {
        proof {
            reveal(Seq::filter);
            assert(rows.take(i + 1).drop_last() =~= rows.take(i as int));
            assert(rows.take(i + 1).last() == rows[i as int]);
        }
        if text_eq(db.schedules[i].namespace.as_str(), namespace) {
            places.push(i);
            keys.push(Some(db.schedules[i].created_at.clone()));
            proof {
                picked = picked.push(rows[i as int]);
            }
        }
        i += 1;
    }
    proof {
        assert(rows.take(i as int) =~= rows);
        assert(keys.deep_view() =~= picked.map_values(
            |row: ScheduleRecord| Some(row.created_at),
        ));
    }
    let order: Vec<usize> = sort_order(&keys, false);
    let ghost target = schedule_rows_listed(rows, namespace@);
    proof {
        assert(target =~= arranged(picked, order@.map_values(|i: usize| i as int)));
    }
    let mut out: Vec<Schedule> = Vec::new();
    let mut k: usize = 0;
    proof {
        assert(target.take(0) =~= Seq::empty());
        assert(out.deep_view() =~= Seq::empty());
    }
    while k < order.len()
        invariant
            k <= order@.len(),
            rows == db.schedules.deep_view(),
            order@.len() == target.len(),
            target == arranged(picked, order@.map_values(|i: usize| i as int)),
            target == schedule_rows_listed(rows, namespace@),
            places@.len() == picked.len(),
            forall|k: int|
                0 <= k < picked.len() ==> {
                    &&& (#[trigger] places@[k]) < rows.len()
                    &&& rows[places@[k] as int] == picked[k]
                },
            forall|i: int| 0 <= i < order@.len() ==> (#[trigger] order@[i]) < picked.len(),
            schedules_in(target.take(k as int)) == Ok::<Seq<ScheduleView>, Text>(out.deep_view()),
        decreases order@.len() - k,
    {
        proof {
            assert(target.take(k + 1).drop_last() =~= target.take(k as int));
            assert(target.take(k + 1).last() == target[k as int]);
            lemma_schedules_in_prefix(target, k + 1);
        }
        let ghost done = out.deep_view();
        match row_to_schedule(&db.schedules[places[order[k]]]) {
            Ok(schedule) => {
                out.push(schedule);
                proof {
                    assert(out.deep_view() =~= done.push(schedule.deep_view()));
                }
            },
            Err(e) => return Err(e),
        }
        k += 1;
    }
    proof {
        assert(target.take(k as int) =~= target);
    }
    Ok(out)
}

} // verus!
