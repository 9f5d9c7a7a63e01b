//! Workflow CRUD operations.

use vstd::prelude::*;
use vstd::string::*;
use crate::clock::{clock_shows, format_datetime, four_digit_year, parse_datetime, time_in, time_text, utc_now, Timestamp};
use crate::db::order::{arranged, ordered, sort_order};
use crate::db::rows::{changed, find_row, has_key, lemma_with_key_changed, lemma_with_key_push, with_key, Database, Store, WorkflowRecord, WorkflowRow};
use crate::ids::{text_to_uuid, uuid_parse, uuid_text, uuid_to_text};
use crate::json::{json_parse, stable_json, Json};
use crate::schedule::Timeouts;
use crate::text::{concat2, outcome, text_eq, text_le, Text};
use crate::workflow::{WorkflowInstance, WorkflowInstanceView, WorkflowState};

verus! {

// ---- columns --------------------------------------------------------------------------------

/// A number of seconds as a signed column, bit for bit.
pub open spec fn signed(v: Option<u64>) -> Option<i64> {
    match v {
        Some(x) => Some(x as i64),
        None => None,
    }
}

/// A signed column as a number of seconds, bit for bit.
pub open spec fn unsigned(v: Option<i64>) -> Option<u64> {
    match v {
        Some(x) => Some(x as u64),
        None => None,
    }
}

pub(crate) fn to_signed(v: Option<u64>) -> (r: Option<i64>)
    ensures
        r == signed(v),
{
    match v {
        Some(x) => Some(x as i64),
        None => None,
    }
}

pub(crate) fn to_unsigned(v: Option<i64>) -> (r: Option<u64>)
    ensures
        r == unsigned(v),
{
    match v {
        Some(x) => Some(x as u64),
        None => None,
    }
}

/// A number of seconds comes back from its column.
pub proof fn lemma_signed_unsigned(v: Option<u64>)
    ensures
        unsigned(signed(v)) == v,
{
    if let Some(x) = v {
        assert((x as i64) as u64 == x) by (bit_vector);
    }
}

/// A time as a column.
pub open spec fn time_column(t: Option<Timestamp>) -> Option<Text> {
    match t {
        Some(t) => Some(time_text(t)),
        None => None,
    }
}

/// A time without its fraction of a second.
pub open spec fn whole_seconds(t: Option<Timestamp>) -> Option<Timestamp> {
    match t {
        Some(t) => Some(t.whole_second()),
        None => None,
    }
}

/// No value, or one whose text reads back as itself.
pub open spec fn stable_column(v: Option<Text>) -> bool {
    v matches Some(v) ==> stable_json(v)
}

/// A time in the years 0 to 9999, where there is one, is ordered as a column as it is as a time.
pub open spec fn column_keeps_order(t: Option<Timestamp>) -> bool {
    t matches Some(t) ==> four_digit_year(t) ==> forall|u: Timestamp|
        four_digit_year(u) ==> (text_le(time_text(t), #[trigger] time_text(u)) <==> t.second()
            <= u.second())
}

pub(crate) fn to_time_column(t: &Option<Timestamp>) -> (r: Option<String>)
    ensures
        r.deep_view() == time_column(*t),
        column_keeps_order(*t),
        time_in_column(time_column(*t)) == Ok::<Option<Timestamp>, Text>(whole_seconds(*t)),
{
    match t {
        Some(t) => Some(format_datetime(t)),
        None => None,
    }
}

/// The time in a column.
pub open spec fn time_in_column(c: Option<Text>) -> Result<Option<Timestamp>, Text> {
    match c {
        Some(text) => match time_in(text) {
            Ok(t) => Ok(Some(t)),
            Err(e) => Err(e),
        },
        None => Ok(None),
    }
}

pub(crate) fn read_time_column(c: &Option<String>) -> (r: Result<Option<Timestamp>, String>)
    ensures
        outcome(r) == time_in_column(c.deep_view()),
{
    match c {
        Some(text) => match parse_datetime(text.as_str()) {
            Ok(t) => Ok(Some(t)),
            Err(e) => Err(e),
        },
        None => Ok(None),
    }
}

/// The JSON value in a column.
pub open spec fn json_in_column(c: Option<Text>) -> Result<Option<Text>, Text> {
    match c {
        Some(text) => match json_parse(text) {
            Ok(v) => Ok(Some(v)),
            Err(e) => Err(e),
        },
        None => Ok(None),
    }
}

pub(crate) fn read_json_column(c: &Option<String>) -> (r: Result<Option<Json>, String>)
    ensures
        outcome(r) == json_in_column(c.deep_view()),
{
    match c {
        Some(text) => match Json::parse(text.as_str()) {
            Ok(v) => Ok(Some(v)),
            Err(e) => Err(e),
        },
        None => Ok(None),
    }
}

pub(crate) fn to_json_column(v: Option<&Json>) -> (r: Option<String>)
    ensures
        r.deep_view() == v.deep_view(),
{
    match v {
        Some(v) => Some(v.to_text()),
        None => None,
    }
}

// ---- rows -----------------------------------------------------------------------------------

/// The row that holds a run.
pub open spec fn workflow_record(wf: WorkflowInstanceView) -> WorkflowRecord {
    WorkflowRecord {
        run_id: uuid_text(wf.run_id),
        workflow_id: wf.workflow_id,
        name: wf.name,
        task_queue: wf.task_queue,
        state: wf.state,
        args_json: wf.args_json,
        result_json: wf.result_json,
        execution_timeout_secs: signed(wf.timeouts.execution_timeout_secs),
        run_timeout_secs: signed(wf.timeouts.run_timeout_secs),
        task_timeout_secs: signed(wf.timeouts.task_timeout_secs),
        started_at: time_column(wf.started_at),
        completed_at: time_column(wf.completed_at),
        namespace: wf.namespace,
    }
}

/// The run that a row holds, or the message on the first column that cannot be read.
pub open spec fn workflow_in(row: WorkflowRecord) -> Result<WorkflowInstanceView, Text> {
    match uuid_parse(row.run_id) {
        Err(e) => Err("Invalid run_id UUID: "@ + e),
        Ok(run_id) => match json_parse(row.args_json) {
            Err(e) => Err(e),
            Ok(args_json) => match json_in_column(row.result_json) {
                Err(e) => Err(e),
                Ok(result_json) => match time_in_column(row.started_at) {
                    Err(e) => Err(e),
                    Ok(started_at) => match time_in_column(row.completed_at) {
                        Err(e) => Err(e),
                        Ok(completed_at) => Ok(
                            WorkflowInstanceView {
                                run_id,
                                workflow_id: row.workflow_id,
                                name: row.name,
                                task_queue: row.task_queue,
                                state: row.state,
                                args_json,
                                result_json,
                                timeouts: Timeouts {
                                    execution_timeout_secs: unsigned(row.execution_timeout_secs),
                                    run_timeout_secs: unsigned(row.run_timeout_secs),
                                    task_timeout_secs: unsigned(row.task_timeout_secs),
                                },
                                started_at,
                                completed_at,
                                namespace: row.namespace,
                            },
                        ),
                    },
                },
            },
        },
    }
}

/// Convert a database row to a WorkflowInstance.
pub fn row_to_workflow(row: &WorkflowRow) -> (r: Result<WorkflowInstance, String>)
    ensures
        outcome(r) == workflow_in(row.deep_view()),
{
    let run_id: u128 = match text_to_uuid(row.run_id.as_str()) {
        Ok(id) => id,
        Err(e) => return Err(concat2("Invalid run_id UUID: ", e.as_str())),
    };
    let args_json: Json = match Json::parse(row.args_json.as_str()) {
        Ok(v) => v,
        Err(e) => return Err(e),
    };
    let result_json: Option<Json> = match read_json_column(&row.result_json) {
        Ok(v) => v,
        Err(e) => return Err(e),
    };
    let started_at: Option<Timestamp> = match read_time_column(&row.started_at) {
        Ok(t) => t,
        Err(e) => return Err(e),
    };
    let completed_at: Option<Timestamp> = match read_time_column(&row.completed_at) {
        Ok(t) => t,
        Err(e) => return Err(e),
    };
    Ok(
        WorkflowInstance {
            run_id,
            workflow_id: row.workflow_id.clone(),
            name: row.name.clone(),
            task_queue: row.task_queue.clone(),
            state: row.state,
            args_json,
            result_json,
            timeouts: Timeouts {
                execution_timeout_secs: to_unsigned(row.execution_timeout_secs),
                run_timeout_secs: to_unsigned(row.run_timeout_secs),
                task_timeout_secs: to_unsigned(row.task_timeout_secs),
            },
            started_at,
            completed_at,
            namespace: row.namespace.clone(),
        },
    )
}

/// The run with this run ID.
pub open spec fn workflow_found(s: Store, run_id: Text) -> Result<Option<WorkflowInstanceView>, Text> {
    match with_key(s.workflows, run_id) {
        None => Ok(None),
        Some(row) => match workflow_in(row) {
            Ok(wf) => Ok(Some(wf)),
            Err(e) => Err(e),
        },
    }
}

/// Get a workflow by its run ID.
pub fn get_workflow(db: &Database, run_id: &str) -> (r: Result<Option<WorkflowInstance>, String>)
    ensures
        outcome(r) == workflow_found(db.deep_view(), run_id@),
{
    match find_row(&db.workflows, run_id) {
        None => Ok(None),
        Some(i) => match row_to_workflow(&db.workflows[i]) {
            Ok(wf) => Ok(Some(wf)),
            Err(e) => Err(e),
        },
    }
}

/// The runs that rows hold, in their order, or the message on the first that cannot be read.
pub open spec fn workflows_in(rows: Seq<WorkflowRecord>) -> Result<Seq<WorkflowInstanceView>, Text>
    decreases rows.len(),
{
    if rows.len() == 0 {
        Ok(Seq::empty())
    } else {
        match workflows_in(rows.drop_last()) {
            Err(e) => Err(e),
            Ok(list) => match workflow_in(rows.last()) {
                Err(e) => Err(e),
                Ok(wf) => Ok(list.push(wf)),
            },
        }
    }
}

/// A run is in the namespace, and in the state that is asked for.
pub open spec fn listed(namespace: Text, state: Option<WorkflowState>) -> spec_fn(WorkflowRecord) -> bool {
    |row: WorkflowRecord|
        row.namespace == namespace && (state matches Some(state) ==> row.state == state)
}

/// The rows of the runs in a namespace, those that started last first. Runs that have not started
/// come at the end, and runs that started in one second in the order in which they were inserted.
pub open spec fn workflow_rows_listed(
    rows: Seq<WorkflowRecord>,
    namespace: Text,
    state: Option<WorkflowState>,
) -> Seq<WorkflowRecord> {
    let picked = rows.filter(listed(namespace, state));
    let keys = picked.map_values(|row: WorkflowRecord| row.started_at);
    arranged(picked, ordered(keys, keys.len(), true))
}

/// List workflows in a namespace, optionally filtered by state.
pub fn list_workflows(db: &Database, namespace: &str, state_filter: Option<WorkflowState>) -> (r:
    Result<Vec<WorkflowInstance>, String>)
    ensures
        outcome(r) == workflows_in(
            workflow_rows_listed(db.deep_view().workflows, namespace@, state_filter),
        ),
{
    let ghost rows = db.workflows.deep_view();
    let ghost test = listed(namespace@, state_filter);
    let mut places: Vec<usize> = Vec::new();
    let mut keys: Vec<Option<String>> = Vec::new();
    let ghost mut picked: Seq<WorkflowRecord> = Seq::empty();
    let mut i: usize = 0;
    proof {
        reveal(Seq::filter);
        assert(rows.take(0) =~= Seq::empty());
    }
    while i < db.workflows.len()
        invariant
            i <= db.workflows@.len(),
            rows == db.workflows.deep_view(),
            test == listed(namespace@, state_filter),
            picked == rows.take(i as int).filter(test),
            places@.len() == picked.len(),
            keys@.len() == picked.len(),
            forall|k: int|
                0 <= k < picked.len() ==> {
                    &&& (#[trigger] places@[k]) < rows.len()
                    &&& rows[places@[k] as int] == picked[k]
                },
            forall|k: int|
                0 <= k < picked.len() ==> (#[trigger] keys@[k]).deep_view() == picked[k].started_at,
        decreases rows.len() - i,
    {
        proof {
            reveal(Seq::filter);
            assert(rows.take(i + 1).drop_last() =~= rows.take(i as int));
            assert(rows.take(i + 1).last() == rows[i as int]);
        }
        let row: &WorkflowRow = &db.workflows[i];
        let right_state: bool = match state_filter {
            Some(state) => row.state == state,
            None => true,
        };
        if right_state && text_eq(row.namespace.as_str(), namespace) {
            places.push(i);
            keys.push(row.started_at.clone());
            proof {
                picked = picked.push(rows[i as int]);
            }
        }
        i += 1;
    }
    proof {
        assert(rows.take(i as int) =~= rows);
        assert(keys.deep_view() =~= picked.map_values(|row: WorkflowRecord| row.started_at));
    }
    let order: Vec<usize> = sort_order(&keys, true);
    let ghost target = workflow_rows_listed(rows, namespace@, state_filter);
    proof {
        assert(target =~= arranged(picked, order@.map_values(|i: usize| i as int)));
    }
    let mut out: Vec<WorkflowInstance> = Vec::new();
    let mut k: usize = 0;
    proof {
        assert(target.take(0) =~= Seq::empty());
        assert(out.deep_view() =~= Seq::empty());
    }
    while k < order.len()
        invariant
            k <= order@.len(),
            rows == db.workflows.deep_view(),
            order@.len() == target.len(),
            target == arranged(picked, order@.map_values(|i: usize| i as int)),
            target == workflow_rows_listed(rows, namespace@, state_filter),
            places@.len() == picked.len(),
            forall|k: int|
                0 <= k < picked.len() ==> {
                    &&& (#[trigger] places@[k]) < rows.len()
                    &&& rows[places@[k] as int] == picked[k]
                },
            forall|i: int| 0 <= i < order@.len() ==> (#[trigger] order@[i]) < picked.len(),
            workflows_in(target.take(k as int)) == Ok::<Seq<WorkflowInstanceView>, Text>(
                out.deep_view(),
            ),
        decreases order@.len() - k,
    {
        proof {
            assert(target.take(k + 1).drop_last() =~= target.take(k as int));
            assert(target.take(k + 1).last() == target[k as int]);
            lemma_workflows_in_prefix(target, k + 1);
        }
        let ghost done = out.deep_view();
        match row_to_workflow(&db.workflows[places[order[k]]]) {
            Ok(wf) => {
                out.push(wf);
                proof {
                    assert(out.deep_view() =~= done.push(wf.deep_view()));
                }
            },
            Err(e) => return Err(e),
        }
        k += 1;
    }
    proof {
        assert(target.take(k as int) =~= target);
    }
    Ok(out)
}

/// A row that cannot be read stops the list, whatever follows it.
proof fn lemma_workflows_in_prefix(rows: Seq<WorkflowRecord>, n: int)
    requires
        0 <= n <= rows.len(),
    ensures
        workflows_in(rows.take(n)) is Err ==> workflows_in(rows) == workflows_in(rows.take(n)),
    decreases rows.len(),
{
    if n == rows.len() {
        assert(rows.take(n) =~= rows);
    } else {
        assert(rows.drop_last().take(n) =~= rows.take(n));
        lemma_workflows_in_prefix(rows.drop_last(), n);
    }
}

// ---- insert ---------------------------------------------------------------------------------

/// The tables with a run inserted, and the outcome: a run ID that is there already is refused.
pub open spec fn workflow_inserted(s: Store, wf: WorkflowInstanceView) -> (Store, Result<(), Text>) {
    let row = workflow_record(wf);
    if has_key(s.workflows, row.run_id) {
        (s, Err("UNIQUE constraint failed: workflows.run_id"@))
    } else {
        (Store { workflows: s.workflows.push(row), ..s }, Ok(()))
    }
}

/// A run whose columns all read back: its JSON keeps its text.
pub open spec fn reads_back(wf: WorkflowInstanceView) -> bool {
    &&& stable_json(wf.args_json)
    &&& stable_column(wf.result_json)
}

/// A run with its times cut to whole seconds.
pub open spec fn to_the_second(wf: WorkflowInstanceView) -> WorkflowInstanceView {
    WorkflowInstanceView {
        started_at: whole_seconds(wf.started_at),
        completed_at: whole_seconds(wf.completed_at),
        ..wf
    }
}

/// Insert a new workflow instance into the database. What was inserted is found again under its
/// run ID, with its times cut to whole seconds.
pub fn insert_workflow(db: &mut Database, wf: &WorkflowInstance) -> (r: Result<(), String>)
    ensures
        (final(db).deep_view(), outcome(r)) == workflow_inserted(
            old(db).deep_view(),
            wf.deep_view(),
        ),
        r is Ok && reads_back(wf.deep_view()) ==> workflow_found(
            final(db).deep_view(),
            uuid_text(wf.run_id),
        ) == Ok::<Option<WorkflowInstanceView>, Text>(Some(to_the_second(wf.deep_view()))),
{
    let row: WorkflowRow = WorkflowRow {
        run_id: uuid_to_text(wf.run_id),
        workflow_id: wf.workflow_id.clone(),
        name: wf.name.clone(),
        task_queue: wf.task_queue.clone(),
        state: wf.state,
        args_json: wf.args_json.to_text(),
        result_json: to_json_column(wf.result_json.as_ref()),
        execution_timeout_secs: to_signed(wf.timeouts.execution_timeout_secs),
        run_timeout_secs: to_signed(wf.timeouts.run_timeout_secs),
        task_timeout_secs: to_signed(wf.timeouts.task_timeout_secs),
        started_at: to_time_column(&wf.started_at),
        completed_at: to_time_column(&wf.completed_at),
        namespace: wf.namespace.clone(),
    };
    if find_row(&db.workflows, row.run_id.as_str()).is_some() {
        return Err("UNIQUE constraint failed: workflows.run_id".to_owned());
    }
    let ghost record = row.deep_view();
    db.workflows.push(row);
    proof {
        assert(record =~= workflow_record(wf.deep_view()));
        assert(db.workflows.deep_view() =~= old(db).workflows.deep_view().push(record));
        lemma_with_key_push(old(db).workflows.deep_view(), record, record.run_id);
        lemma_signed_unsigned(wf.timeouts.execution_timeout_secs);
        lemma_signed_unsigned(wf.timeouts.run_timeout_secs);
        lemma_signed_unsigned(wf.timeouts.task_timeout_secs);
    }
    Ok(())
}

// ---- update ---------------------------------------------------------------------------------

/// A row with its state, result and end set.
pub open spec fn state_set(
    row: WorkflowRecord,
    state: WorkflowState,
    result: Option<Text>,
    completed_at: Option<Text>,
) -> WorkflowRecord {
    WorkflowRecord { state, result_json: result, completed_at, ..row }
}

/// The tables with the state, result and end of a run set.
pub open spec fn workflow_state_updated(
    s: Store,
    run_id: Text,
    state: WorkflowState,
    result: Option<Text>,
    completed_at: Option<Timestamp>,
) -> Store {
    Store {
        workflows: changed(
            s.workflows,
            run_id,
            |row: WorkflowRecord| state_set(row, state, result, time_column(completed_at)),
        ),
        ..s
    }
}

/// Update the state of a workflow, optionally setting result and completion time. What was set is
/// found again, with the time cut to whole seconds.
pub fn update_workflow_state(
    db: &mut Database,
    run_id: &str,
    new_state: WorkflowState,
    result_json: Option<&Json>,
    completed_at: Option<Timestamp>,
) -> (r: Result<(), String>)
    ensures
        r is Ok,
        final(db).deep_view() == workflow_state_updated(
            old(db).deep_view(),
            run_id@,
            new_state,
            result_json.deep_view(),
            completed_at,
        ),
        stable_column(result_json.deep_view()) ==> (workflow_found(
            old(db).deep_view(),
            run_id@,
        ) matches Ok(Some(wf)) ==> workflow_found(final(db).deep_view(), run_id@) == Ok::<
            Option<WorkflowInstanceView>,
            Text,
        >(
            Some(
                WorkflowInstanceView {
                    state: new_state,
                    result_json: result_json.deep_view(),
                    completed_at: whole_seconds(completed_at),
                    ..wf
                },
            ),
        )),
{
    let result: Option<String> = to_json_column(result_json);
    let ended: Option<String> = to_time_column(&completed_at);
    let ghost before = db.workflows.deep_view();
    let ghost after = workflow_state_updated(
        db.deep_view(),
        run_id@,
        new_state,
        result_json.deep_view(),
        completed_at,
    ).workflows;
    let mut i: usize = 0;
    while i < db.workflows.len()
        invariant
            i <= db.workflows@.len(),
            db.workflows@.len() == before.len(),
            result.deep_view() == result_json.deep_view(),
            ended.deep_view() == time_column(completed_at),
            before == old(db).workflows.deep_view(),
            after == workflow_state_updated(
                old(db).deep_view(),
                run_id@,
                new_state,
                result_json.deep_view(),
                completed_at,
            ).workflows,
            db.namespaces == old(db).namespaces,
            db.schedules == old(db).schedules,
            db.steps == old(db).steps,
            db.activities == old(db).activities,
            forall|j: int| 0 <= j < i ==> #[trigger] db.workflows@[j].deep_view() == after[j],
            forall|j: int|
                i <= j < before.len() ==> #[trigger] db.workflows@[j].deep_view() == before[j],
        decreases before.len() - i,
    {
        proof {
            assert(db.workflows@[i as int].deep_view() == before[i as int]);
        }
        if text_eq(db.workflows[i].run_id.as_str(), run_id) {
            let row: &mut WorkflowRow = &mut db.workflows[i];
            row.state = new_state;
            row.result_json = result.clone();
            row.completed_at = ended.clone();
        }
        i += 1;
    }
    proof {
        assert(db.workflows.deep_view() =~= after);
        lemma_with_key_changed(
            before,
            run_id@,
            |row: WorkflowRecord|
                state_set(row, new_state, result_json.deep_view(), time_column(completed_at)),
            run_id@,
        );
    }
    Ok(())
}

// ---- cancel ---------------------------------------------------------------------------------

/// A row with its run cancelled at `at`, where the run has not ended.
pub open spec fn cancelled(row: WorkflowRecord, at: Text) -> WorkflowRecord {
    if row.state.active() {
        WorkflowRecord { state: WorkflowState::Cancelled, completed_at: Some(at), ..row }
    } else {
        row
    }
}

/// Some run with this run ID has not ended.
pub open spec fn active_run(rows: Seq<WorkflowRecord>, run_id: Text) -> bool {
    exists|i: int|
        0 <= i < rows.len() && (#[trigger] rows[i]).run_id == run_id && rows[i].state.active()
}

/// The tables with a run cancelled, and the outcome: a run that is not there or has ended is
/// refused.
pub open spec fn workflow_cancelled(s: Store, run_id: Text, now: Timestamp) -> (
    Store,
    Result<(), Text>,
) {
    if active_run(s.workflows, run_id) {
        (
            Store {
                workflows: changed(
                    s.workflows,
                    run_id,
                    |row: WorkflowRecord| cancelled(row, time_text(now)),
                ),
                ..s
            },
            Ok(()),
        )
    } else {
        (s, Err("Workflow not found or already in terminal state"@))
    }
}

/// Cancel a workflow at `now` by setting its state to 'cancelled'.
pub fn cancel_workflow_at(db: &mut Database, run_id: &str, now: &Timestamp) -> (r: Result<
    (),
    String,
>)
    ensures
        (final(db).deep_view(), outcome(r)) == workflow_cancelled(
            old(db).deep_view(),
            run_id@,
            *now,
        ),
{
    let ghost before = db.workflows.deep_view();
    let ghost after = changed(
        before,
        run_id@,
        |row: WorkflowRecord| cancelled(row, time_text(*now)),
    );
    let mut found: bool = false;
    let mut i: usize = 0;
    while i < db.workflows.len()
        invariant
            i <= db.workflows@.len(),
            db.workflows@.len() == before.len(),
            before == old(db).workflows.deep_view(),
            after == changed(
                before,
                run_id@,
                |row: WorkflowRecord| cancelled(row, time_text(*now)),
            ),
            db.namespaces == old(db).namespaces,
            db.schedules == old(db).schedules,
            db.steps == old(db).steps,
            db.activities == old(db).activities,
            forall|j: int| 0 <= j < i ==> #[trigger] db.workflows@[j].deep_view() == after[j],
            forall|j: int|
                i <= j < before.len() ==> #[trigger] db.workflows@[j].deep_view() == before[j],
            found ==> active_run(before, run_id@),
            !found ==> forall|j: int|
                0 <= j < i ==> !((#[trigger] before[j]).run_id == run_id@
                    && before[j].state.active()),
        decreases before.len() - i,
    {
        proof {
            assert(db.workflows@[i as int].deep_view() == before[i as int]);
        }
        if db.workflows[i].state.is_active() && text_eq(db.workflows[i].run_id.as_str(), run_id) {
            let row: &mut WorkflowRow = &mut db.workflows[i];
            row.state = WorkflowState::Cancelled;
            row.completed_at = Some(format_datetime(now));
            found = true;
        }
        i += 1;
    }
    proof {
        assert(db.workflows.deep_view() =~= after);
        if !found {
            assert(after =~= before);
        }
    }
    if found {
        Ok(())
    } else {
        Err("Workflow not found or already in terminal state".to_owned())
    }
}

/// Cancel a workflow by setting its state to 'cancelled'.
pub fn cancel_workflow(db: &mut Database, run_id: &str) -> (r: Result<(), String>)
    ensures
        exists|now: Timestamp|
            clock_shows(now) && (final(db).deep_view(), outcome(r)) == #[trigger] workflow_cancelled(
                old(db).deep_view(),
                run_id@,
                now,
            ),
{
    let now: Timestamp = utc_now();
    cancel_workflow_at(db, run_id, &now)
}

} // verus!
