//! What a request does, in terms of what was asked and of the rows that are there afterwards, and
//! what is told of the rows.

use vstd::prelude::*;
use crate::clock::{time_in, time_text, Timestamp};
use crate::db::rows::{lemma_with_key, with_key, Keyed, OverlapColumn, PolicyColumnView, ScheduleRecord, Store, TimeoutsColumnView, WorkflowRecord};
use crate::db::schedules::{schedule_deleted, schedule_found, schedule_in, schedule_record, schedule_rows_listed, schedules_in};
use crate::db::workflows::{workflow_in, workflow_rows_listed, workflows_in};
use crate::definitions::workflow_definition;
use crate::engine::EngineEventView;
use crate::ids::{uuid_parse, uuid_text};
use crate::json::{by_key, json_list_text, json_object_text, json_parse, json_string_list, json_string_map, keys_rise, law_by_key, law_values_behind_count, string_args, value_of, Entries};
use crate::laws::rows::{law_run_inserted, law_run_read, law_schedule_columns, law_schedule_inserted, law_schedule_read, law_step_inserted_row, same_bits, step_holds};
use crate::laws::scheduling::{law_schedules_by_namespace, law_workflows_by_namespace, lemma_schedules_in};
use crate::schedule::{OverlapPolicy, ScheduleView};
use crate::service::schedules::{schedule_asked, schedule_created, schedule_info, schedule_updated, schedules_told, CreateScheduleRequestView, ScheduleInfoView, SpecMessageView, TimeoutsMessage};
use crate::service::status::or_default;
use crate::service::workflows::{args_merged, cancel_told, run_asked, step_args, steps_asked, steps_created, workflow_begun, workflow_info, workflow_told, workflows_told, StartWorkflowRequestView, WorkflowInfoView};
use crate::text::Text;
use crate::workflow::{WorkflowInstanceView, WorkflowStepInstanceView};

verus! {

// ---- starting a workflow --------------------------------------------------------------------

/// Creating steps puts each at the end of the table, in their order, and changes no other table.
pub proof fn law_steps_created(s: Store, steps: Seq<WorkflowStepInstanceView>, now: Timestamp)
    ensures
        ({
            let (after, r) = steps_created(s, steps, now);
            let n = s.steps.len() as int;
            &&& after.schedules == s.schedules && after.workflows == s.workflows
                && after.activities == s.activities && after.namespaces == s.namespaces
            &&& after.steps.len() >= n
            &&& forall|i: int| 0 <= i < n ==> (#[trigger] after.steps[i]) == s.steps[i]
            &&& r is Ok ==> after.steps.len() == n + steps.len() && forall|i: int|
                0 <= i < steps.len() ==> step_holds(#[trigger] after.steps[n + i], steps[i], now)
        }),
    decreases steps.len(),
{
    if steps.len() > 0 {
        let front = steps.drop_last();
        law_steps_created(s, front, now);
        let (before, earlier) = steps_created(s, front, now);
        let (after, r) = steps_created(s, steps, now);
        if earlier is Ok {
            law_step_inserted_row(before, steps.last(), now);
            if r is Ok {
                let n = s.steps.len() as int;
                assert forall|i: int| 0 <= i < steps.len() implies step_holds(
                    #[trigger] after.steps[n + i],
                    steps[i],
                    now,
                ) by {
                    if i < front.len() {
                        assert(after.steps[n + i] == before.steps[n + i]);
                        assert(front[i] == steps[i]);
                    }
                }
            }
        }
    }
}

/// A name, or `default` where it is empty.
pub open spec fn named_or_default(column: Text, name: Text) -> bool {
    if name.len() == 0 {
        column == "default"@
    } else {
        column == name
    }
}

/// A limit that was asked for: none where the number is 0.
pub open spec fn limit_asked(column: Option<i64>, secs: u64) -> bool {
    if secs == 0 {
        column is None
    } else {
        column == Some(secs as i64)
    }
}

/// The limits that were asked for; none where no limits were given.
pub open spec fn limits_asked(row: WorkflowRecord, timeouts: Option<TimeoutsMessage>) -> bool {
    match timeouts {
        Some(t) => limit_asked(row.execution_timeout_secs, t.execution_timeout_secs) && limit_asked(
            row.run_timeout_secs,
            t.run_timeout_secs,
        ) && limit_asked(row.task_timeout_secs, t.task_timeout_secs),
        None => row.execution_timeout_secs is None && row.run_timeout_secs is None
            && row.task_timeout_secs is None,
    }
}

/// The arguments of a step: none where the request has none; else those of the request and of the
/// step's own template, by their keys, where a value of the template counts.
pub proof fn law_step_args(args: Entries, template: Entries, key: Text)
    ensures
        args.len() == 0 ==> step_args(args, template) == "{}"@ && args_merged(args, template).len()
            == 0,
        args.len() > 0 ==> {
            let all = args_merged(args, template);
            &&& step_args(args, template) == json_object_text(all)
            &&& keys_rise(all)
            &&& value_of(template, key) matches Some(value) ==> value_of(all, key) == Some(value)
            &&& value_of(template, key) is None ==> value_of(all, key) == value_of(args, key)
        },
{
    law_by_key(args + template, key);
    law_values_behind_count(args, template, key);
}

/// A workflow that is started successfully is a new run at the end of its table, under the run ID
/// that is answered: in the namespace and on the task queue that were asked for, or `default` where
/// they are empty; pending, not started and not ended. Its steps follow those that were there: one
/// for each step of the definition, in order, waiting and not tried yet. No other run or step
/// changes.
pub proof fn law_workflow_begun(
    s: Store,
    req: StartWorkflowRequestView,
    run_id: u128,
    ids: Seq<u128>,
    now: Timestamp,
)
    ensures
        ({
            let (after, r) = workflow_begun(s, req, run_id, ids, now);
            let n = s.workflows.len() as int;
            let m = s.steps.len() as int;
            let defs = workflow_definition(req.workflow_name);
            r matches Ok((id, event)) ==> {
                let row = after.workflows[n];
                &&& id == uuid_text(run_id)
                &&& event == (EngineEventView::WorkflowCreated { run_id: id })
                &&& after.workflows.len() == n + 1
                &&& forall|i: int| 0 <= i < n ==> (#[trigger] after.workflows[i]) == s.workflows[i]
                &&& with_key(after.workflows, id) == Some(row)
                &&& row.run_id == id
                &&& named_or_default(row.namespace, req.namespace)
                &&& named_or_default(row.task_queue, req.task_queue)
                &&& row.name == req.workflow_name
                &&& req.workflow_id.len() > 0 ==> row.workflow_id == req.workflow_id
                &&& req.workflow_id.len() == 0 && id.len() >= 8 ==> row.workflow_id
                    == req.workflow_name + "-"@ + id.take(8)
                &&& row.state is Pending && row.started_at is None && row.completed_at is None
                    && row.result_json is None
                &&& limits_asked(row, req.timeouts)
                &&& row.args_json == if req.args.len() == 0 {
                    "{}"@
                } else {
                    json_object_text(by_key(req.args))
                }
                &&& after.steps.len() == m + defs.len()
                &&& forall|i: int| 0 <= i < m ==> (#[trigger] after.steps[i]) == s.steps[i]
                &&& forall|i: int|
                    0 <= i < defs.len() ==> {
                        let step = #[trigger] after.steps[m + i];
                        &&& step.id == uuid_text(ids[i])
                        &&& step.workflow_run_id == id
                        &&& step.step_index == i
                        &&& step.activity_name == defs[i].activity_name
                        &&& step.retry_policy == PolicyColumnView::Policy(defs[i].retry_policy)
                        &&& step.timeout_secs == defs[i].timeout_secs as i64
                        &&& same_bits(step.heartbeat_timeout_secs, defs[i].heartbeat_timeout_secs)
                        &&& step.state is Pending && step.attempt == 0 && step.result_json is None
                            && step.next_retry_at is None
                        &&& step.created_at == time_text(now)
                        &&& step.args_json == if req.args.len() == 0 {
                            "{}"@
                        } else {
                            json_object_text(by_key(req.args + defs[i].args_template))
                        }
                    }
                &&& after.schedules == s.schedules && after.activities == s.activities
                    && after.namespaces == s.namespaces
            }
        }),
        workflow_begun(s, req, run_id, ids, now).1 matches Err(e) ==> e.code is Internal,
{
    let wf = run_asked(req, run_id);
    law_run_inserted(s, wf);
    let (with_run, r) = crate::db::workflows::workflow_inserted(s, wf);
    if r is Ok {
        let steps = steps_asked(req, run_id, ids);
        law_steps_created(with_run, steps, now);
        let (after, r) = workflow_begun(s, req, run_id, ids, now);
        if r is Ok {
            let n = s.workflows.len() as int;
            let m = s.steps.len() as int;
            let row = after.workflows[n];
            assert(row.key() == uuid_text(run_id));
            assert forall|i: int| 0 <= i < n implies (#[trigger] after.workflows[i]).key()
                != uuid_text(run_id) by {
                assert(s.workflows[i].run_id != uuid_text(run_id));
            }
            crate::db::rows::lemma_first_with_key(after.workflows, uuid_text(run_id), n);
            let defs = workflow_definition(req.workflow_name);
            assert forall|i: int| 0 <= i < defs.len() implies step_holds(
                #[trigger] after.steps[m + i],
                steps[i],
                now,
            ) by {}
        }
    }
}

/// A workflow that is started successfully is in the list of the namespace that was asked for, or of
/// `default` where none was, and in the list of no other namespace.
pub proof fn law_started_workflow_is_listed(
    s: Store,
    req: StartWorkflowRequestView,
    run_id: u128,
    ids: Seq<u128>,
    now: Timestamp,
    namespace: Text,
)
    requires
        workflow_begun(s, req, run_id, ids, now).1 is Ok,
    ensures
        ({
            let after = workflow_begun(s, req, run_id, ids, now).0;
            let list = workflow_rows_listed(after.workflows, namespace, None);
            (exists|p: int| 0 <= p < list.len() && (#[trigger] list[p]).run_id == uuid_text(run_id))
                <==> named_or_default(namespace, req.namespace)
        }),
{
    law_workflow_begun(s, req, run_id, ids, now);
    let after = workflow_begun(s, req, run_id, ids, now).0;
    let list = workflow_rows_listed(after.workflows, namespace, None);
    let row = after.workflows[s.workflows.len() as int];
    law_workflows_by_namespace(after.workflows, namespace, None, row);
    assert(after.workflows.contains(row));
    if named_or_default(namespace, req.namespace) {
        let p = choose|p: int| 0 <= p < list.len() && list[p] == row;
        assert(list[p].run_id == uuid_text(run_id));
    }
    if exists|p: int| 0 <= p < list.len() && (#[trigger] list[p]).run_id == uuid_text(run_id) {
        let p = choose|p: int|
            0 <= p < list.len() && (#[trigger] list[p]).run_id == uuid_text(run_id);
        law_workflows_by_namespace(after.workflows, namespace, None, list[p]);
        assert(list.contains(list[p]));
        let k = choose|k: int| 0 <= k < after.workflows.len() && after.workflows[k] == list[p];
        if k < s.workflows.len() {
            assert(after.workflows[k] == s.workflows[k]);
            law_run_inserted(s, run_asked(req, run_id));
            assert(s.workflows[k].run_id == uuid_text(run_id));
        }
    }
}

// ---- telling of runs ------------------------------------------------------------------------

/// A time column as it is told: the time that it holds, and an empty text where it holds none.
pub open spec fn tells_time(told: Text, column: Option<Text>) -> bool {
    match column {
        Some(text) => time_in(text) is Ok && told == time_text(time_in(text)->Ok_0),
        None => told.len() == 0,
    }
}

/// What is told of a run is what the columns of its row hold.
pub open spec fn tells_run(info: WorkflowInfoView, row: WorkflowRecord) -> bool {
    &&& uuid_parse(row.run_id) is Ok
    &&& info.workflow_run_id == uuid_text(uuid_parse(row.run_id)->Ok_0)
    &&& info.workflow_id == row.workflow_id
    &&& info.name == row.name
    &&& row.state is Pending ==> info.state == "pending"@
    &&& row.state is Running ==> info.state == "running"@
    &&& row.state is Completed ==> info.state == "completed"@
    &&& row.state is Failed ==> info.state == "failed"@
    &&& row.state is Cancelled ==> info.state == "cancelled"@
    &&& json_parse(row.args_json) is Ok
    &&& info.args == string_args(json_parse(row.args_json)->Ok_0)
    &&& match row.result_json {
        Some(text) => json_parse(text) == Ok::<Text, Text>(info.result_json),
        None => info.result_json.len() == 0,
    }
    &&& tells_time(info.started_at, row.started_at)
    &&& tells_time(info.completed_at, row.completed_at)
}

/// What is told of a run has the time in the column of its start as its start, and the time in the
/// column of its end as its end, and none where the column holds none; and the same of the other
/// columns.
pub proof fn law_run_is_told(row: WorkflowRecord)
    ensures
        workflow_in(row) matches Ok(wf) ==> tells_run(workflow_info(wf), row),
{
    law_run_read(row);
}

/// A run that is asked for by its run ID is told as its row has it, and not found exactly where no
/// row has the ID.
pub proof fn law_workflow_told(s: Store, run_id: Text)
    ensures
        match workflow_told(s, run_id) {
            Ok(info) => exists|i: int|
                0 <= i < s.workflows.len() && (#[trigger] s.workflows[i]).run_id == run_id
                    && tells_run(info, s.workflows[i]),
            Err(e) => if exists|i: int|
                0 <= i < s.workflows.len() && (#[trigger] s.workflows[i]).run_id == run_id {
                e.code is Internal
            } else {
                e.code is NotFound && e.message == "Workflow not found"@
            },
        },
{
    lemma_with_key(s.workflows, run_id);
    if let Some(row) = with_key(s.workflows, run_id) {
        let i = choose|i: int| 0 <= i < s.workflows.len() && s.workflows[i] == row;
        assert(s.workflows[i].key() == run_id);
        law_run_is_told(row);
    } else {
        assert forall|i: int| 0 <= i < s.workflows.len() implies (#[trigger] s.workflows[i]).run_id
            != run_id by {
            if s.workflows[i].run_id == run_id {
                assert(s.workflows[i].key() == run_id);
            }
        }
    }
}

/// The runs that rows hold are as many as the rows, each that of its row; all are read exactly where
/// each can be.
pub proof fn law_runs_read(rows: Seq<WorkflowRecord>)
    ensures
        workflows_in(rows) matches Ok(list) ==> list.len() == rows.len() && forall|i: int|
            0 <= i < list.len() ==> workflow_in(rows[i]) == Ok::<WorkflowInstanceView, Text>(
                #[trigger] list[i],
            ),
        workflows_in(rows) is Ok <==> forall|i: int|
            0 <= i < rows.len() ==> workflow_in(#[trigger] rows[i]) is Ok,
    decreases rows.len(),
{
    if rows.len() > 0 {
        let front = rows.drop_last();
        law_runs_read(front);
        if forall|i: int| 0 <= i < rows.len() ==> workflow_in(#[trigger] rows[i]) is Ok {
            assert forall|i: int| 0 <= i < front.len() implies workflow_in(
                #[trigger] front[i],
            ) is Ok by {
                assert(front[i] == rows[i]);
            }
            assert(workflow_in(rows[rows.len() - 1]) is Ok);
        }
        if workflows_in(rows) is Ok {
            assert forall|i: int| 0 <= i < rows.len() implies workflow_in(
                #[trigger] rows[i],
            ) is Ok by {
                if i < front.len() {
                    assert(front[i] == rows[i]);
                } else {
                    assert(rows[i] == rows.last());
                }
            }
        }
    }
}

/// A list of runs tells of the runs of the namespace, or of `default` where none is named: of every
/// one.
pub proof fn law_workflows_told(s: Store, namespace: Text, row: WorkflowRecord)
    requires
        workflows_told(s, namespace) is Ok,
    ensures
        ({
            let list = workflows_told(s, namespace)->Ok_0;
            s.workflows.contains(row) && named_or_default(row.namespace, namespace) ==> exists|p: int| 0 <= p < list.len() && tells_run(#[trigger] list[p], row)
        }),
{
    let ns = or_default(namespace);
    let rows = workflow_rows_listed(s.workflows, ns, None);
    law_runs_read(rows);
    let all = workflows_in(rows)->Ok_0;
    let list = workflows_told(s, namespace)->Ok_0;
    law_workflows_by_namespace(s.workflows, ns, None, row);
    if s.workflows.contains(row) && named_or_default(row.namespace, namespace) {
        let p = choose|p: int| 0 <= p < rows.len() && rows[p] == row;
        law_run_is_told(rows[p]);
        assert(workflow_in(rows[p]) == Ok::<WorkflowInstanceView, Text>(all[p]));
        assert(tells_run(list[p], row));
    }
}

/// What is in the list of a namespace is told of a run of that namespace.
pub proof fn law_told_run_is_there(s: Store, namespace: Text, p: int)
    requires
        workflows_told(s, namespace) matches Ok(list) && 0 <= p < list.len(),
    ensures
        exists|i: int|
            0 <= i < s.workflows.len() && named_or_default(
                (#[trigger] s.workflows[i]).namespace,
                namespace,
            ) && tells_run(workflows_told(s, namespace)->Ok_0[p], s.workflows[i]),
{
    let ns = or_default(namespace);
    let rows = workflow_rows_listed(s.workflows, ns, None);
    law_runs_read(rows);
    let all = workflows_in(rows)->Ok_0;
    let list = workflows_told(s, namespace)->Ok_0;
    law_workflows_by_namespace(s.workflows, ns, None, rows[p]);
    assert(rows.contains(rows[p]));
    let i = choose|i: int| 0 <= i < s.workflows.len() && s.workflows[i] == rows[p];
    law_run_is_told(rows[p]);
    assert(workflow_in(rows[p]) == Ok::<WorkflowInstanceView, Text>(all[p]));
    assert(tells_run(list[p], s.workflows[i]));
}

/// The list of runs is given exactly where every run of the namespace can be read.
pub proof fn law_workflows_listed_where_read(s: Store, namespace: Text)
    ensures
        workflows_told(s, namespace) is Ok <==> forall|i: int|
            0 <= i < s.workflows.len() && named_or_default(
                (#[trigger] s.workflows[i]).namespace,
                namespace,
            ) ==> workflow_in(s.workflows[i]) is Ok,
        workflows_told(s, namespace) matches Err(e) ==> e.code is Internal,
{
    let ns = or_default(namespace);
    let rows = workflow_rows_listed(s.workflows, ns, None);
    law_runs_read(rows);
    assert forall|p: int| 0 <= p < rows.len() implies s.workflows.contains(#[trigger] rows[p])
        && rows[p].namespace == ns by {
        law_workflows_by_namespace(s.workflows, ns, None, rows[p]);
        assert(rows.contains(rows[p]));
    }
    if workflows_told(s, namespace) is Ok {
        assert forall|i: int|
            0 <= i < s.workflows.len() && named_or_default(
                (#[trigger] s.workflows[i]).namespace,
                namespace,
            ) implies workflow_in(s.workflows[i]) is Ok by {
            law_workflows_by_namespace(s.workflows, ns, None, s.workflows[i]);
            let p = choose|p: int| 0 <= p < rows.len() && rows[p] == s.workflows[i];
            assert(workflow_in(rows[p]) is Ok);
        }
    }
    if forall|i: int|
        0 <= i < s.workflows.len() && named_or_default(
            (#[trigger] s.workflows[i]).namespace,
            namespace,
        ) ==> workflow_in(s.workflows[i]) is Ok {
        assert forall|p: int| 0 <= p < rows.len() implies workflow_in(#[trigger] rows[p]) is Ok by {
            let i = choose|i: int| 0 <= i < s.workflows.len() && s.workflows[i] == rows[p];
            assert(named_or_default(s.workflows[i].namespace, namespace));
        }
    }
}

/// A request to cancel succeeds exactly where a run with the ID is pending or running, and that run
/// is then cancelled, with the time as its end.
pub proof fn law_cancel_told(s: Store, run_id: Text, now: Timestamp)
    ensures
        ({
            let (after, r) = cancel_told(s, run_id, now);
            let open = exists|i: int|
                0 <= i < s.workflows.len() && (#[trigger] s.workflows[i]).run_id == run_id && (
                s.workflows[i].state is Pending || s.workflows[i].state is Running);
            &&& open <==> r is Ok
            &&& r matches Ok(done) ==> done
            &&& r matches Err(e) ==> e.code is Internal && after == s
            &&& forall|i: int|
                0 <= i < s.workflows.len() && (#[trigger] s.workflows[i]).run_id == run_id && (
                s.workflows[i].state is Pending || s.workflows[i].state is Running) ==> {
                    &&& after.workflows[i].state is Cancelled
                    &&& after.workflows[i].completed_at == Some(time_text(now))
                }
            &&& after.steps == s.steps && after.activities == s.activities && after.schedules
                == s.schedules && after.namespaces == s.namespaces
        }),
{
    let (after, r) = cancel_told(s, run_id, now);
    if s.workflows.len() > 0 {
        crate::laws::rows::law_run_cancelled(s, run_id, now, 0);
    }
    assert forall|i: int|
        0 <= i < s.workflows.len() && (#[trigger] s.workflows[i]).run_id == run_id && (
        s.workflows[i].state is Pending || s.workflows[i].state is Running) implies r is Ok
        && after.workflows[i].state is Cancelled && after.workflows[i].completed_at == Some(
        time_text(now),
    ) by {
        crate::laws::rows::law_run_cancelled(s, run_id, now, i);
    }
}

// ---- schedules ------------------------------------------------------------------------------

/// The overlap policy that a word asks for: `skip`, which is also meant where no word is given,
/// `buffer` for one pending run, and `terminate`.
pub open spec fn word_means(word: Option<Text>, policy: OverlapColumn) -> bool {
    match word {
        None => policy is Skip,
        Some(word) => {
            &&& word.len() == 0 || word == "skip"@ ==> policy is Skip
            &&& word == "buffer"@ ==> policy == OverlapColumn::Buffer(1)
            &&& word == "terminate"@ ==> policy is Terminate
        },
    }
}

/// A word that names an overlap policy, or none.
pub open spec fn known_word(word: Option<Text>) -> bool {
    word matches Some(word) ==> word.len() == 0 || word == "skip"@ || word == "buffer"@ || word
        == "terminate"@
}

/// A trigger that can be read: cron expressions, or an interval with its seconds.
pub open spec fn known_trigger(spec: SpecMessageView) -> bool {
    spec.spec_type == "cron"@ || (spec.spec_type == "interval"@ && spec.interval_seconds is Some)
}

/// The columns of the trigger that was asked for.
pub open spec fn trigger_asked(row: ScheduleRecord, spec: SpecMessageView) -> bool {
    &&& spec.spec_type == "cron"@ ==> row.spec_type is Cron && row.cron_expressions == Some(
        json_list_text(spec.cron_expressions),
    ) && row.interval_seconds is None
    &&& spec.spec_type == "interval"@ ==> row.spec_type is Interval && row.cron_expressions is None
        && (spec.interval_seconds matches Some(secs) ==> row.interval_seconds == Some(secs as i64))
}

proof fn lemma_words()
    ensures
        "skip"@.len() == 4,
        "buffer"@.len() == 6,
        "terminate"@.len() == 9,
        "cron"@.len() == 4,
        "interval"@.len() == 8,
        "skip"@ != "buffer"@,
        "skip"@ != "terminate"@,
        "buffer"@ != "terminate"@,
        "cron"@ != "interval"@,
{
    reveal_strlit("skip");
    reveal_strlit("buffer");
    reveal_strlit("terminate");
    reveal_strlit("cron");
    reveal_strlit("interval");
}

/// A limit of a schedule's runs: none where the number is 0.
pub open spec fn limit_means(t: Option<u64>, secs: u64) -> bool {
    if secs == 0 {
        t is None
    } else {
        t == Some(secs)
    }
}

/// A schedule is created exactly where the request has a trigger that can be read, an action and a
/// known policy word or none, and no schedule has its ID. It is then the last row of its table, with
/// what was asked for in each column; the word `skip` or none gives `Skip`, `buffer` gives one
/// buffered run and `terminate` gives `Terminate`. Else nothing changes, and the code tells a bad
/// request from an ID that is taken.
pub proof fn law_schedule_created(s: Store, req: CreateScheduleRequestView, now: Timestamp)
    ensures
        ({
            let (after, r) = schedule_created(s, req, now);
            let n = s.schedules.len() as int;
            let well_asked = req.spec is Some && req.action is Some && known_trigger(req.spec->0)
                && known_word(req.policy);
            let taken = exists|i: int|
                0 <= i < n && (#[trigger] s.schedules[i]).schedule_id == req.schedule_id;
            &&& r is Ok <==> well_asked && !taken
            &&& r matches Err(e) ==> after == s && (e.code is InvalidArgument <==> !well_asked) && (
            e.code is Internal <==> well_asked)
            &&& r matches Ok((id, event)) ==> {
                let row = after.schedules[n];
                let action = req.action->0;
                &&& id == req.schedule_id
                &&& event is ScheduleChange
                &&& after.schedules.len() == n + 1
                &&& forall|i: int| 0 <= i < n ==> (#[trigger] after.schedules[i]) == s.schedules[i]
                &&& row.schedule_id == req.schedule_id
                &&& row.namespace == req.namespace
                &&& trigger_asked(row, req.spec->0)
                &&& word_means(req.policy, row.overlap_policy)
                &&& row.action_workflow_name == action.workflow_name
                &&& row.action_task_queue == action.task_queue
                &&& row.action_id == Some(action.id)
                &&& row.action_args_json == json_object_text(by_key(action.args))
                &&& row.timeouts matches TimeoutsColumnView::Timeouts(t) && match action.timeouts {
                    Some(asked) => limit_means(
                        t.execution_timeout_secs,
                        asked.execution_timeout_secs,
                    ) && limit_means(t.run_timeout_secs, asked.run_timeout_secs) && limit_means(
                        t.task_timeout_secs,
                        asked.task_timeout_secs,
                    ),
                    None => t.execution_timeout_secs is None && t.run_timeout_secs is None
                        && t.task_timeout_secs is None,
                }
                &&& row.created_at == time_text(now) && row.updated_at == time_text(now)
                &&& after.workflows == s.workflows && after.steps == s.steps && after.activities
                    == s.activities && after.namespaces == s.namespaces
            }
        }),
{
    lemma_words();
    if let Ok(schedule) = schedule_asked(req, now) {
        law_schedule_columns(schedule, now);
        law_schedule_inserted(s, schedule_record(schedule, now));
    }
}

/// A schedule that is created with the word `skip`, `buffer` or `terminate` is found, where its row
/// can be read, with the policy `Skip`, `Buffer(1)` or `TerminateExisting`; without a word, with
/// `Skip`.
pub proof fn law_policy_word_is_kept(s: Store, req: CreateScheduleRequestView, now: Timestamp)
    requires
        schedule_created(s, req, now).1 is Ok,
    ensures
        schedule_found(schedule_created(s, req, now).0, req.schedule_id) matches Ok(Some(schedule))
            ==> {
            &&& schedule.schedule_id == req.schedule_id
            &&& schedule.namespace == req.namespace
            &&& req.policy is None ==> schedule.policy is Skip
            &&& req.policy == Some("skip"@) ==> schedule.policy is Skip
            &&& req.policy == Some("buffer"@) ==> schedule.policy == OverlapPolicy::Buffer(1)
            &&& req.policy == Some("terminate"@) ==> schedule.policy is TerminateExisting
        },
        !(schedule_found(schedule_created(s, req, now).0, req.schedule_id) matches Ok(None)),
{
    lemma_words();
    law_schedule_created(s, req, now);
    let after = schedule_created(s, req, now).0;
    let n = s.schedules.len() as int;
    lemma_added_schedule(s, after, req.schedule_id);
    law_schedule_read(after.schedules[n]);
}

/// A row that was put at the end of the schedules, with an ID that none had, is found with it.
proof fn lemma_added_schedule(s: Store, after: Store, schedule_id: Text)
    requires
        after.schedules.len() == s.schedules.len() + 1,
        after.schedules[s.schedules.len() as int].schedule_id == schedule_id,
        forall|i: int|
            0 <= i < s.schedules.len() ==> (#[trigger] after.schedules[i]) == s.schedules[i],
        !exists|i: int|
            0 <= i < s.schedules.len() && (#[trigger] s.schedules[i]).schedule_id == schedule_id,
    ensures
        with_key(after.schedules, schedule_id) == Some(after.schedules[s.schedules.len() as int]),
{
    let n = s.schedules.len() as int;
    assert(after.schedules[n].key() == schedule_id);
    assert forall|i: int| 0 <= i < n implies (#[trigger] after.schedules[i]).key()
        != schedule_id by {
        assert(s.schedules[i].schedule_id != schedule_id);
    }
    crate::db::rows::lemma_first_with_key(after.schedules, schedule_id, n);
}

/// What is told of a schedule is what the columns of its row hold.
pub open spec fn tells_schedule(info: ScheduleInfoView, row: ScheduleRecord) -> bool {
    &&& info.schedule_id == row.schedule_id
    &&& info.namespace == row.namespace
    &&& row.spec_type is Cron ==> info.spec.spec_type == "cron"@ && info.spec.interval_seconds
        is None && (row.cron_expressions matches Some(text) ==> json_string_list(text) == Ok::<
        Seq<Text>,
        Text,
    >(info.spec.cron_expressions))
    &&& row.spec_type is Interval ==> info.spec.spec_type == "interval"@
        && info.spec.cron_expressions.len() == 0 && (row.interval_seconds matches Some(secs)
        ==> info.spec.interval_seconds == Some(secs as u64))
    &&& row.spec_type is Cron && row.cron_expressions is None ==> info.spec.cron_expressions.len()
        == 0
    &&& row.spec_type is Interval && row.interval_seconds is None ==> info.spec.interval_seconds
        == Some(0u64)
    &&& row.overlap_policy is Skip ==> info.policy == "skip"@
    &&& row.overlap_policy is Buffer ==> info.policy == "buffer"@
    &&& row.overlap_policy is Terminate ==> info.policy == "terminate"@
    &&& info.action.workflow_name == row.action_workflow_name
    &&& info.action.task_queue == row.action_task_queue
    &&& row.action_id matches Some(id) ==> info.action.id == id
    &&& row.action_args_json.len() > 0 ==> json_string_map(row.action_args_json) == Ok::<
        Seq<(Text, Text)>,
        Text,
    >(info.action.args)
    &&& row.action_id is None ==> info.action.id.len() == 0
    &&& row.action_args_json.len() == 0 ==> info.action.args.len() == 0
    &&& match (row.timeouts, info.action.timeouts) {
        (TimeoutsColumnView::Timeouts(t), Some(told)) => {
            &&& told.execution_timeout_secs == t.execution_timeout_secs.unwrap_or(0)
            &&& told.run_timeout_secs == t.run_timeout_secs.unwrap_or(0)
            &&& told.task_timeout_secs == t.task_timeout_secs.unwrap_or(0)
        },
        _ => false,
    }
    &&& time_in(row.created_at) is Ok && info.created_at == time_text(
        time_in(row.created_at)->Ok_0,
    )
}

/// What is told of a schedule has in each place what the column of that place holds.
pub proof fn law_schedule_is_told(row: ScheduleRecord)
    ensures
        schedule_in(row) matches Ok(schedule) ==> tells_schedule(schedule_info(schedule), row),
{
    law_schedule_read(row);
}

/// A list of schedules tells of the schedules of the namespace, or of `default` where none is
/// named: of every one.
pub proof fn law_schedules_told(s: Store, namespace: Text, row: ScheduleRecord)
    requires
        schedules_told(s, namespace) is Ok,
    ensures
        ({
            let list = schedules_told(s, namespace)->Ok_0;
            s.schedules.contains(row) && named_or_default(row.namespace, namespace) ==> exists|p: int| 0 <= p < list.len() && tells_schedule(#[trigger] list[p], row)
        }),
{
    let ns = or_default(namespace);
    let rows = schedule_rows_listed(s.schedules, ns);
    lemma_schedules_in(rows);
    let all = schedules_in(rows)->Ok_0;
    let list = schedules_told(s, namespace)->Ok_0;
    law_schedules_by_namespace(s.schedules, ns, row);
    if s.schedules.contains(row) && named_or_default(row.namespace, namespace) {
        let p = choose|p: int| 0 <= p < rows.len() && rows[p] == row;
        law_schedule_is_told(rows[p]);
        assert(schedule_in(rows[p]) == Ok::<ScheduleView, Text>(all[p]));
        assert(tells_schedule(list[p], row));
    }
}

/// What is in the list of a namespace is told of a schedule of that namespace.
pub proof fn law_told_schedule_is_there(s: Store, namespace: Text, p: int)
    requires
        schedules_told(s, namespace) matches Ok(list) && 0 <= p < list.len(),
    ensures
        exists|i: int|
            0 <= i < s.schedules.len() && named_or_default(
                (#[trigger] s.schedules[i]).namespace,
                namespace,
            ) && tells_schedule(schedules_told(s, namespace)->Ok_0[p], s.schedules[i]),
{
    let ns = or_default(namespace);
    let rows = schedule_rows_listed(s.schedules, ns);
    lemma_schedules_in(rows);
    let all = schedules_in(rows)->Ok_0;
    let list = schedules_told(s, namespace)->Ok_0;
    law_schedules_by_namespace(s.schedules, ns, rows[p]);
    assert(rows.contains(rows[p]));
    let i = choose|i: int| 0 <= i < s.schedules.len() && s.schedules[i] == rows[p];
    law_schedule_is_told(rows[p]);
    assert(schedule_in(rows[p]) == Ok::<ScheduleView, Text>(all[p]));
    assert(tells_schedule(list[p], s.schedules[i]));
}

/// A schedule that is created with the word `skip`, `buffer` or `terminate` is listed in its
/// namespace with that word.
pub proof fn law_policy_word_is_listed(
    s: Store,
    req: CreateScheduleRequestView,
    now: Timestamp,
    namespace: Text,
    word: Text,
)
    requires
        schedule_created(s, req, now).1 is Ok,
        req.policy == Some(word),
        word.len() > 0,
        named_or_default(req.namespace, namespace),
    ensures
        schedules_told(schedule_created(s, req, now).0, namespace) matches Ok(list) ==> exists|
            p: int,
        |
            0 <= p < list.len() && (#[trigger] list[p]).schedule_id == req.schedule_id
                && list[p].policy == word,
{
    lemma_words();
    law_schedule_created(s, req, now);
    let after = schedule_created(s, req, now).0;
    let row = after.schedules[s.schedules.len() as int];
    if let Ok(list) = schedules_told(after, namespace) {
        law_schedules_told(after, namespace, row);
        assert(after.schedules.contains(row));
        let p = choose|p: int| 0 <= p < list.len() && tells_schedule(#[trigger] list[p], row);
        assert(list[p].schedule_id == req.schedule_id && list[p].policy == word);
    }
}

/// Changing the trigger of a schedule: it succeeds exactly where a trigger is given that can be read
/// and a schedule with the ID is there and can be read. The schedule in the namespace then has the
/// new trigger and the time of the change, and keeps its policy and what it starts; no other
/// schedule changes. Else nothing changes.
pub proof fn law_schedule_updated(
    s: Store,
    schedule_id: Text,
    namespace: Text,
    spec: Option<SpecMessageView>,
    now: Timestamp,
    i: int,
)
    requires
        0 <= i < s.schedules.len(),
    ensures
        ({
            let (after, r) = schedule_updated(s, schedule_id, namespace, spec, now);
            let (a, b) = (s.schedules[i], after.schedules[i]);
            let found = schedule_found(s, schedule_id);
            &&& r is Ok <==> spec is Some && known_trigger(spec->0) && found is Ok && found->Ok_0
                is Some
            &&& r matches Ok((done, event)) ==> done && event is ScheduleChange
            &&& r is Err ==> after == s
            &&& spec is None ==> (r matches Err(e) && e.code is InvalidArgument)
            &&& spec is Some && found is Err ==> (r matches Err(e) && e.code is Internal)
            &&& spec is Some && (found matches Ok(None)) ==> (r matches Err(e) && e.code is NotFound)
            &&& spec is Some && found is Ok && found->Ok_0 is Some && !known_trigger(spec->0) ==> (
            r matches Err(e) && e.code is InvalidArgument)
            &&& !(a.schedule_id == schedule_id && a.namespace == namespace) ==> b == a
            &&& b.schedule_id == a.schedule_id && b.namespace == a.namespace && b.created_at
                == a.created_at
            &&& r is Ok && a.schedule_id == schedule_id && a.namespace == namespace && with_key(
                s.schedules,
                schedule_id,
            ) == Some(a) ==> {
                &&& trigger_asked(b, spec->0)
                &&& b.updated_at == time_text(now)
                &&& b.overlap_policy == a.overlap_policy
                &&& b.action_workflow_name == a.action_workflow_name
                &&& b.action_task_queue == a.action_task_queue
                &&& b.timeouts == a.timeouts
                &&& a.action_id is Some ==> b.action_id == a.action_id
            }
        }),
{
    lemma_words();
    law_schedule_read(s.schedules[i]);
    if let Ok(Some(existing)) = schedule_found(s, schedule_id) {
        if let Some(asked) = spec {
            if let Ok(new) = crate::service::schedules::spec_from(asked) {
                let schedule = ScheduleView { spec: new, updated_at: now, ..existing };
                law_schedule_columns(schedule, now);
                crate::laws::rows::law_schedule_set(
                    s,
                    schedule_id,
                    namespace,
                    schedule,
                    now,
                    i,
                );
            }
        }
    }
}

/// A schedule is deleted, and the answer says so, exactly where one has the ID in the namespace.
pub proof fn law_delete_told(s: Store, schedule_id: Text, namespace: Text)
    ensures
        schedule_deleted(s, schedule_id, namespace).schedules.len() < s.schedules.len() <==> exists|
            i: int,
        |
            0 <= i < s.schedules.len() && (#[trigger] s.schedules[i]).schedule_id == schedule_id
                && s.schedules[i].namespace == namespace,
{
    let test = crate::db::schedules::other_schedule(schedule_id, namespace);
    lemma_filter_len(s.schedules, test);
    if exists|i: int|
        0 <= i < s.schedules.len() && (#[trigger] s.schedules[i]).schedule_id == schedule_id
            && s.schedules[i].namespace == namespace {
        let i = choose|i: int|
            0 <= i < s.schedules.len() && (#[trigger] s.schedules[i]).schedule_id == schedule_id
                && s.schedules[i].namespace == namespace;
        assert(!test(s.schedules[i]));
    } else {
        assert forall|i: int| 0 <= i < s.schedules.len() implies test(#[trigger] s.schedules[i]) by {}
    }
}

/// A filter keeps as many rows as there are exactly where every row passes.
pub(crate) proof fn lemma_filter_len<A>(rows: Seq<A>, test: spec_fn(A) -> bool)
    ensures
        rows.filter(test).len() <= rows.len(),
        rows.filter(test).len() == rows.len() <==> forall|i: int|
            0 <= i < rows.len() ==> test(#[trigger] rows[i]),
    decreases rows.len(),
{
    reveal(Seq::filter);
    if rows.len() > 0 {
        let front = rows.drop_last();
        lemma_filter_len(front, test);
        if forall|i: int| 0 <= i < rows.len() ==> test(#[trigger] rows[i]) {
            assert forall|i: int| 0 <= i < front.len() implies test(#[trigger] front[i]) by {
                assert(front[i] == rows[i]);
            }
            assert(test(rows[rows.len() - 1]));
        }
        if rows.filter(test).len() == rows.len() {
            assert forall|i: int| 0 <= i < rows.len() implies test(#[trigger] rows[i]) by {
                if i < front.len() {
                    assert(front[i] == rows[i]);
                } else {
                    assert(rows[i] == rows.last());
                }
            }
        }
    }
}

} // verus!
