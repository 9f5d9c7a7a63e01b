//! What requests of the Temporal service do, in terms of what was asked and of the rows.

use vstd::prelude::*;
use crate::clock::{time_text, Timestamp};
use crate::db::rows::{with_key, Keyed, OverlapColumn, PolicyColumnView, ScheduleRecord, Store, TimeoutsColumnView};
use crate::definitions::workflow_definition;
use crate::ids::uuid_text;
use crate::json::{by_key, json_list_text, json_object_text, json_string_list};
use crate::laws::requests::{law_steps_created, named_or_default};
use crate::laws::rows::{law_run_inserted, law_schedule_inserted, same_bits, step_holds};
use crate::service::status::or_default;
use crate::service::temporal::{execution_asked, execution_begun, execution_steps, namespace_described, namespace_registered, row_asked, schedule_changed, schedule_created, schedule_described, schedule_place, ScheduleBodyView, StartWorkflowExecutionRequestView};
use crate::text::{lossy_text, Text};

verus! {

// ---- namespaces -----------------------------------------------------------------------------

/// A namespace that is registered is there, once, beside those that were there; and it is described
/// exactly where it is there.
pub proof fn law_namespaces(s: Store, name: Text, other: Text)
    ensures
        ({
            let after = namespace_registered(s, name);
            &&& after.namespaces.contains(other) <==> s.namespaces.contains(other) || other == name
            &&& after.namespaces.len() == s.namespaces.len() + if s.namespaces.contains(name) {
                0int
            } else {
                1int
            }
            &&& after.workflows == s.workflows && after.steps == s.steps && after.activities
                == s.activities && after.schedules == s.schedules
            &&& namespace_described(after, name) == Ok::<Text, crate::service::status::StatusView>(
                name,
            )
            &&& namespace_described(s, other) is Ok <==> s.namespaces.contains(other)
            &&& namespace_described(s, other) matches Ok(told) ==> told == other
            &&& namespace_described(s, other) matches Err(e) ==> e.code is NotFound
        }),
{
    let after = namespace_registered(s, name);
    if !s.namespaces.contains(name) {
        let names = s.namespaces.push(name);
        assert(names[s.namespaces.len() as int] == name);
        if s.namespaces.contains(other) {
            let i = choose|i: int| 0 <= i < s.namespaces.len() && s.namespaces[i] == other;
            assert(names[i] == other);
        }
        if names.contains(other) {
            let i = choose|i: int| 0 <= i < names.len() && names[i] == other;
            if i < s.namespaces.len() {
                assert(s.namespaces[i] == other);
            }
        }
    }
}

// ---- starting a workflow --------------------------------------------------------------------

/// An input as the arguments hold it: the list of its payloads as texts, and the empty object where
/// there is none.
pub open spec fn input_means(args_json: Text, input: Option<Seq<Seq<u8>>>) -> bool {
    if input is None || input->0.len() == 0 {
        args_json == "{}"@
    } else {
        exists|texts: Seq<Text>|
            #![trigger json_list_text(texts)]
            texts.len() == input->0.len() && (forall|i: int|
                0 <= i < texts.len() ==> #[trigger] texts[i] == lossy_text(input->0[i]))
                && args_json == json_list_text(texts)
    }
}

/// A limit in seconds as its column holds it.
pub open spec fn limit_held(column: Option<i64>, limit: Option<i64>) -> bool {
    (column is Some <==> limit is Some) && (limit matches Some(secs) ==> column == Some(
        (secs as u64) as i64,
    ))
}

/// A workflow that is started successfully is a new run at the end of its table, under the run ID
/// that is answered: in the namespace that was asked for, or `default` where that is empty, and on
/// the task queue that was asked for, or `default` where none was; pending, not started and not
/// ended. Its steps follow those that were there, one for each step of the definition, in order.
pub proof fn law_execution_begun(
    s: Store,
    req: StartWorkflowExecutionRequestView,
    run_id: u128,
    ids: Seq<u128>,
    now: Timestamp,
)
    ensures
        ({
            let (after, r) = execution_begun(s, req, run_id, ids, now);
            let n = s.workflows.len() as int;
            let m = s.steps.len() as int;
            r matches Ok(id) ==> {
                let row = after.workflows[n];
                let defs = workflow_definition(row.name);
                &&& id == uuid_text(run_id)
                &&& after.workflows.len() == n + 1
                &&& forall|i: int| 0 <= i < n ==> (#[trigger] after.workflows[i]) == s.workflows[i]
                &&& with_key(after.workflows, id) == Some(row)
                &&& row.run_id == id
                &&& named_or_default(row.namespace, req.namespace)
                &&& row.workflow_id == req.workflow_id
                &&& req.workflow_type matches Some(name) ==> row.name == name
                &&& req.workflow_type is None ==> row.name.len() == 0
                &&& req.task_queue matches Some(name) ==> row.task_queue == name
                &&& req.task_queue is None ==> row.task_queue == "default"@
                &&& row.state is Pending && row.started_at is None && row.completed_at is None
                    && row.result_json is None
                &&& limit_held(row.execution_timeout_secs, req.execution_timeout)
                &&& limit_held(row.run_timeout_secs, req.run_timeout)
                &&& limit_held(row.task_timeout_secs, req.task_timeout)
                &&& input_means(row.args_json, req.input)
                &&& after.steps.len() == m + defs.len()
                &&& forall|i: int| 0 <= i < m ==> (#[trigger] after.steps[i]) == s.steps[i]
                &&& forall|i: int|
                    0 <= i < defs.len() ==> {
                        let step = #[trigger] after.steps[m + i];
                        &&& step.id == uuid_text(ids[i])
                        &&& step.workflow_run_id == id
                        &&& step.step_index == i
                        &&& step.activity_name == defs[i].activity_name
                        &&& step.retry_policy == PolicyColumnView::Policy(defs[i].retry_policy)
                        &&& step.timeout_secs == defs[i].timeout_secs as i64
                        &&& same_bits(step.heartbeat_timeout_secs, defs[i].heartbeat_timeout_secs)
                        &&& step.state is Pending && step.attempt == 0 && step.result_json is None
                            && step.next_retry_at is None
                        &&& step.created_at == time_text(now)
                        &&& step.args_json == row.args_json
                    }
                &&& after.schedules == s.schedules && after.activities == s.activities
                    && after.namespaces == s.namespaces
            }
        }),
        execution_begun(s, req, run_id, ids, now).1 matches Err(e) ==> e.code is Internal,
{
    let wf = execution_asked(req, run_id);
    law_run_inserted(s, wf);
    let (with_run, r) = crate::db::workflows::workflow_inserted(s, wf);
    if r is Ok {
        let steps = execution_steps(req, run_id, ids);
        law_steps_created(with_run, steps, now);
        let (after, r) = execution_begun(s, req, run_id, ids, now);
        if r is Ok {
            let n = s.workflows.len() as int;
            let m = s.steps.len() as int;
            let row = after.workflows[n];
            assert(row.key() == uuid_text(run_id));
            assert forall|i: int| 0 <= i < n implies (#[trigger] after.workflows[i]).key()
                != uuid_text(run_id) by {
                assert(s.workflows[i].run_id != uuid_text(run_id));
            }
            crate::db::rows::lemma_first_with_key(after.workflows, uuid_text(run_id), n);
            let defs = workflow_definition(row.name);
            assert forall|i: int| 0 <= i < defs.len() implies step_holds(
                #[trigger] after.steps[m + i],
                steps[i],
                now,
            ) by {}
            if req.input is Some && req.input->0.len() > 0 {
                let texts = req.input->0.map_values(|data: Seq<u8>| lossy_text(data));
                assert(row.args_json == json_list_text(texts));
                assert(input_means(row.args_json, req.input));
            }
        }
    }
}

// ---- schedules ------------------------------------------------------------------------------

/// The overlap policy of a number: 2 and 3 buffer one run, 4 and 5 end the running ones, any other
/// skips.
pub open spec fn number_means(number: Option<i32>, policy: OverlapColumn) -> bool {
    match number {
        Some(n) => {
            &&& n == 2 || n == 3 ==> policy == OverlapColumn::Buffer(1)
            &&& n == 4 || n == 5 ==> policy is Terminate
            &&& !(2 <= n <= 5) ==> policy is Skip
        },
        None => policy is Skip,
    }
}

/// The columns of a trigger: the cron strings where there are any, else the first interval.
pub open spec fn trigger_means(
    row: ScheduleRecord,
    cron_string: Seq<Text>,
    interval: Seq<Option<i64>>,
) -> bool {
    &&& cron_string.len() > 0 ==> row.spec_type is Cron && row.cron_expressions == Some(
        json_list_text(cron_string),
    )
    &&& cron_string.len() == 0 && interval.len() > 0 ==> row.spec_type is Interval
        && row.interval_seconds == Some(
        match interval[0] {
            Some(secs) => secs,
            None => 0,
        },
    )
}

/// The job of a schedule as its column holds it: under `job_id`, and an empty column for no job.
pub open spec fn job_held(column: Text, job_id: Text) -> bool {
    if job_id.len() == 0 {
        column.len() == 0
    } else {
        column == json_object_text(by_key(seq![("job_id"@, job_id)]))
    }
}

/// A schedule is created exactly where its body has cron strings or an interval and starts a
/// workflow, and no schedule has its ID. It is then the last row of its table, in its namespace, or
/// in `default` where that is empty, with what was asked for in each column. Else nothing changes,
/// and the code tells a bad request from an ID that is taken.
pub proof fn law_schedule_asked(
    s: Store,
    schedule_id: Text,
    namespace: Text,
    schedule: Option<ScheduleBodyView>,
    now: Timestamp,
)
    ensures
        ({
            let (after, r) = schedule_created(s, schedule_id, namespace, schedule, now);
            let n = s.schedules.len() as int;
            let well_asked = schedule is Some && schedule->0.spec is Some && schedule->0.action
                is Some && schedule->0.action->0.start_workflow is Some && (
            schedule->0.spec->0.cron_string.len() > 0 || schedule->0.spec->0.interval.len() > 0);
            let taken = exists|i: int|
                0 <= i < n && (#[trigger] s.schedules[i]).schedule_id == schedule_id;
            &&& r is Ok <==> well_asked && !taken
            &&& r matches Err(e) ==> after == s && (e.code is InvalidArgument <==> !well_asked) && (
            e.code is Internal <==> well_asked)
            &&& r is Ok ==> {
                let row = after.schedules[n];
                let spec = schedule->0.spec->0;
                let start = schedule->0.action->0.start_workflow->0;
                &&& after.schedules.len() == n + 1
                &&& forall|i: int| 0 <= i < n ==> (#[trigger] after.schedules[i]) == s.schedules[i]
                &&& row.schedule_id == schedule_id
                &&& named_or_default(row.namespace, namespace)
                &&& trigger_means(row, spec.cron_string, spec.interval)
                &&& row.cron_expressions == Some(json_list_text(spec.cron_string))
                &&& spec.cron_string.len() > 0 ==> row.interval_seconds == Some(0i64)
                &&& number_means(schedule->0.overlap_policy, row.overlap_policy)
                &&& start.workflow_type matches Some(name) ==> row.action_workflow_name == name
                &&& start.workflow_type is None ==> row.action_workflow_name.len() == 0
                &&& start.task_queue matches Some(name) ==> row.action_task_queue == name
                &&& start.task_queue is None ==> row.action_task_queue.len() == 0
                &&& row.action_id == Some(start.workflow_id)
                &&& match start.input {
                    Some(payloads) => if payloads.len() == 0 {
                        row.action_args_json.len() == 0
                    } else {
                        job_held(row.action_args_json, lossy_text(payloads[0]))
                    },
                    None => if "lycus-cron-"@.is_prefix_of(schedule_id) {
                        job_held(row.action_args_json, schedule_id.skip(11))
                    } else {
                        row.action_args_json.len() == 0
                    },
                }
                &&& row.timeouts matches TimeoutsColumnView::Timeouts(t)
                    && t.execution_timeout_secs is None && t.run_timeout_secs is None
                    && t.task_timeout_secs is None
                &&& row.created_at == time_text(now) && row.updated_at == time_text(now)
                &&& after.workflows == s.workflows && after.steps == s.steps && after.activities
                    == s.activities && after.namespaces == s.namespaces
            }
        }),
{
    reveal_strlit("lycus-cron-");
    if let Ok(row) = row_asked(schedule_id, namespace, schedule, now) {
        law_schedule_inserted(s, row);
    }
}

/// A schedule is found by its ID and namespace exactly where a row has both, at the first such row.
pub proof fn law_schedule_place(rows: Seq<ScheduleRecord>, schedule_id: Text, namespace: Text)
    ensures
        match schedule_place(rows, schedule_id, namespace) {
            Some(p) => 0 <= p < rows.len() && rows[p].schedule_id == schedule_id
                && rows[p].namespace == namespace && forall|i: int|
                0 <= i < p ==> !((#[trigger] rows[i]).schedule_id == schedule_id
                    && rows[i].namespace == namespace),
            None => forall|i: int|
                0 <= i < rows.len() ==> !((#[trigger] rows[i]).schedule_id == schedule_id
                    && rows[i].namespace == namespace),
        },
    decreases rows.len(),
{
    if rows.len() > 0 {
        let front = rows.drop_last();
        law_schedule_place(front, schedule_id, namespace);
        assert(rows.last() == rows[rows.len() - 1]);
        assert forall|i: int| 0 <= i < front.len() implies #[trigger] rows[i] == front[i] by {}
    }
}

/// Changing a schedule: it succeeds exactly where the schedule is in the namespace, or in `default`
/// where none is named, and a body is given. The schedule then has the trigger, the policy and what
/// to start that were given, and keeps what was not given; the time of the change is noted. No other
/// schedule changes, and nothing does where it fails.
pub proof fn law_schedule_changed(
    s: Store,
    schedule_id: Text,
    namespace: Text,
    schedule: Option<ScheduleBodyView>,
    now: Timestamp,
    i: int,
)
    requires
        0 <= i < s.schedules.len(),
    ensures
        ({
            let (after, r) = schedule_changed(s, schedule_id, namespace, schedule, now);
            let (a, b) = (s.schedules[i], after.schedules[i]);
            let found = exists|k: int|
                0 <= k < s.schedules.len() && (#[trigger] s.schedules[k]).schedule_id == schedule_id
                    && named_or_default(s.schedules[k].namespace, namespace);
            &&& r is Ok <==> found && schedule is Some
            &&& !found ==> (r matches Err(e) && e.code is NotFound)
            &&& found && schedule is None ==> (r matches Err(e) && e.code is InvalidArgument)
            &&& r is Err ==> after == s
            &&& after.schedules.len() == s.schedules.len()
            &&& !(a.schedule_id == schedule_id && named_or_default(a.namespace, namespace)) ==> b
                == a
            &&& b.schedule_id == a.schedule_id && b.namespace == a.namespace && b.created_at
                == a.created_at && b.timeouts == a.timeouts && b.action_args_json
                == a.action_args_json
            &&& r is Ok && a.schedule_id == schedule_id && named_or_default(a.namespace, namespace)
                ==> {
                let body = schedule->0;
                &&& b.updated_at == time_text(now)
                &&& body.spec matches Some(spec) ==> trigger_means(
                    b,
                    spec.cron_string,
                    spec.interval,
                )
                &&& body.spec is None || (body.spec->0.cron_string.len() == 0
                    && body.spec->0.interval.len() == 0) ==> b.spec_type == a.spec_type
                    && b.cron_expressions == a.cron_expressions && b.interval_seconds
                    == a.interval_seconds
                &&& body.spec is Some && body.spec->0.cron_string.len() > 0 ==> b.interval_seconds
                    == a.interval_seconds
                &&& body.spec is Some && body.spec->0.cron_string.len() == 0 ==> b.cron_expressions
                    == a.cron_expressions
                &&& body.overlap_policy is Some ==> number_means(
                    body.overlap_policy,
                    b.overlap_policy,
                )
                &&& body.overlap_policy is None ==> b.overlap_policy == a.overlap_policy
                &&& body.action is None || body.action->0.start_workflow is None
                    ==> b.action_workflow_name == a.action_workflow_name && b.action_task_queue
                    == a.action_task_queue && b.action_id == a.action_id
                &&& body.action is Some && body.action->0.start_workflow is Some ==> {
                    let start = body.action->0.start_workflow->0;
                    &&& b.action_workflow_name == match start.workflow_type {
                        Some(name) => name,
                        None => a.action_workflow_name,
                    }
                    &&& b.action_task_queue == match start.task_queue {
                        Some(name) => name,
                        None => a.action_task_queue,
                    }
                    &&& start.workflow_id.len() > 0 ==> b.action_id == Some(start.workflow_id)
                    &&& start.workflow_id.len() == 0 ==> b.action_id == a.action_id
                }
            }
            &&& after.workflows == s.workflows && after.steps == s.steps && after.activities
                == s.activities && after.namespaces == s.namespaces
        }),
{
    let ns = or_default(namespace);
    law_schedule_place(s.schedules, schedule_id, ns);
    if exists|k: int|
        0 <= k < s.schedules.len() && (#[trigger] s.schedules[k]).schedule_id == schedule_id
            && named_or_default(s.schedules[k].namespace, namespace) {
        let k = choose|k: int|
            0 <= k < s.schedules.len() && (#[trigger] s.schedules[k]).schedule_id == schedule_id
                && named_or_default(s.schedules[k].namespace, namespace);
        assert(s.schedules[k].namespace == ns);
    }
    if let Some(p) = schedule_place(s.schedules, schedule_id, ns) {
        assert(named_or_default(s.schedules[p].namespace, namespace));
    }
}

/// What is told of a schedule is what the columns of its row hold; not found exactly where no
/// schedule has the ID in the namespace, or in `default` where none is named.
pub proof fn law_schedule_described(s: Store, schedule_id: Text, namespace: Text)
    ensures
        match schedule_described(s, schedule_id, namespace) {
            Ok(told) => exists|p: int|
                {
                    let row = s.schedules[p];
                    &&& 0 <= p < s.schedules.len()
                    &&& (#[trigger] s.schedules[p]).schedule_id == schedule_id
                    &&& named_or_default(row.namespace, namespace)
                    &&& told.workflow_type == row.action_workflow_name
                    &&& told.task_queue == row.action_task_queue
                    &&& row.action_id matches Some(id) ==> told.workflow_id == id
                    &&& row.action_id is None ==> told.workflow_id.len() == 0
                    &&& row.overlap_policy is Skip ==> told.overlap_policy == 1
                    &&& row.overlap_policy is Buffer ==> told.overlap_policy == 2
                    &&& row.overlap_policy is Terminate ==> told.overlap_policy == 4
                    &&& row.spec_type is Cron ==> told.interval is None && (
                    row.cron_expressions matches Some(text) ==> match json_string_list(text) {
                        Ok(list) => told.cron_string == list,
                        Err(_) => told.cron_string.len() == 0,
                    })
                    &&& row.spec_type is Interval ==> told.cron_string.len() == 0 && told.interval
                        == match row.interval_seconds {
                        Some(secs) => if secs > 0 {
                            Some(secs)
                        } else {
                            None
                        },
                        None => None,
                    }
                },
            Err(e) => e.code is NotFound && forall|i: int|
                0 <= i < s.schedules.len() ==> !((#[trigger] s.schedules[i]).schedule_id
                    == schedule_id && named_or_default(s.schedules[i].namespace, namespace)),
        },
{
    law_schedule_place(s.schedules, schedule_id, or_default(namespace));
    if let Some(p) = schedule_place(s.schedules, schedule_id, or_default(namespace)) {
        assert(s.schedules[p].schedule_id == schedule_id);
    }
}

/// A schedule that is created with a number for its overlap policy is described with the number of
/// that policy: 2 for one that buffers, 4 for one that terminates, and 1 for any other.
pub proof fn law_overlap_number_is_kept(
    s: Store,
    schedule_id: Text,
    namespace: Text,
    schedule: Option<ScheduleBodyView>,
    now: Timestamp,
)
    requires
        schedule_created(s, schedule_id, namespace, schedule, now).1 is Ok,
    ensures
        schedule_described(
            schedule_created(s, schedule_id, namespace, schedule, now).0,
            schedule_id,
            namespace,
        ) matches Ok(told) && told.overlap_policy == match schedule->0.overlap_policy {
            Some(n) => if n == 2 || n == 3 {
                2int
            } else if n == 4 || n == 5 {
                4int
            } else {
                1int
            },
            None => 1int,
        },
{
    law_schedule_asked(s, schedule_id, namespace, schedule, now);
    let after = schedule_created(s, schedule_id, namespace, schedule, now).0;
    law_schedule_described(after, schedule_id, namespace);
    let n = s.schedules.len() as int;
    assert(after.schedules[n].schedule_id == schedule_id);
    assert forall|i: int| 0 <= i < n implies (#[trigger] after.schedules[i]).schedule_id
        != schedule_id by {
        assert(s.schedules[i].schedule_id != schedule_id);
    }
}

} // verus!
