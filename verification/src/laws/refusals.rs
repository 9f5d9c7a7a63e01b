//! What a refused request is answered.

use vstd::prelude::*;
use crate::clock::{time_text, Timestamp};
use crate::activity::ActivityState;
use crate::db::activities::{attempt_inserted, attempt_set, heartbeat_updated, step_in, step_inserted, step_set, step_state_updated};
use crate::db::rows::{lemma_with_key, lemma_with_key_changed, with_key, ActivityRecord, PolicyColumnView, ScheduleRecord, StepRecord, Store, WorkflowRecord};
use crate::db::schedules::{schedule_found, schedule_row_inserted, schedules_in, schedule_rows_listed};
use crate::db::workflows::{time_column, workflow_cancelled, workflow_found, workflow_in, workflow_inserted, workflow_rows_listed, workflows_in};
use crate::engine::{heartbeat_timed_out, retry_due};
use crate::ids::{uuid_parse, uuid_text};
use crate::json::json_parse;
use crate::laws::requests::{known_trigger, known_word};
use crate::service::schedules::{schedule_created, schedule_updated, schedules_told, CreateScheduleRequestView, SpecMessageView};
use crate::service::status::or_default;
use crate::service::temporal;
use crate::service::worker::{activity_completed, activity_failure_reported, activity_polled, activity_result_reported, handed_out, heartbeat_told, step_offered};
use crate::service::workflows::{cancel_told, run_asked, steps_asked, steps_created, workflow_begun, workflow_told, workflows_told, StartWorkflowRequestView};
use crate::text::{decimal, Text};
use crate::workflow::{WorkflowInstanceView, WorkflowState, WorkflowStepInstanceView};

verus! {

// ---- tables ---------------------------------------------------------------------------------

/// A row whose ID is taken is refused by the name of the column, and one whose owner is not there by
/// the missing reference.
pub proof fn law_row_refusals(
    s: Store,
    wf: WorkflowInstanceView,
    step: WorkflowStepInstanceView,
    row: ScheduleRecord,
    id: Text,
    step_id: Text,
    attempt: u32,
    now: Timestamp,
)
    ensures
        workflow_inserted(s, wf).1 matches Err(e) ==> e
            == "UNIQUE constraint failed: workflows.run_id"@,
        schedule_row_inserted(s, row).1 matches Err(e) ==> e
            == "UNIQUE constraint failed: schedules.schedule_id"@,
        attempt_inserted(s, id, step_id, attempt, now).1 matches Err(e) ==> if with_key(
            s.activities,
            id,
        ) is Some {
            e == "UNIQUE constraint failed: activities.id"@
        } else {
            e == "FOREIGN KEY constraint failed"@
        },
        !(step.state is Cancelled) ==> (step_inserted(s, step, now).1 matches Err(e) ==> if with_key(
            s.steps,
            uuid_text(step.id),
        ) is Some {
            e == "UNIQUE constraint failed: workflow_steps.id"@
        } else {
            e == "FOREIGN KEY constraint failed"@
        }),
        workflow_cancelled(s, id, now).1 matches Err(e) ==> e
            == "Workflow not found or already in terminal state"@,
        heartbeat_updated(s, id, now).1 matches Err(e) ==> e
            == "Activity not found or not in running state"@,
{
    lemma_with_key(s.activities, id);
    lemma_with_key(s.steps, uuid_text(step.id));
}

/// A row that cannot be read is told by what was wrong with it, its IDs first.
pub proof fn law_unreadable_rows(run: WorkflowRecord, step: StepRecord)
    ensures
        uuid_parse(run.run_id) matches Err(e) ==> workflow_in(run) == Err::<
            WorkflowInstanceView,
            Text,
        >("Invalid run_id UUID: "@ + e),
        uuid_parse(step.id) matches Err(e) ==> step_in(step) == Err::<
            WorkflowStepInstanceView,
            Text,
        >("Invalid step ID UUID: "@ + e),
        uuid_parse(step.id) is Ok ==> (uuid_parse(step.workflow_run_id) matches Err(e) ==> step_in(
            step,
        ) == Err::<WorkflowStepInstanceView, Text>("Invalid workflow_run_id UUID: "@ + e)),
        uuid_parse(run.run_id) is Ok ==> (json_parse(run.args_json) matches Err(e) ==> workflow_in(
            run,
        ) == Err::<WorkflowInstanceView, Text>(e)),
{
}

// ---- schedules ------------------------------------------------------------------------------

/// What a request to create a schedule is answered where it is refused: the first of what is missing
/// or unknown, in the order trigger, action, kind of trigger, policy, and last an ID that is taken.
pub proof fn law_create_refusals(s: Store, req: CreateScheduleRequestView, now: Timestamp)
    ensures
        schedule_created(s, req, now).1 matches Err(e) ==> e.message == if req.spec is None {
            "spec is required"@
        } else if req.action is None {
            "action is required"@
        } else if !known_trigger(req.spec->0) {
            if req.spec->0.spec_type == "interval"@ {
                "interval seconds required for interval spec"@
            } else {
                "unknown spec_type: "@ + req.spec->0.spec_type
            }
        } else if !known_word(req.policy) {
            "unknown policy: "@ + req.policy->0
        } else {
            "Failed to create schedule: "@ + "UNIQUE constraint failed: schedules.schedule_id"@
        },
{
    reveal_strlit("cron");
    reveal_strlit("interval");
}

/// What a request to change a schedule is answered where it is refused.
pub proof fn law_update_refusals(
    s: Store,
    schedule_id: Text,
    namespace: Text,
    spec: Option<SpecMessageView>,
    now: Timestamp,
)
    ensures
        schedule_updated(s, schedule_id, namespace, spec, now).1 matches Err(e) ==> e.message
            == if spec is None {
            "spec is required"@
        } else {
            match schedule_found(s, schedule_id) {
                Err(m) => "Failed to get schedule: "@ + m,
                Ok(None) => "Schedule not found"@,
                Ok(Some(_)) => if spec->0.spec_type == "interval"@ {
                    "interval seconds required for interval spec"@
                } else {
                    "unknown spec_type: "@ + spec->0.spec_type
                },
            }
        },
        schedules_told(s, namespace) matches Err(e) ==> e.code is Internal && (schedules_in(
            schedule_rows_listed(s.schedules, or_default(namespace)),
        ) matches Err(m) && e.message == "Failed to list schedules: "@ + m),
{
    reveal_strlit("cron");
    reveal_strlit("interval");
}

// ---- workflows ------------------------------------------------------------------------------

/// What requests on workflows are answered where they fail.
pub proof fn law_workflow_refusals(
    s: Store,
    req: StartWorkflowRequestView,
    run_id: u128,
    ids: Seq<u128>,
    id: Text,
    namespace: Text,
    now: Timestamp,
)
    ensures
        workflow_inserted(s, run_asked(req, run_id)).1 is Err ==> (workflow_begun(
            s,
            req,
            run_id,
            ids,
            now,
        ).1 matches Err(e) && e.message == "Failed to create workflow: "@
            + "UNIQUE constraint failed: workflows.run_id"@),
        workflow_told(s, id) matches Err(e) ==> match workflow_found(s, id) {
            Err(m) => e.message == "Failed to get workflow: "@ + m,
            Ok(_) => e.message == "Workflow not found"@,
        },
        workflows_told(s, namespace) matches Err(e) ==> (workflows_in(
            workflow_rows_listed(s.workflows, or_default(namespace), None),
        ) matches Err(m) && e.message == "Failed to list workflows: "@ + m),
        cancel_told(s, id, now).1 matches Err(e) ==> e.message == "Failed to cancel workflow: "@
            + "Workflow not found or already in terminal state"@,
{
}

/// Creating steps stops at the first that is refused, which is told by its place and its message; the
/// steps before it are there.
pub proof fn law_step_refused(s: Store, steps: Seq<WorkflowStepInstanceView>, now: Timestamp)
    ensures
        steps_created(s, steps, now).1 matches Err((at, m)) ==> {
            &&& 0 <= at < steps.len()
            &&& steps_created(s, steps.take(at), now).1 is Ok
            &&& step_inserted(steps_created(s, steps.take(at), now).0, steps[at], now).1 == Err::<
                (),
                Text,
            >(m)
            &&& steps_created(s, steps, now).0 == steps_created(s, steps.take(at), now).0
        },
    decreases steps.len(),
{
    if steps.len() > 0 {
        let front = steps.drop_last();
        law_step_refused(s, front, now);
        if let Err((at, m)) = steps_created(s, front, now).1 {
            assert(front.take(at) =~= steps.take(at));
        } else {
            assert(steps.take(front.len() as int) =~= front);
        }
    }
}

/// A workflow that cannot be started because a step is refused is answered with the place of the step
/// and why it was refused.
pub proof fn law_start_refused(
    s: Store,
    req: StartWorkflowRequestView,
    run_id: u128,
    ids: Seq<u128>,
    now: Timestamp,
)
    ensures
        ({
            let with_run = workflow_inserted(s, run_asked(req, run_id)).0;
            workflow_inserted(s, run_asked(req, run_id)).1 is Ok ==> (steps_created(
                with_run,
                steps_asked(req, run_id, ids),
                now,
            ).1 matches Err((at, m)) ==> (workflow_begun(s, req, run_id, ids, now).1 matches Err(e)
                && e.code is Internal && e.message == "Failed to create step "@ + decimal(at as nat)
                + ": "@ + m))
        }),
{
}

// ---- workers --------------------------------------------------------------------------------

/// What a worker is answered where its poll or its report fails.
pub proof fn law_worker_refusals(
    s: Store,
    queue: Text,
    types: Seq<Text>,
    activity_id: u128,
    id: Text,
    text: Text,
    now: Timestamp,
)
    ensures
        step_offered(s, queue, types, now) matches Err(m) ==> (activity_polled(
            s,
            queue,
            types,
            activity_id,
            now,
        ).1 matches Err(e) && e.code is Internal && e.message == "Failed to get pending steps: "@
            + m && activity_polled(s, queue, types, activity_id, now).0 == s),
        text.len() > 0 ==> (json_parse(text) matches Err(m) ==> (activity_result_reported(
            s,
            id,
            text,
            now,
        ).1 matches Err(e) && e.message == "Invalid result JSON: "@ + m)),
        with_key(s.activities, id) is None ==> (activity_failure_reported(
            s,
            id,
            text,
            now,
        ).1 matches Err(e) && e.message == "Failed to find activity: "@
            + "Query returned no rows"@),
        with_key(s.activities, id) matches Some(a) ==> match with_key(s.steps, a.step_id) {
            None => activity_failure_reported(s, id, text, now).1 matches Err(e) && e.message
                == "Failed to get retry policy: "@ + "Query returned no rows"@,
            Some(step) => step.retry_policy matches PolicyColumnView::Malformed(m) ==> (
            activity_failure_reported(s, id, text, now).1 matches Err(e) && e.message
                == "Invalid retry policy JSON: "@ + m),
        },
        heartbeat_told(s, id, now).1 matches Err(e) ==> e.message == "Failed to update heartbeat: "@
            + "Activity not found or not in running state"@,
        with_key(s.steps, id) is None ==> (retry_due(s, id, now).1 matches Err(e) && e
            == "Query returned no rows"@),
        with_key(s.activities, id) is None ==> (heartbeat_timed_out(s, id, now).1 matches Err(e)
            && e == "Query returned no rows"@),
{
}

/// What is answered where an attempt cannot be recorded, or a result is reported for an attempt or a
/// step that is not there.
pub proof fn law_attempt_refusals(
    s: Store,
    step: WorkflowStepInstanceView,
    activity_id: u128,
    id: Text,
    result: Text,
    now: Timestamp,
)
    ensures
        handed_out(s, step, activity_id, now).1 matches Err(e) ==> e.code is Internal && (e.message
            == "Failed to insert activity: "@ + "UNIQUE constraint failed: activities.id"@
            || e.message == "Failed to insert activity: "@ + "FOREIGN KEY constraint failed"@),
        handed_out(s, step, activity_id, now).1 is Err <==> with_key(
            s.activities,
            uuid_text(activity_id),
        ) is Some || with_key(s.steps, uuid_text(step.id)) is None,
        with_key(s.activities, id) is None ==> (activity_completed(s, id, result, now).1 matches Err(
            e,
        ) && e.message == "Failed to find activity: "@ + "Query returned no rows"@),
        with_key(s.activities, id) matches Some(a) ==> (with_key(s.steps, a.step_id) is None ==> (
        activity_completed(s, id, result, now).1 matches Err(e) && e.message
            == "Failed to find step: "@ + "Query returned no rows"@)),
{
    let attempt = (step.attempt + 1) as u32;
    let column = time_column(None);
    lemma_with_key(s.activities, uuid_text(activity_id));
    lemma_with_key_changed(
        s.steps,
        uuid_text(step.id),
        |row: StepRecord| step_set(row, ActivityState::Running, Some(attempt), None, column),
        uuid_text(step.id),
    );
    let running = step_state_updated(
        s,
        uuid_text(step.id),
        WorkflowState::Running,
        Some(attempt),
        None,
        None,
    ).0;
    lemma_with_key(running.steps, uuid_text(step.id));
    lemma_with_key_changed(
        s.activities,
        id,
        |row: ActivityRecord|
            attempt_set(row, ActivityState::Completed, Some(result), None, time_text(now)),
        id,
    );
    if let Some(a) = with_key(s.activities, id) {
        lemma_with_key_changed(
            s.steps,
            a.step_id,
            |row: StepRecord| step_set(row, ActivityState::Completed, None, Some(result), column),
            a.step_id,
        );
    }
}

// ---- the Temporal service -------------------------------------------------------------------

/// What requests of the Temporal service are answered where they are refused.
pub proof fn law_temporal_refusals(
    s: Store,
    schedule_id: Text,
    namespace: Text,
    schedule: Option<temporal::ScheduleBodyView>,
    now: Timestamp,
)
    ensures
        temporal::namespace_described(s, namespace) matches Err(e) ==> e.message == "Namespace '"@
            + namespace + "' not found"@,
        temporal::schedule_created(s, schedule_id, namespace, schedule, now).1 matches Err(e)
            ==> e.message == if schedule is None {
            "schedule is required"@
        } else if schedule->0.spec is None {
            "schedule spec is required"@
        } else if schedule->0.action is None {
            "schedule action is required"@
        } else if schedule->0.spec->0.cron_string.len() == 0 && schedule->0.spec->0.interval.len()
            == 0 {
            "schedule spec must have cron_string or interval"@
        } else if schedule->0.action->0.start_workflow is None {
            "schedule action start_workflow is required"@
        } else {
            "Failed to create schedule: "@ + "UNIQUE constraint failed: schedules.schedule_id"@
        },
        temporal::schedule_changed(s, schedule_id, namespace, schedule, now).1 matches Err(e)
            ==> e.message == if e.code is NotFound {
            "Schedule not found"@
        } else {
            "schedule is required"@
        },
        temporal::schedule_described(s, schedule_id, namespace) matches Err(e) ==> e.message
            == "Schedule not found"@,
{
}

} // verus!
