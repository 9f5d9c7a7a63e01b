//! Workflow execution engine: what each event does to the tables, and which timers it asks for.

use vstd::prelude::*;
use vstd::string::*;
use crate::activity::{ActivityState, RetryPolicy};
use crate::clock::{between, clock_shows, format_datetime, parse_datetime, plus_seconds, time_in, time_text, utc_now, Timestamp};
use crate::db::activities::{find_lowest_waiting, get_running_activities, lowest_waiting, running_activities, step_set, waiting, RunningActivity, RunningActivityView};
use crate::db::order::{arranged, ordered, sort_order};
use crate::db::rows::{changed, find_row, lemma_with_key_changed, with_key, ActivityRecord, ActivityRow, Database, PolicyColumn, PolicyColumnView, StepRecord, StepRow, Store, WorkflowRecord, WorkflowRow};
use crate::db::workflows::{time_column, update_workflow_state, workflow_state_updated};
use crate::laws::running::{law_completed_outlook, law_run_follows_its_steps};
use crate::retry::{attempt_failed, fail_attempt, next_retry, retries, retry_fits, retry_on_calendar};
use crate::text::{outcome, text_at_most, text_eq, text_le, Text};
use crate::workflow::WorkflowState;

verus! {

/// Events that drive the engine. Sent by scheduler, gRPC API, or internal timers.
#[derive(Clone, Debug)]
pub enum EngineEvent {
    /// A new workflow was inserted (by scheduler or gRPC API).
    WorkflowCreated { run_id: String },
    /// A workflow step finished (worker reported result).
    StepCompleted { workflow_run_id: String },
    /// Schedules changed (may need to re-evaluate pending workflows).
    ScheduleChange,
    /// Internal: retry time arrived for a specific step.
    RetryDue { step_id: String },
    /// Internal: heartbeat timeout arrived for a specific activity.
    HeartbeatTimeout { activity_id: String },
}

/// The view of an [`EngineEvent`].
#[verifier::ext_equal]
pub enum EngineEventView {
    WorkflowCreated { run_id: Text },
    StepCompleted { workflow_run_id: Text },
    ScheduleChange,
    RetryDue { step_id: Text },
    HeartbeatTimeout { activity_id: Text },
}

impl DeepView for EngineEvent {
    type V = EngineEventView;

    open spec fn deep_view(&self) -> EngineEventView {
        match self {
            EngineEvent::WorkflowCreated { run_id } => EngineEventView::WorkflowCreated {
                run_id: run_id@,
            },
            EngineEvent::StepCompleted { workflow_run_id } => EngineEventView::StepCompleted {
                workflow_run_id: workflow_run_id@,
            },
            EngineEvent::ScheduleChange => EngineEventView::ScheduleChange,
            EngineEvent::RetryDue { step_id } => EngineEventView::RetryDue { step_id: step_id@ },
            EngineEvent::HeartbeatTimeout { activity_id } => EngineEventView::HeartbeatTimeout {
                activity_id: activity_id@,
            },
        }
    }
}

/// A timer that the engine asks for: the event that it brings, and when.
#[derive(Debug)]
pub enum Timer {
    /// Brings the retry of a step.
    Retry { step_id: String, at: Timestamp },
    /// Brings the heartbeat timeout of an activity.
    Heartbeat { activity_id: String, at: Timestamp },
}

/// The view of a [`Timer`].
#[verifier::ext_equal]
pub enum TimerView {
    Retry { step_id: Text, at: Timestamp },
    Heartbeat { activity_id: Text, at: Timestamp },
}

impl DeepView for Timer {
    type V = TimerView;

    open spec fn deep_view(&self) -> TimerView {
        match self {
            Timer::Retry { step_id, at } => TimerView::Retry { step_id: step_id@, at: *at },
            Timer::Heartbeat { activity_id, at } => TimerView::Heartbeat {
                activity_id: activity_id@,
                at: *at,
            },
        }
    }
}

// ---- one workflow ---------------------------------------------------------------------------

/// A row with its run started, where it was pending. A time of start that is there stays.
pub open spec fn started(row: WorkflowRecord, now: Text) -> WorkflowRecord {
    if row.state is Pending {
        WorkflowRecord {
            state: WorkflowState::Running,
            started_at: match row.started_at {
                Some(at) => Some(at),
                None => Some(now),
            },
            ..row
        }
    } else {
        row
    }
}

/// The tables with a run started, where it was pending.
pub open spec fn workflow_started(s: Store, run_id: Text, now: Timestamp) -> Store {
    Store {
        workflows: changed(
            s.workflows,
            run_id,
            |row: WorkflowRecord| started(row, time_text(now)),
        ),
        ..s
    }
}

/// Some step belongs to the run.
pub open spec fn has_steps(rows: Seq<StepRecord>, run_id: Text) -> bool {
    exists|i: int| 0 <= i < rows.len() && (#[trigger] rows[i]).workflow_run_id == run_id
}

/// Some step of the run failed.
pub open spec fn some_failed(rows: Seq<StepRecord>, run_id: Text) -> bool {
    exists|i: int|
        0 <= i < rows.len() && (#[trigger] rows[i]).workflow_run_id == run_id && rows[i].state
            is Failed
}

/// All steps of the run are completed.
pub open spec fn all_completed(rows: Seq<StepRecord>, run_id: Text) -> bool {
    forall|i: int|
        0 <= i < rows.len() && (#[trigger] rows[i]).workflow_run_id == run_id ==> rows[i].state
            is Completed
}

/// All steps of the run before an index are completed.
pub open spec fn completed_before(rows: Seq<StepRecord>, run_id: Text, index: i64) -> bool {
    forall|i: int|
        0 <= i < rows.len() && (#[trigger] rows[i]).workflow_run_id == run_id
            && rows[i].step_index < index ==> rows[i].state is Completed
}

/// The step is in turn: all steps of its run before it are completed.
pub open spec fn in_turn(rows: Seq<StepRecord>, row: StepRecord) -> bool {
    completed_before(rows, row.workflow_run_id, row.step_index)
}

/// How a run stands.
#[derive(Clone, Copy, Debug, PartialEq, Eq, Structural)]
pub enum Outlook {
    /// The step with this index is next, and all before it are completed.
    Ready(i64),
    /// The step with this index is next, and waits for some before it.
    Waiting(i64),
    /// Nothing waits, and some step failed.
    Failed,
    /// All steps are completed.
    Completed,
    /// Nothing waits, and some step is still running; or there are no steps.
    Open,
}

/// How a run stands by its steps.
pub open spec fn outlook(rows: Seq<StepRecord>, run_id: Text) -> Outlook {
    match lowest_waiting(rows, run_id) {
        Some(p) => if completed_before(rows, run_id, rows[p].step_index) {
            Outlook::Ready(rows[p].step_index)
        } else {
            Outlook::Waiting(rows[p].step_index)
        },
        None => if !has_steps(rows, run_id) {
            Outlook::Open
        } else if some_failed(rows, run_id) {
            Outlook::Failed
        } else if all_completed(rows, run_id) {
            Outlook::Completed
        } else {
            Outlook::Open
        },
    }
}

/// The tables after a run was looked at: a pending run is started, and a run of which no step waits
/// is ended where a step failed or all are completed.
pub open spec fn workflow_processed(s: Store, run_id: Text, now: Timestamp) -> Store {
    let open = workflow_started(s, run_id, now);
    match outlook(s.steps, run_id) {
        Outlook::Failed => workflow_state_updated(
            open,
            run_id,
            WorkflowState::Failed,
            None,
            Some(now),
        ),
        Outlook::Completed => workflow_state_updated(
            open,
            run_id,
            WorkflowState::Completed,
            None,
            Some(now),
        ),
        _ => open,
    }
}

/// Starts a run that is pending.
pub(crate) fn start_pending(db: &mut Database, run_id: &str, now: &Timestamp)
    ensures
        final(db).deep_view() == workflow_started(old(db).deep_view(), run_id@, *now),
{
    let ghost before = db.workflows.deep_view();
    let ghost change = |row: WorkflowRecord| started(row, time_text(*now));
    let ghost after = changed(before, run_id@, change);
    let mut i: usize = 0;
    while i < db.workflows.len()
        invariant
            i <= db.workflows@.len(),
            db.workflows@.len() == before.len(),
            before == old(db).workflows.deep_view(),
            change == (|row: WorkflowRecord| started(row, time_text(*now))),
            after == changed(before, run_id@, change),
            db.namespaces == old(db).namespaces,
            db.schedules == old(db).schedules,
            db.steps == old(db).steps,
            db.activities == old(db).activities,
            forall|j: int| 0 <= j < i ==> #[trigger] db.workflows@[j].deep_view() == after[j],
            forall|j: int|
                i <= j < before.len() ==> #[trigger] db.workflows@[j].deep_view() == before[j],
        decreases before.len() - i,
    {
        proof {
            assert(db.workflows@[i as int].deep_view() == before[i as int]);
        }
        if db.workflows[i].state == WorkflowState::Pending && text_eq(
            db.workflows[i].run_id.as_str(),
            run_id,
        ) {
            let row: &mut WorkflowRow = &mut db.workflows[i];
            row.state = WorkflowState::Running;
            if row.started_at.is_none() {
                row.started_at = Some(format_datetime(now));
            }
        }
        i += 1;
    }
    proof {
        assert(db.workflows.deep_view() =~= after);
    }
}

/// Whether all steps of a run before an index are completed.
pub(crate) fn is_completed_before(db: &Database, run_id: &str, index: i64) -> (r: bool)
    ensures
        r == completed_before(db.deep_view().steps, run_id@, index),
{
    let ghost rows = db.steps.deep_view();
    let mut i: usize = 0;
    while i < db.steps.len()
        invariant
            i <= db.steps@.len(),
            rows == db.steps.deep_view(),
            forall|j: int|
                0 <= j < i && (#[trigger] rows[j]).workflow_run_id == run_id@ && rows[j].step_index
                    < index ==> rows[j].state is Completed,
        decreases rows.len() - i,
    {
        let row: &StepRow = &db.steps[i];
        if row.step_index < index && row.state != ActivityState::Completed && text_eq(
            row.workflow_run_id.as_str(),
            run_id,
        ) {
            proof {
                assert(rows[i as int].workflow_run_id == run_id@);
            }
            return false;
        }
        i += 1;
    }
    true
}

/// How a run stands by its steps.
pub fn workflow_outlook(db: &Database, run_id: &str) -> (r: Outlook)
    ensures
        r == outlook(db.deep_view().steps, run_id@),
{
    let ghost rows = db.steps.deep_view();
    match find_lowest_waiting(db, run_id) {
        Some(p) => {
            let index: i64 = db.steps[p].step_index;
            if is_completed_before(db, run_id, index) {
                Outlook::Ready(index)
            } else {
                Outlook::Waiting(index)
            }
        },
        None => {
            let mut any: bool = false;
            let mut failed: bool = false;
            let mut all: bool = true;
            let mut i: usize = 0;
            while i < db.steps.len()
                invariant
                    i <= db.steps@.len(),
                    rows == db.steps.deep_view(),
                    any ==> has_steps(rows, run_id@),
                    !any ==> forall|j: int|
                        0 <= j < i ==> (#[trigger] rows[j]).workflow_run_id != run_id@,
                    failed ==> some_failed(rows, run_id@),
                    !failed ==> forall|j: int|
                        0 <= j < i && (#[trigger] rows[j]).workflow_run_id == run_id@
                            ==> !(rows[j].state is Failed),
                    !all ==> !all_completed(rows, run_id@),
                    all ==> forall|j: int|
                        0 <= j < i && (#[trigger] rows[j]).workflow_run_id == run_id@
                            ==> rows[j].state is Completed,
                decreases rows.len() - i,
            {
                let row: &StepRow = &db.steps[i];
                if text_eq(row.workflow_run_id.as_str(), run_id) {
                    proof {
                        assert(rows[i as int].workflow_run_id == run_id@);
                    }
                    any = true;
                    if row.state == ActivityState::Failed {
                        failed = true;
                    }
                    if row.state != ActivityState::Completed {
                        all = false;
                    }
                }
                i += 1;
            }
            if !any {
                Outlook::Open
            } else if failed {
                Outlook::Failed
            } else if all {
                Outlook::Completed
            } else {
                Outlook::Open
            }
        },
    }
}

/// No step of the run waits.
pub open spec fn none_waits(rows: Seq<StepRecord>, run_id: Text) -> bool {
    forall|i: int| 0 <= i < rows.len() ==> !waiting(#[trigger] rows[i], run_id)
}

/// Process a single workflow at `now`: start it, and end it where its steps have ended. A run that
/// has not ended has failed afterwards exactly where no step of it waits and some failed; it is
/// completed exactly where it has steps and all are completed; otherwise it runs, without an end
/// that was not there. A time of start that is there stays.
pub fn process_single_workflow(db: &mut Database, run_id: &str, now: &Timestamp) -> (r: Outlook)
    ensures
        r == outlook(old(db).deep_view().steps, run_id@),
        final(db).deep_view() == workflow_processed(old(db).deep_view(), run_id@, *now),
        final(db).deep_view().steps == old(db).deep_view().steps,
        with_key(old(db).deep_view().workflows, run_id@) matches Some(before)
            ==> before.state.active() ==> (with_key(
            final(db).deep_view().workflows,
            run_id@,
        ) matches Some(after) && {
            let steps = old(db).deep_view().steps;
            &&& after.state is Failed <==> none_waits(steps, run_id@) && some_failed(
                steps,
                run_id@,
            )
            &&& after.state is Completed <==> has_steps(steps, run_id@) && all_completed(
                steps,
                run_id@,
            )
            &&& after.state is Failed || after.state is Completed || after.state is Running
            &&& after.completed_at == if after.state is Running {
                before.completed_at
            } else {
                Some(time_text(*now))
            }
            &&& after.started_at == started(before, time_text(*now)).started_at
        }),
{
    proof {
        law_completed_outlook(db.deep_view().steps, run_id@);
        law_run_follows_its_steps(db.deep_view(), run_id@, *now);
    }
    start_pending(db, run_id, now);
    let stands: Outlook = workflow_outlook(db, run_id);
    match stands {
        Outlook::Failed => {
            let _r: Result<(), String> = update_workflow_state(
                db,
                run_id,
                WorkflowState::Failed,
                None,
                Some(*now),
            );
        },
        Outlook::Completed => {
            let _r: Result<(), String> = update_workflow_state(
                db,
                run_id,
                WorkflowState::Completed,
                None,
                Some(*now),
            );
        },
        _ => {},
    }
    stands
}

// ---- timers ---------------------------------------------------------------------------------

/// The retry timer of a step of the run, where it is marked for a retry at a readable time.
pub open spec fn retry_timer(row: StepRecord, run_id: Text) -> Option<TimerView> {
    if row.workflow_run_id == run_id && row.state is Retried && row.next_retry_at is Some {
        match time_in(row.next_retry_at->0) {
            Ok(at) => Some(TimerView::Retry { step_id: row.id, at }),
            Err(_) => None,
        }
    } else {
        None
    }
}

/// The retry timers of the steps of a run.
pub open spec fn retry_timers(rows: Seq<StepRecord>, run_id: Text) -> Seq<TimerView>
    decreases rows.len(),
{
    if rows.len() == 0 {
        Seq::empty()
    } else {
        let earlier = retry_timers(rows.drop_last(), run_id);
        match retry_timer(rows.last(), run_id) {
            Some(timer) => earlier.push(timer),
            None => earlier,
        }
    }
}

/// The column from which silence is counted: the last heartbeat, or else the start.
pub open spec fn last_sign(started_at: Option<Text>, last_heartbeat_at: Option<Text>) -> Option<Text> {
    match last_heartbeat_at {
        Some(at) => Some(at),
        None => started_at,
    }
}

/// The heartbeat timer of a running attempt of a step with a heartbeat timeout, counted from its
/// last sign of life. A deadline that leaves the calendar is an error.
pub open spec fn heartbeat_timer(row: ActivityRecord, step: StepRecord) -> Result<
    Option<TimerView>,
    Text,
> {
    match (step.heartbeat_timeout_secs, last_sign(row.started_at, row.last_heartbeat_at)) {
        (Some(timeout), Some(sign)) => match time_in(sign) {
            Ok(at) => match plus_seconds(at, timeout as int) {
                Some(deadline) => Ok(
                    Some(TimerView::Heartbeat { activity_id: row.id, at: deadline }),
                ),
                None => Err("heartbeat deadline is outside the calendar"@),
            },
            Err(_) => Ok(None),
        },
        _ => Ok(None),
    }
}

/// The heartbeat timers of the running attempts of a run.
pub open spec fn heartbeat_timers(
    rows: Seq<ActivityRecord>,
    steps: Seq<StepRecord>,
    run_id: Text,
) -> Result<Seq<TimerView>, Text>
    decreases rows.len(),
{
    if rows.len() == 0 {
        Ok(Seq::empty())
    } else {
        match heartbeat_timers(rows.drop_last(), steps, run_id) {
            Err(e) => Err(e),
            Ok(earlier) => {
                let row = rows.last();
                let step = with_key(steps, row.step_id);
                if row.state is Running && step is Some && step->0.workflow_run_id == run_id {
                    match heartbeat_timer(row, step->0) {
                        Err(e) => Err(e),
                        Ok(Some(timer)) => Ok(earlier.push(timer)),
                        Ok(None) => Ok(earlier),
                    }
                } else {
                    Ok(earlier)
                }
            },
        }
    }
}

/// The timers of a run: its retries, then its heartbeats.
pub open spec fn workflow_timers(s: Store, run_id: Text) -> Result<Seq<TimerView>, Text> {
    match heartbeat_timers(s.activities, s.steps, run_id) {
        Err(e) => Err(e),
        Ok(beats) => Ok(retry_timers(s.steps, run_id) + beats),
    }
}

/// The retry timers of all retried steps of a workflow.
pub fn schedule_retry_timers_for_workflow(db: &Database, run_id: &str) -> (r: Vec<Timer>)
    ensures
        r.deep_view() == retry_timers(db.deep_view().steps, run_id@),
{
    let ghost rows = db.steps.deep_view();
    let mut out: Vec<Timer> = Vec::new();
    let mut i: usize = 0;
    proof {
        assert(rows.take(0) =~= Seq::empty());
        assert(out.deep_view() =~= Seq::empty());
    }
    while i < db.steps.len()
        invariant
            i <= db.steps@.len(),
            rows == db.steps.deep_view(),
            out.deep_view() == retry_timers(rows.take(i as int), run_id@),
        decreases rows.len() - i,
    {
        proof {
            assert(rows.take(i + 1).drop_last() =~= rows.take(i as int));
            assert(rows.take(i + 1).last() == rows[i as int]);
        }
        let row: &StepRow = &db.steps[i];
        if row.state == ActivityState::Retried && text_eq(row.workflow_run_id.as_str(), run_id) {
            if let Some(text) = &row.next_retry_at {
                if let Ok(at) = parse_datetime(text.as_str()) {
                    let ghost done = out.deep_view();
                    let timer: Timer = Timer::Retry { step_id: row.id.clone(), at };
                    out.push(timer);
                    proof {
                        assert(out.deep_view() =~= done.push(timer.deep_view()));
                    }
                }
            }
        }
        i += 1;
    }
    proof {
        assert(rows.take(i as int) =~= rows);
    }
    out
}

fn make_heartbeat_timer(row: &ActivityRow, step: &StepRow) -> (r: Result<Option<Timer>, String>)
    ensures
        outcome(r) == heartbeat_timer(row.deep_view(), step.deep_view()),
{
    let timeout: i64 = match step.heartbeat_timeout_secs {
        Some(timeout) => timeout,
        None => return Ok(None),
    };
    let sign: &String = match (&row.last_heartbeat_at, &row.started_at) {
        (Some(at), _) => at,
        (None, Some(at)) => at,
        (None, None) => return Ok(None),
    };
    match parse_datetime(sign.as_str()) {
        Ok(at) => match at.plus(timeout) {
            Some(deadline) => Ok(
                Some(Timer::Heartbeat { activity_id: row.id.clone(), at: deadline }),
            ),
            None => Err("heartbeat deadline is outside the calendar".to_owned()),
        },
        Err(_) => Ok(None),
    }
}

/// An error among the first rows is the error of all.
proof fn lemma_heartbeat_timers_prefix(
    rows: Seq<ActivityRecord>,
    steps: Seq<StepRecord>,
    run_id: Text,
    n: int,
)
    requires
        0 <= n <= rows.len(),
    ensures
        heartbeat_timers(rows.take(n), steps, run_id) is Err ==> heartbeat_timers(
            rows,
            steps,
            run_id,
        ) == heartbeat_timers(rows.take(n), steps, run_id),
    decreases rows.len(),
{
    if n == rows.len() {
        assert(rows.take(n) =~= rows);
    } else {
        assert(rows.drop_last().take(n) =~= rows.take(n));
        lemma_heartbeat_timers_prefix(rows.drop_last(), steps, run_id, n);
    }
}

/// The heartbeat timers of all running activities of a workflow.
pub fn schedule_heartbeat_timers_for_workflow(db: &Database, run_id: &str) -> (r: Result<
    Vec<Timer>,
    String,
>)
    ensures
        outcome(r) == heartbeat_timers(db.deep_view().activities, db.deep_view().steps, run_id@),
{
    let ghost rows = db.activities.deep_view();
    let ghost steps = db.steps.deep_view();
    let mut out: Vec<Timer> = Vec::new();
    let mut i: usize = 0;
    proof {
        assert(rows.take(0) =~= Seq::empty());
        assert(out.deep_view() =~= Seq::empty());
    }
    while i < db.activities.len()
        invariant
            i <= db.activities@.len(),
            rows == db.activities.deep_view(),
            steps == db.steps.deep_view(),
            heartbeat_timers(rows.take(i as int), steps, run_id@) == Ok::<Seq<TimerView>, Text>(
                out.deep_view(),
            ),
        decreases rows.len() - i,
    {
        proof {
            assert(rows.take(i + 1).drop_last() =~= rows.take(i as int));
            assert(rows.take(i + 1).last() == rows[i as int]);
            lemma_heartbeat_timers_prefix(rows, steps, run_id@, i + 1);
        }
        let row: &ActivityRow = &db.activities[i];
        if row.state == ActivityState::Running {
            if let Some(p) = find_row(&db.steps, row.step_id.as_str()) {
                let step: &StepRow = &db.steps[p];
                if text_eq(step.workflow_run_id.as_str(), run_id) {
                    let ghost done = out.deep_view();
                    match make_heartbeat_timer(row, step) {
                        Ok(Some(timer)) => {
                            out.push(timer);
                            proof {
                                assert(out.deep_view() =~= done.push(timer.deep_view()));
                            }
                        },
                        Ok(None) => {},
                        Err(e) => return Err(e),
                    }
                }
            }
        }
        i += 1;
    }
    proof {
        assert(rows.take(i as int) =~= rows);
    }
    Ok(out)
}

/// The retry and heartbeat timers of all steps and activities of a workflow.
pub fn schedule_timers_for_workflow(db: &Database, run_id: &str) -> (r: Result<Vec<Timer>, String>)
    ensures
        outcome(r) == workflow_timers(db.deep_view(), run_id@),
{
    let mut timers: Vec<Timer> = schedule_retry_timers_for_workflow(db, run_id);
    let ghost retries = timers.deep_view();
    match schedule_heartbeat_timers_for_workflow(db, run_id) {
        Ok(mut beats) => {
            let ghost beating = beats.deep_view();
            timers.append(&mut beats);
            proof {
                assert(timers.deep_view() =~= retries + beating);
            }
            Ok(timers)
        },
        Err(e) => Err(e),
    }
}

/// How long a timer waits that is to bring its event at `at`, when the clock shows `now`: the time
/// between, or a millisecond where the time has passed.
pub fn timer_delay(at: &Timestamp, now: &Timestamp) -> (r: (u64, u32))
    ensures
        ({
            let (secs, nanos) = between(*at, *now);
            (r.0 as int, r.1 as int) == if secs < 0 || nanos < 0 {
                (0int, 1_000_000int)
            } else {
                (secs, nanos)
            }
        }),
{
    let (secs, nanos): (i64, i32) = at.time_since(now);
    if secs < 0 || nanos < 0 {
        (0, 1_000_000)
    } else {
        (secs as u64, nanos as u32)
    }
}

// ---- events ---------------------------------------------------------------------------------

/// What an event does: the tables after it, and the timers that it asks for or the message that it
/// failed with.
pub type Handled = (Store, Result<Seq<TimerView>, Text>);

/// A run looked at, and its timers.
pub open spec fn workflow_advanced(s: Store, run_id: Text, now: Timestamp) -> Handled {
    let after = workflow_processed(s, run_id, now);
    (after, workflow_timers(after, run_id))
}

/// Handle a new workflow: transition to RUNNING, check if step 0 can start.
pub fn handle_workflow_created(db: &mut Database, run_id: &str, now: &Timestamp) -> (r: Result<
    Vec<Timer>,
    String,
>)
    ensures
        (final(db).deep_view(), outcome(r)) == workflow_advanced(
            old(db).deep_view(),
            run_id@,
            *now,
        ),
{
    let _stands: Outlook = process_single_workflow(db, run_id, now);
    schedule_timers_for_workflow(db, run_id)
}

/// Handle a completed step: check if next step can start, check if all steps done.
pub fn handle_step_completed(db: &mut Database, run_id: &str, now: &Timestamp) -> (r: Result<
    Vec<Timer>,
    String,
>)
    ensures
        (final(db).deep_view(), outcome(r)) == workflow_advanced(
            old(db).deep_view(),
            run_id@,
            *now,
        ),
{
    let _stands: Outlook = process_single_workflow(db, run_id, now);
    schedule_timers_for_workflow(db, run_id)
}

/// A row with its step ready for its next attempt at once.
pub open spec fn reset_to_pending(row: StepRecord) -> StepRecord {
    StepRecord { state: ActivityState::Pending, next_retry_at: None, ..row }
}

/// The retry of a step that is due. Only a step that is still marked for a retry is reset, and its
/// run looked at.
pub open spec fn retry_due(s: Store, step_id: Text, now: Timestamp) -> Handled {
    match with_key(s.steps, step_id) {
        None => (s, Err("Query returned no rows"@)),
        Some(step) => if step.state is Retried {
            let reset = Store {
                steps: changed(s.steps, step_id, |row: StepRecord| reset_to_pending(row)),
                ..s
            };
            workflow_advanced(reset, step.workflow_run_id, now)
        } else {
            (s, Ok(Seq::empty()))
        },
    }
}

/// No timers.
fn no_timers() -> (r: Vec<Timer>)
    ensures
        r.deep_view() == Seq::<TimerView>::empty(),
{
    let none: Vec<Timer> = Vec::new();
    proof {
        assert(none.deep_view() =~= Seq::empty());
    }
    none
}

/// Resets a step for its next attempt.
fn reset_step(db: &mut Database, step_id: &str)
    ensures
        final(db).deep_view() == (Store {
            steps: changed(
                old(db).deep_view().steps,
                step_id@,
                |row: StepRecord| reset_to_pending(row),
            ),
            ..old(db).deep_view()
        }),
{
    let ghost before = db.steps.deep_view();
    let ghost change = |row: StepRecord| reset_to_pending(row);
    let ghost after = changed(before, step_id@, change);
    let mut i: usize = 0;
    while i < db.steps.len()
        invariant
            i <= db.steps@.len(),
            db.steps@.len() == before.len(),
            before == old(db).steps.deep_view(),
            change == (|row: StepRecord| reset_to_pending(row)),
            after == changed(before, step_id@, change),
            db.namespaces == old(db).namespaces,
            db.schedules == old(db).schedules,
            db.workflows == old(db).workflows,
            db.activities == old(db).activities,
            forall|j: int| 0 <= j < i ==> #[trigger] db.steps@[j].deep_view() == after[j],
            forall|j: int|
                i <= j < before.len() ==> #[trigger] db.steps@[j].deep_view() == before[j],
        decreases before.len() - i,
    {
        proof {
            assert(db.steps@[i as int].deep_view() == before[i as int]);
        }
        if text_eq(db.steps[i].id.as_str(), step_id) {
            let row: &mut StepRow = &mut db.steps[i];
            row.state = ActivityState::Pending;
            row.next_retry_at = None;
        }
        i += 1;
    }
    proof {
        assert(db.steps.deep_view() =~= after);
    }
}

/// Handle a retry timer firing for a specific step.
pub fn handle_retry_due(db: &mut Database, step_id: &str, now: &Timestamp) -> (r: Result<
    Vec<Timer>,
    String,
>)
    ensures
        (final(db).deep_view(), outcome(r)) == retry_due(old(db).deep_view(), step_id@, *now),
{
    match find_row(&db.steps, step_id) {
        None => Err("Query returned no rows".to_owned()),
        Some(p) => {
            if db.steps[p].state == ActivityState::Retried {
                let run_id: String = db.steps[p].workflow_run_id.clone();
                reset_step(db, step_id);
                let _stands: Outlook = process_single_workflow(db, run_id.as_str(), now);
                schedule_timers_for_workflow(db, run_id.as_str())
            } else {
                Ok(no_timers())
            }
        },
    }
}

/// The retry policy of a step; the unset policy where there is no step or no readable policy.
pub open spec fn policy_of(rows: Seq<StepRecord>, step_id: Text) -> RetryPolicy {
    match with_key(rows, step_id) {
        Some(step) => match step.retry_policy {
            PolicyColumnView::Policy(policy) => policy,
            PolicyColumnView::Malformed(_) => RetryPolicy::unset(),
        },
        None => RetryPolicy::unset(),
    }
}

fn find_policy(db: &Database, step_id: &str) -> (r: RetryPolicy)
    ensures
        r == policy_of(db.deep_view().steps, step_id@),
{
    match find_row(&db.steps, step_id) {
        Some(p) => match &db.steps[p].retry_policy {
            PolicyColumn::Policy(policy) => *policy,
            PolicyColumn::Malformed(_) => RetryPolicy::new(),
        },
        None => RetryPolicy::new(),
    }
}

/// The attempt number in a column; zero where the column holds no such number.
pub open spec fn attempt_in(column: i64) -> u32 {
    if 0 <= column <= u32::MAX {
        column as u32
    } else {
        0
    }
}

/// The deadline to which the last heartbeat of an attempt has moved its timeout, where that lies
/// ahead.
pub open spec fn deadline_ahead(row: ActivityRecord, steps: Seq<StepRecord>, now: Timestamp) -> Option<
    Timestamp,
> {
    match (row.last_heartbeat_at, with_key(steps, row.step_id)) {
        (Some(beat), Some(step)) => match (step.heartbeat_timeout_secs, time_in(beat)) {
            (Some(timeout), Ok(at)) => match plus_seconds(at, timeout as int) {
                Some(deadline) => if deadline.after(now) {
                    Some(deadline)
                } else {
                    None
                },
                None => None,
            },
            _ => None,
        },
        _ => None,
    }
}

/// The heartbeat timeout of an attempt. An attempt that has sent a heartbeat in time goes on, with
/// a timer for its new deadline. Another that is still running fails; its step waits for the next
/// attempt, with a timer, or fails where no more is allowed, and then its run is looked at.
pub open spec fn heartbeat_timed_out(s: Store, activity_id: Text, now: Timestamp) -> Handled {
    match with_key(s.activities, activity_id) {
        None => (s, Err("Query returned no rows"@)),
        Some(row) => if !(row.state is Running) {
            (s, Ok(Seq::empty()))
        } else if let Some(at) = deadline_ahead(row, s.steps, now) {
            (s, Ok(seq![TimerView::Heartbeat { activity_id, at }]))
        } else {
            let attempt = attempt_in(row.attempt);
            let policy = policy_of(s.steps, row.step_id);
            let failed = attempt_failed(
                s,
                activity_id,
                row.step_id,
                attempt,
                policy,
                "Heartbeat timeout"@,
                now,
            );
            match next_retry(policy, attempt, now) {
                Some(at) => (failed, Ok(seq![TimerView::Retry { step_id: row.step_id, at }])),
                None => match with_key(failed.steps, row.step_id) {
                    None => (failed, Err("Query returned no rows"@)),
                    Some(step) => (
                        workflow_processed(failed, step.workflow_run_id, now),
                        Ok(Seq::empty()),
                    ),
                },
            }
        },
    }
}

/// The time of the next attempt after a heartbeat timeout, where one is allowed, lies on the
/// calendar.
pub open spec fn timeout_on_calendar(s: Store, activity_id: Text, now: Timestamp) -> bool {
    with_key(s.activities, activity_id) matches Some(row) ==> row.state is Running
        && deadline_ahead(row, s.steps, now) is None ==> retry_on_calendar(
        policy_of(s.steps, row.step_id),
        attempt_in(row.attempt),
        now,
    )
}

/// Reads an attempt number from its column.
fn read_attempt(column: i64) -> (r: u32)
    ensures
        r == attempt_in(column),
{
    if 0 <= column && column <= u32::MAX as i64 {
        column as u32
    } else {
        0
    }
}

/// Finds the deadline to which the last heartbeat of an attempt has moved its timeout.
fn find_deadline_ahead(db: &Database, row: &ActivityRow, now: &Timestamp) -> (r: Option<Timestamp>)
    ensures
        r == deadline_ahead(row.deep_view(), db.deep_view().steps, *now),
{
    let beat: &String = match &row.last_heartbeat_at {
        Some(beat) => beat,
        None => return None,
    };
    let timeout: i64 = match find_row(&db.steps, row.step_id.as_str()) {
        Some(p) => match db.steps[p].heartbeat_timeout_secs {
            Some(timeout) => timeout,
            None => return None,
        },
        None => return None,
    };
    match parse_datetime(beat.as_str()) {
        Ok(at) => match at.plus(timeout) {
            Some(deadline) => if deadline.is_after(now) {
                Some(deadline)
            } else {
                None
            },
            None => None,
        },
        Err(_) => None,
    }
}

/// Whether the time of the next attempt after a heartbeat timeout, where one is allowed, lies on
/// the calendar.
pub fn timeout_fits(db: &Database, activity_id: &str, now: &Timestamp) -> (r: bool)
    ensures
        r == timeout_on_calendar(db.deep_view(), activity_id@, *now),
{
    match find_row(&db.activities, activity_id) {
        None => true,
        Some(p) => {
            let row: &ActivityRow = &db.activities[p];
            if row.state != ActivityState::Running || find_deadline_ahead(db, row, now).is_some() {
                return true;
            }
            let policy: RetryPolicy = find_policy(db, row.step_id.as_str());
            retry_fits(&policy, read_attempt(row.attempt), now)
        },
    }
}

/// Handle a heartbeat timeout for a specific activity. Nothing fails where the activity no longer
/// runs, or a heartbeat has moved its timeout ahead.
pub fn handle_heartbeat_timeout(db: &mut Database, activity_id: &str, now: &Timestamp) -> (r:
    Result<Vec<Timer>, String>)
    requires
        now.ordinary(),
        timeout_on_calendar(old(db).deep_view(), activity_id@, *now),
    ensures
        (final(db).deep_view(), outcome(r)) == heartbeat_timed_out(
            old(db).deep_view(),
            activity_id@,
            *now,
        ),
{
    match find_row(&db.activities, activity_id) {
        None => Err("Query returned no rows".to_owned()),
        Some(p) => {
            if db.activities[p].state != ActivityState::Running {
                return Ok(no_timers());
            }
            if let Some(at) = find_deadline_ahead(db, &db.activities[p], now) {
                let mut timers: Vec<Timer> = Vec::new();
                timers.push(Timer::Heartbeat { activity_id: activity_id.to_owned(), at });
                proof {
                    assert(timers.deep_view() =~= seq![
                        TimerView::Heartbeat { activity_id: activity_id@, at },
                    ]);
                }
                return Ok(timers);
            }
            let step_id: String = db.activities[p].step_id.clone();
            let attempt: u32 = read_attempt(db.activities[p].attempt);
            let policy: RetryPolicy = find_policy(db, step_id.as_str());
            match fail_attempt(
                db,
                activity_id,
                step_id.as_str(),
                attempt,
                &policy,
                "Heartbeat timeout",
                now,
            ) {
                Some(at) => {
                    let mut timers: Vec<Timer> = Vec::new();
                    timers.push(Timer::Retry { step_id: step_id.clone(), at });
                    proof {
                        assert(timers.deep_view() =~= seq![
                            TimerView::Retry { step_id: step_id@, at },
                        ]);
                    }
                    Ok(timers)
                },
                None => match find_row(&db.steps, step_id.as_str()) {
                    None => Err("Query returned no rows".to_owned()),
                    Some(q) => {
                        let run_id: String = db.steps[q].workflow_run_id.clone();
                        let _stands: Outlook = process_single_workflow(db, run_id.as_str(), now);
                        Ok(no_timers())
                    },
                },
            }
        },
    }
}

// ---- all workflows --------------------------------------------------------------------------

/// The rows of the runs that have not ended, those that started first first.
pub open spec fn active_rows(rows: Seq<WorkflowRecord>) -> Seq<WorkflowRecord> {
    let picked = rows.filter(|row: WorkflowRecord| row.state.active());
    let keys = picked.map_values(|row: WorkflowRecord| row.started_at);
    arranged(picked, ordered(keys, keys.len(), false))
}

/// Runs looked at one after the other, up to the first that fails, and their timers.
pub open spec fn workflows_advanced(s: Store, run_ids: Seq<Text>, now: Timestamp) -> Handled
    decreases run_ids.len(),
{
    if run_ids.len() == 0 {
        (s, Ok(Seq::empty()))
    } else {
        let (before, earlier) = workflows_advanced(s, run_ids.drop_last(), now);
        match earlier {
            Err(e) => (before, Err(e)),
            Ok(timers) => {
                let (after, own) = workflow_advanced(before, run_ids.last(), now);
                match own {
                    Err(e) => (after, Err(e)),
                    Ok(more) => (after, Ok(timers + more)),
                }
            },
        }
    }
}

/// All runs that have not ended looked at.
pub open spec fn all_advanced(s: Store, now: Timestamp) -> Handled {
    workflows_advanced(
        s,
        active_rows(s.workflows).map_values(|row: WorkflowRecord| row.run_id),
        now,
    )
}

/// A run that fails stops those that follow.
proof fn lemma_advanced_prefix(s: Store, run_ids: Seq<Text>, now: Timestamp, n: int)
    requires
        0 <= n <= run_ids.len(),
        workflows_advanced(s, run_ids.take(n), now).1 is Err,
    ensures
        workflows_advanced(s, run_ids, now) == workflows_advanced(s, run_ids.take(n), now),
    decreases run_ids.len(),
{
    if n == run_ids.len() {
        assert(run_ids.take(n) =~= run_ids);
    } else {
        assert(run_ids.drop_last().take(n) =~= run_ids.take(n));
        lemma_advanced_prefix(s, run_ids.drop_last(), now, n);
    }
}

/// The run IDs of the runs that have not ended, in the order in which they are looked at.
fn active_run_ids(db: &Database) -> (r: Vec<String>)
    ensures
        r.deep_view() == active_rows(db.deep_view().workflows).map_values(
            |row: WorkflowRecord| row.run_id,
        ),
{
    let ghost rows = db.workflows.deep_view();
    let ghost test = |row: WorkflowRecord| row.state.active();
    let mut places: Vec<usize> = Vec::new();
    let mut keys: Vec<Option<String>> = Vec::new();
    let ghost mut picked: Seq<WorkflowRecord> = Seq::empty();
    let mut i: usize = 0;
    proof {
        reveal(Seq::filter);
        assert(rows.take(0) =~= Seq::empty());
    }
    while i < db.workflows.len()
        invariant
            i <= db.workflows@.len(),
            rows == db.workflows.deep_view(),
            test == (|row: WorkflowRecord| row.state.active()),
            picked == rows.take(i as int).filter(test),
            places@.len() == picked.len(),
            keys@.len() == picked.len(),
            forall|k: int|
                0 <= k < picked.len() ==> {
                    &&& (#[trigger] places@[k]) < rows.len()
                    &&& rows[places@[k] as int] == picked[k]
                },
            forall|k: int|
                0 <= k < picked.len() ==> (#[trigger] keys@[k]).deep_view() == picked[k].started_at,
        decreases rows.len() - i,
    {
        proof {
            reveal(Seq::filter);
            assert(rows.take(i + 1).drop_last() =~= rows.take(i as int));
            assert(rows.take(i + 1).last() == rows[i as int]);
        }
        if db.workflows[i].state.is_active() {
            places.push(i);
            keys.push(db.workflows[i].started_at.clone());
            proof {
                picked = picked.push(rows[i as int]);
            }
        }
        i += 1;
    }
    proof {
        assert(rows.take(i as int) =~= rows);
        assert(keys.deep_view() =~= picked.map_values(|row: WorkflowRecord| row.started_at));
    }
    let order: Vec<usize> = sort_order(&keys, false);
    let ghost target = active_rows(rows);
    proof {
        assert(target =~= arranged(picked, order@.map_values(|i: usize| i as int)));
    }
    let mut out: Vec<String> = Vec::new();
    let mut k: usize = 0;
    while k < order.len()
        invariant
            k <= order@.len(),
            rows == db.workflows.deep_view(),
            order@.len() == target.len(),
            target == arranged(picked, order@.map_values(|i: usize| i as int)),
            places@.len() == picked.len(),
            forall|k: int|
                0 <= k < picked.len() ==> {
                    &&& (#[trigger] places@[k]) < rows.len()
                    &&& rows[places@[k] as int] == picked[k]
                },
            forall|i: int| 0 <= i < order@.len() ==> (#[trigger] order@[i]) < picked.len(),
            out@.len() == k,
            forall|j: int| 0 <= j < k ==> (#[trigger] out@[j])@ == target[j].run_id,
        decreases order@.len() - k,
    {
        let at: usize = places[order[k]];
        proof {
            assert(target[k as int] == picked[order@[k as int] as int]);
        }
        out.push(db.workflows[at].run_id.clone());
        k += 1;
    }
    proof {
        assert(out.deep_view() =~= target.map_values(|row: WorkflowRecord| row.run_id));
    }
    out
}

/// Process all running workflows at `now`: advance each to its next pending step.
pub fn process_workflows(db: &mut Database, now: &Timestamp) -> (r: Result<Vec<Timer>, String>)
    ensures
        (final(db).deep_view(), outcome(r)) == all_advanced(old(db).deep_view(), *now),
{
    let ids: Vec<String> = active_run_ids(db);
    let ghost all = ids.deep_view();
    let mut timers: Vec<Timer> = no_timers();
    let mut i: usize = 0;
    proof {
        assert(all.take(0) =~= Seq::empty());
    }
    while i < ids.len()
        invariant
            i <= ids@.len(),
            all == ids.deep_view(),
            all == active_rows(old(db).deep_view().workflows).map_values(
                |row: WorkflowRecord| row.run_id,
            ),
            workflows_advanced(old(db).deep_view(), all.take(i as int), *now) == (
                db.deep_view(),
                Ok::<Seq<TimerView>, Text>(timers.deep_view()),
            ),
        decreases ids@.len() - i,
    {
        proof {
            assert(all.take(i + 1).drop_last() =~= all.take(i as int));
            assert(all.take(i + 1).last() == all[i as int]);
        }
        let ghost done = timers.deep_view();
        match handle_step_completed(db, ids[i].as_str(), now) {
            Ok(mut more) => {
                let ghost own = more.deep_view();
                timers.append(&mut more);
                proof {
                    assert(timers.deep_view() =~= done + own);
                }
            },
            Err(e) => {
                proof {
                    lemma_advanced_prefix(old(db).deep_view(), all, *now, i + 1);
                }
                return Err(e);
            },
        }
        i += 1;
    }
    proof {
        assert(all.take(i as int) =~= all);
    }
    Ok(timers)
}

// ---- retries that are due -------------------------------------------------------------------

/// A step marked for a retry, whose time has come.
pub open spec fn retry_has_come(row: StepRecord, now: Text) -> bool {
    row.state is Retried && row.next_retry_at is Some && text_le(row.next_retry_at->0, now)
}

/// The tables with every step reset whose time to retry has come.
pub open spec fn retries_checked(s: Store, now: Timestamp) -> Store {
    Store {
        steps: s.steps.map_values(
            |row: StepRecord|
                if retry_has_come(row, time_text(now)) {
                    reset_to_pending(row)
                } else {
                    row
                },
        ),
        ..s
    }
}

/// Check for retried steps that are ready to be re-executed at `now`.
pub fn check_retries(db: &mut Database, now: &Timestamp) -> (r: Result<(), String>)
    ensures
        r is Ok,
        final(db).deep_view() == retries_checked(old(db).deep_view(), *now),
{
    let clock: String = format_datetime(now);
    let ghost before = db.steps.deep_view();
    let ghost after = retries_checked(db.deep_view(), *now).steps;
    let mut i: usize = 0;
    while i < db.steps.len()
        invariant
            i <= db.steps@.len(),
            db.steps@.len() == before.len(),
            clock@ == time_text(*now),
            before == old(db).steps.deep_view(),
            after == retries_checked(old(db).deep_view(), *now).steps,
            db.namespaces == old(db).namespaces,
            db.schedules == old(db).schedules,
            db.workflows == old(db).workflows,
            db.activities == old(db).activities,
            forall|j: int| 0 <= j < i ==> #[trigger] db.steps@[j].deep_view() == after[j],
            forall|j: int|
                i <= j < before.len() ==> #[trigger] db.steps@[j].deep_view() == before[j],
        decreases before.len() - i,
    {
        proof {
            assert(db.steps@[i as int].deep_view() == before[i as int]);
        }
        let due: bool = match &db.steps[i].next_retry_at {
            Some(at) => db.steps[i].state == ActivityState::Retried && text_at_most(
                at.as_str(),
                clock.as_str(),
            ),
            None => false,
        };
        if due {
            let row: &mut StepRow = &mut db.steps[i];
            row.state = ActivityState::Pending;
            row.next_retry_at = None;
        }
        i += 1;
    }
    proof {
        assert(db.steps.deep_view() =~= after);
    }
    Ok(())
}

// ---- missed heartbeats ----------------------------------------------------------------------

/// Whether a running attempt has been silent for longer than its heartbeat timeout at `now`; the
/// message where the time of its last sign of life cannot be read.
pub open spec fn silent_too_long(a: RunningActivityView, now: Timestamp) -> Result<bool, Text> {
    match (a.heartbeat_timeout_secs, last_sign(a.started_at_str, a.last_heartbeat_at_str)) {
        (Some(timeout), Some(sign)) => match time_in(sign) {
            Ok(at) => Ok(between(now, at).0 > timeout as i64),
            Err(e) => Err(e),
        },
        _ => Ok(false),
    }
}

/// Running attempts looked at one after the other, up to the first whose times cannot be read:
/// each that has been silent for too long fails, and its step with it or for the next attempt.
pub open spec fn heartbeats_checked(s: Store, list: Seq<RunningActivityView>, now: Timestamp) -> (
    Store,
    Result<(), Text>,
)
    decreases list.len(),
{
    if list.len() == 0 {
        (s, Ok(()))
    } else {
        let (before, earlier) = heartbeats_checked(s, list.drop_last(), now);
        let a = list.last();
        match earlier {
            Err(e) => (before, Err(e)),
            Ok(_) => match silent_too_long(a, now) {
                Err(e) => (before, Err(e)),
                Ok(false) => (before, Ok(())),
                Ok(true) => (
                    attempt_failed(
                        before,
                        a.id,
                        a.step_id,
                        a.attempt,
                        policy_of(before.steps, a.step_id),
                        "Heartbeat timeout"@,
                        now,
                    ),
                    Ok(()),
                ),
            },
        }
    }
}

/// The times of the next attempts after all missed heartbeats, where more are allowed, lie on the
/// calendar.
pub open spec fn timeouts_on_calendar(s: Store, now: Timestamp) -> bool {
    forall|i: int|
        0 <= i < running_activities(s.activities, s.steps).len() ==> {
            let a = #[trigger] running_activities(s.activities, s.steps)[i];
            silent_too_long(a, now) == Ok::<bool, Text>(true) ==> retry_on_calendar(
                policy_of(s.steps, a.step_id),
                a.attempt,
                now,
            )
        }
}

/// An attempt that fails keeps the retry policies of all steps.
proof fn lemma_policies_kept(
    s: Store,
    activity_id: Text,
    step_id: Text,
    attempt: u32,
    policy: RetryPolicy,
    error: Text,
    now: Timestamp,
    other: Text,
)
    ensures
        policy_of(
            attempt_failed(s, activity_id, step_id, attempt, policy, error, now).steps,
            other,
        ) == policy_of(s.steps, other),
{
    let state = if retries(policy, attempt) {
        ActivityState::Pending
    } else {
        ActivityState::Failed
    };
    let at = time_column(next_retry(policy, attempt, now));
    lemma_with_key_changed(
        s.steps,
        step_id,
        |row: StepRecord| step_set(row, state, Some(attempt), None, at),
        other,
    );
}

/// An attempt whose times cannot be read stops those that follow.
proof fn lemma_checked_prefix(s: Store, list: Seq<RunningActivityView>, now: Timestamp, n: int)
    requires
        0 <= n <= list.len(),
        heartbeats_checked(s, list.take(n), now).1 is Err,
    ensures
        heartbeats_checked(s, list, now) == heartbeats_checked(s, list.take(n), now),
    decreases list.len(),
{
    if n == list.len() {
        assert(list.take(n) =~= list);
    } else {
        assert(list.drop_last().take(n) =~= list.take(n));
        lemma_checked_prefix(s, list.drop_last(), now, n);
    }
}

/// Whether a running attempt has been silent for longer than its heartbeat timeout.
fn is_silent_too_long(a: &RunningActivity, now: &Timestamp) -> (r: Result<bool, String>)
    ensures
        outcome(r) == silent_too_long(a.deep_view(), *now),
{
    let timeout: u64 = match a.heartbeat_timeout_secs {
        Some(timeout) => timeout,
        None => return Ok(false),
    };
    let sign: &String = match (&a.last_heartbeat_at_str, &a.started_at_str) {
        (Some(at), _) => at,
        (None, Some(at)) => at,
        (None, None) => return Ok(false),
    };
    match parse_datetime(sign.as_str()) {
        Ok(at) => Ok(now.seconds_since(&at) > timeout as i64),
        Err(e) => Err(e),
    }
}

/// Whether the times of the next attempts after all missed heartbeats, where more are allowed, lie
/// on the calendar.
pub fn timeouts_fit(db: &Database, now: &Timestamp) -> (r: bool)
    ensures
        r == timeouts_on_calendar(db.deep_view(), *now),
{
    let running: Vec<RunningActivity> = match get_running_activities(db) {
        Ok(running) => running,
        Err(_) => return true,
    };
    let ghost s = db.deep_view();
    let ghost all = running.deep_view();
    let mut i: usize = 0;
    while i < running.len()
        invariant
            i <= running@.len(),
            s == db.deep_view(),
            all == running.deep_view(),
            all == running_activities(s.activities, s.steps),
            forall|j: int|
                0 <= j < i ==> {
                    let a = #[trigger] running_activities(s.activities, s.steps)[j];
                    silent_too_long(a, *now) == Ok::<bool, Text>(true) ==> retry_on_calendar(
                        policy_of(s.steps, a.step_id),
                        a.attempt,
                        *now,
                    )
                },
        decreases running@.len() - i,
    {
        let a: &RunningActivity = &running[i];
        proof {
            assert(running_activities(s.activities, s.steps)[i as int] == a.deep_view());
        }
        if let Ok(true) = is_silent_too_long(a, now) {
            let policy: RetryPolicy = find_policy(db, a.step_id.as_str());
            if !retry_fits(&policy, a.attempt, now) {
                return false;
            }
        }
        i += 1;
    }
    true
}

/// Check for running activities that have missed their heartbeat deadline at `now`.
pub fn check_heartbeats_at(db: &mut Database, now: &Timestamp) -> (r: Result<(), String>)
    requires
        now.ordinary(),
        timeouts_on_calendar(old(db).deep_view(), *now),
    ensures
        (final(db).deep_view(), outcome(r)) == heartbeats_checked(
            old(db).deep_view(),
            running_activities(old(db).deep_view().activities, old(db).deep_view().steps),
            *now,
        ),
{
    let running: Vec<RunningActivity> = match get_running_activities(db) {
        Ok(running) => running,
        Err(e) => return Err(e),
    };
    let ghost first = db.deep_view();
    let ghost all = running.deep_view();
    let mut i: usize = 0;
    proof {
        assert(all.take(0) =~= Seq::empty());
    }
    while i < running.len()
        invariant
            i <= running@.len(),
            first == old(db).deep_view(),
            all == running.deep_view(),
            all == running_activities(first.activities, first.steps),
            now.ordinary(),
            timeouts_on_calendar(first, *now),
            heartbeats_checked(first, all.take(i as int), *now) == (
                db.deep_view(),
                Ok::<(), Text>(()),
            ),
            forall|id: Text| #[trigger]
                policy_of(db.deep_view().steps, id) == policy_of(first.steps, id),
        decreases running@.len() - i,
    {
        proof {
            assert(all.take(i + 1).drop_last() =~= all.take(i as int));
            assert(all.take(i + 1).last() == all[i as int]);
        }
        let a: &RunningActivity = &running[i];
        match is_silent_too_long(a, now) {
            Err(e) => {
                proof {
                    lemma_checked_prefix(first, all, *now, i + 1);
                }
                return Err(e);
            },
            Ok(silent) => {
                if silent {
                    let policy: RetryPolicy = find_policy(db, a.step_id.as_str());
                    let ghost before = db.deep_view();
                    proof {
                        assert(running_activities(first.activities, first.steps)[i as int]
                            == a.deep_view());
                    }
                    let _at: Option<Timestamp> = fail_attempt(
                        db,
                        a.id.as_str(),
                        a.step_id.as_str(),
                        a.attempt,
                        &policy,
                        "Heartbeat timeout",
                        now,
                    );
                    proof {
                        assert forall|id: Text| #[trigger]
                            policy_of(db.deep_view().steps, id) == policy_of(first.steps, id) by {
                            lemma_policies_kept(
                                before,
                                a.id@,
                                a.step_id@,
                                a.attempt,
                                policy,
                                "Heartbeat timeout"@,
                                *now,
                                id,
                            );
                        }
                    }
                }
            },
        }
        i += 1;
    }
    proof {
        assert(all.take(i as int) =~= all);
    }
    Ok(())
}

/// What a look at the running attempts does at `now`: nothing, where the time of a next attempt
/// leaves the calendar.
pub open spec fn heartbeats_outcome(s: Store, now: Timestamp) -> (Store, Option<Result<(), Text>>) {
    if timeouts_on_calendar(s, now) {
        let (after, r) = heartbeats_checked(s, running_activities(s.activities, s.steps), now);
        (after, Some(r))
    } else {
        (s, None)
    }
}

/// Check for running activities that have missed their heartbeat deadline. Where the time of a next
/// attempt leaves the calendar, the tables stay as they are and the result is empty.
pub fn check_heartbeats(db: &mut Database) -> (r: Option<Result<(), String>>)
    ensures
        exists|now: Timestamp|
            clock_shows(now) && (
                final(db).deep_view(),
                match r {
                    Some(done) => Some(outcome(done)),
                    None => None,
                },
            ) == #[trigger] heartbeats_outcome(old(db).deep_view(), now),
{
    let now: Timestamp = utc_now();
    let ghost planned = heartbeats_outcome(db.deep_view(), now);
    if timeouts_fit(db, &now) {
        let done: Result<(), String> = check_heartbeats_at(db, &now);
        proof {
            assert(planned == (db.deep_view(), Some(outcome(done))));
        }
        Some(done)
    } else {
        None
    }
}

// ---- the event loop's step ------------------------------------------------------------------

/// What an event does to the tables, and the timers that it asks for.
pub open spec fn event_handled(s: Store, event: EngineEventView, now: Timestamp) -> Handled {
    match event {
        EngineEventView::WorkflowCreated { run_id } => workflow_advanced(s, run_id, now),
        EngineEventView::StepCompleted { workflow_run_id } => workflow_advanced(
            s,
            workflow_run_id,
            now,
        ),
        EngineEventView::ScheduleChange => all_advanced(s, now),
        EngineEventView::RetryDue { step_id } => retry_due(s, step_id, now),
        EngineEventView::HeartbeatTimeout { activity_id } => heartbeat_timed_out(
            s,
            activity_id,
            now,
        ),
    }
}

/// Every time that the event would set lies on the calendar.
pub open spec fn event_on_calendar(s: Store, event: EngineEventView, now: Timestamp) -> bool {
    event matches EngineEventView::HeartbeatTimeout { activity_id } ==> timeout_on_calendar(
        s,
        activity_id,
        now,
    )
}

/// Handles an event at `now`.
pub fn handle_event_at(db: &mut Database, event: &EngineEvent, now: &Timestamp) -> (r: Result<
    Vec<Timer>,
    String,
>)
    requires
        now.ordinary(),
        event_on_calendar(old(db).deep_view(), event.deep_view(), *now),
    ensures
        (final(db).deep_view(), outcome(r)) == event_handled(
            old(db).deep_view(),
            event.deep_view(),
            *now,
        ),
{
    match event {
        EngineEvent::WorkflowCreated { run_id } => handle_workflow_created(
            db,
            run_id.as_str(),
            now,
        ),
        EngineEvent::StepCompleted { workflow_run_id } => handle_step_completed(
            db,
            workflow_run_id.as_str(),
            now,
        ),
        EngineEvent::ScheduleChange => process_workflows(db, now),
        EngineEvent::RetryDue { step_id } => handle_retry_due(db, step_id.as_str(), now),
        EngineEvent::HeartbeatTimeout { activity_id } => handle_heartbeat_timeout(
            db,
            activity_id.as_str(),
            now,
        ),
    }
}

/// What an event does when it is handled at `now`: nothing, where a time that it would set leaves
/// the calendar.
pub open spec fn event_outcome(s: Store, event: EngineEventView, now: Timestamp) -> (
    Store,
    Option<Result<Seq<TimerView>, Text>>,
) {
    if event_on_calendar(s, event, now) {
        let (after, r) = event_handled(s, event, now);
        (after, Some(r))
    } else {
        (s, None)
    }
}

/// Handles an event by the clock. Where a time that it would set leaves the calendar, the tables
/// stay as they are and the result is empty.
pub fn handle_event(db: &mut Database, event: &EngineEvent) -> (r: Option<
    Result<Vec<Timer>, String>,
>)
    ensures
        exists|now: Timestamp|
            clock_shows(now) && (
                final(db).deep_view(),
                match r {
                    Some(handled) => Some(outcome(handled)),
                    None => None,
                },
            ) == #[trigger] event_outcome(old(db).deep_view(), event.deep_view(), now),
{
    let now: Timestamp = utc_now();
    let fits: bool = match event {
        EngineEvent::HeartbeatTimeout { activity_id } => timeout_fits(
            db,
            activity_id.as_str(),
            &now,
        ),
        _ => true,
    };
    let ghost planned = event_outcome(db.deep_view(), event.deep_view(), now);
    if fits {
        let handled: Result<Vec<Timer>, String> = handle_event_at(db, event, &now);
        proof {
            assert(planned == (db.deep_view(), Some(outcome(handled))));
        }
        Some(handled)
    } else {
        None
    }
}

} // verus!
