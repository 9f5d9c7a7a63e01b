//! What a worker is given and what it reports, in terms of the rows.

use vstd::prelude::*;
use crate::activity::{ActivityState, ActivityTaskView, RetryPolicy};
use crate::clock::{plus_seconds, time_text, Timestamp, MAX_SECS, MIN_SECS};
use crate::db::activities::{activity_state_updated, attempt_set, ready, ready_rows, step_in, step_set, step_state_updated, steps_in};
use crate::db::order::{law_ordered, lemma_filter, ordered};
use crate::db::rows::{consistent, lemma_with_key_changed, with_key, ActivityRecord, Keyed, PolicyColumnView, StepRecord, Store};
use crate::db::workflows::time_column;
use crate::engine::EngineEventView;
use crate::ids::{uuid_parse, uuid_text};
use crate::json::{json_as_string, json_parse, json_parse_bytes, json_string_text, string_args};
use crate::laws::rows::{law_attempt_inserted_row, law_attempt_state_set, law_heartbeat_set, law_step_read, law_step_state_set};
use crate::laws::running::{law_ready_in_order, law_ready_rows, lemma_ready_row};
use crate::retry::{attempt_failed, next_retry};
use crate::service::temporal::{queue_outcome, queue_polled, step_queued, task_completed, QueuedTaskView};
use crate::service::worker::{activity_failure_reported, activity_polled, activity_result_reported, failure_outcome, first_mark, handed_out, heartbeat_told, lemma_steps_in, poll_outcome, step_chosen, step_offered};
use crate::text::{lossy_text, text_lt, Text};
use crate::workflow::{WorkflowState, WorkflowStepInstanceView};
use vstd::utf8::encode_utf8;

verus! {

// ---- which step is given --------------------------------------------------------------------

/// The task queue that a name stands for: `default` where it is empty.
pub open spec fn queue_meant(name: Text) -> Text {
    if name.len() == 0 {
        "default"@
    } else {
        name
    }
}

/// The task queue of the run that a step belongs to; empty where there is no such run.
pub open spec fn runs_on(s: Store, row: StepRecord) -> Text {
    match with_key(s.workflows, uuid_text(uuid_parse(row.workflow_run_id)->Ok_0)) {
        Some(run) => run.task_queue,
        None => Seq::empty(),
    }
}

/// The steps of its run that come before a step are all completed.
pub open spec fn has_its_turn(s: Store, row: StepRecord) -> bool {
    forall|j: int|
        0 <= j < s.steps.len() && (#[trigger] s.steps[j]).workflow_run_id == row.workflow_run_id
            && s.steps[j].step_index < row.step_index ==> s.steps[j].state is Completed
}

/// A step that a worker wants: it takes the type, the run is on its queue, and the step has its turn.
pub open spec fn fits_worker(s: Store, row: StepRecord, queue: Text, types: Seq<Text>) -> bool {
    &&& types.len() == 0 || types.contains(row.activity_name)
    &&& queue_meant(runs_on(s, row)) == queue_meant(queue)
    &&& has_its_turn(s, row)
}

/// A step that a poll of a queue wants: the run is on the queue, and the step has its turn.
pub open spec fn fits_queue(s: Store, row: StepRecord, queue: Text) -> bool {
    runs_on(s, row) == queue && has_its_turn(s, row)
}

/// The step in row `k` comes before that in row `i`: it was created earlier, or in the same second
/// and inserted earlier.
pub open spec fn comes_before(s: Store, k: int, i: int) -> bool {
    text_lt(s.steps[k].created_at, s.steps[i].created_at) || (s.steps[k].created_at
        == s.steps[i].created_at && k < i)
}

/// The first mark is one, with none before it; there is none where nothing is marked.
proof fn lemma_mark_is_first(marks: Seq<bool>)
    ensures
        match first_mark(marks) {
            Some(p) => 0 <= p < marks.len() && marks[p] && forall|j: int|
                0 <= j < p ==> !(#[trigger] marks[j]),
            None => forall|j: int| 0 <= j < marks.len() ==> !(#[trigger] marks[j]),
        },
    decreases marks.len(),
{
    if marks.len() > 0 {
        let front = marks.drop_last();
        lemma_mark_is_first(front);
        if let Some(p) = first_mark(front) {
            assert(front[p] == marks[p]);
            assert forall|j: int| 0 <= j < p implies !(#[trigger] marks[j]) by {
                assert(front[j] == marks[j]);
            }
        } else {
            assert forall|j: int| 0 <= j < front.len() implies !(#[trigger] marks[j]) by {
                assert(front[j] == marks[j]);
            }
            assert(marks.last() == marks[marks.len() - 1]);
        }
    }
}

/// Where no step is chosen, no ready step is wanted.
proof fn lemma_none_chosen(
    s: Store,
    now: Timestamp,
    wanted: spec_fn(StepRecord, WorkflowStepInstanceView) -> bool,
    k: int,
)
    requires
        step_chosen(s, now, wanted) == Ok::<Option<WorkflowStepInstanceView>, Text>(None),
        0 <= k < s.steps.len(),
        ready(s.steps[k], time_text(now)),
    ensures
        step_in(s.steps[k]) matches Ok(step) && !wanted(s.steps[k], step),
{
    let rows = ready_rows(s.steps, now);
    lemma_steps_in(rows);
    let list = steps_in(rows)->Ok_0;
    let marks = Seq::new(list.len(), |p: int| wanted(rows[p], list[p]));
    lemma_mark_is_first(marks);
    law_ready_rows(s.steps, now);
    let p = choose|p: int| 0 <= p < rows.len() && rows[p] == s.steps[k];
    assert(step_in(rows[p]) == Ok::<WorkflowStepInstanceView, Text>(list[p]));
    assert(!marks[p]);
}

/// Rows that differ still differ behind a filter.
pub(crate) proof fn lemma_filter_apart<A>(rows: Seq<A>, test: spec_fn(A) -> bool)
    requires
        forall|i: int, j: int| 0 <= i < j < rows.len() ==> #[trigger] rows[i] != #[trigger] rows[j],
    ensures
        forall|i: int, j: int|
            0 <= i < j < rows.filter(test).len() ==> #[trigger] rows.filter(test)[i]
                != #[trigger] rows.filter(test)[j],
    decreases rows.len(),
{
    reveal(Seq::filter);
    if rows.len() > 0 {
        let front = rows.drop_last();
        assert forall|i: int, j: int| 0 <= i < j < front.len() implies #[trigger] front[i]
            != #[trigger] front[j] by {
            assert(rows[i] != rows[j]);
        }
        lemma_filter_apart(front, test);
        lemma_filter(front, test);
        let kept = front.filter(test);
        let all = rows.filter(test);
        assert forall|i: int, j: int| 0 <= i < j < all.len() implies #[trigger] all[i]
            != #[trigger] all[j] by {
            assert(all[i] == kept[i]);
            if j < kept.len() {
                assert(all[j] == kept[j]);
            } else {
                assert(front.contains(kept[i]));
                let k = choose|k: int| 0 <= k < front.len() && front[k] == kept[i];
                assert(rows[k] != rows[rows.len() - 1]);
            }
        }
    }
}

/// In consistent tables no ready step is listed twice.
proof fn lemma_ready_apart(s: Store, now: Timestamp, p: int, q: int)
    requires
        consistent(s),
        0 <= p < q < ready_rows(s.steps, now).len(),
    ensures
        ready_rows(s.steps, now)[p] != ready_rows(s.steps, now)[q],
{
    assert forall|i: int, j: int| 0 <= i < j < s.steps.len() implies #[trigger] s.steps[i]
        != #[trigger] s.steps[j] by {
        assert(s.steps[i].key() != s.steps[j].key());
    }
    let test = |row: StepRecord| ready(row, time_text(now));
    lemma_filter_apart(s.steps, test);
    let picked = s.steps.filter(test);
    let keys = picked.map_values(|row: StepRecord| Some(row.created_at));
    law_ordered(keys, keys.len(), false);
    let order = ordered(keys, keys.len(), false);
    assert(order[p] != order[q]);
    if order[p] < order[q] {
        assert(picked[order[p]] != picked[order[q]]);
    } else {
        assert(picked[order[q]] != picked[order[p]]);
    }
}

/// The step that is chosen is in a row that is ready and wanted, and no ready row that is wanted
/// comes before it.
proof fn lemma_first_chosen(
    s: Store,
    now: Timestamp,
    wanted: spec_fn(StepRecord, WorkflowStepInstanceView) -> bool,
) -> (i: int)
    requires
        consistent(s),
        step_chosen(s, now, wanted) matches Ok(Some(_)),
    ensures
        0 <= i < s.steps.len(),
        step_chosen(s, now, wanted) == Ok::<Option<WorkflowStepInstanceView>, Text>(
            Some(step_in(s.steps[i])->Ok_0),
        ),
        step_in(s.steps[i]) is Ok,
        ready(s.steps[i], time_text(now)),
        wanted(s.steps[i], step_in(s.steps[i])->Ok_0),
        forall|k: int|
            0 <= k < s.steps.len() && ready(#[trigger] s.steps[k], time_text(now)) && comes_before(
                s,
                k,
                i,
            ) ==> step_in(s.steps[k]) is Ok && !wanted(s.steps[k], step_in(s.steps[k])->Ok_0),
{
    let rows = ready_rows(s.steps, now);
    lemma_steps_in(rows);
    let list = steps_in(rows)->Ok_0;
    let marks = Seq::new(list.len(), |p: int| wanted(rows[p], list[p]));
    lemma_mark_is_first(marks);
    let p = first_mark(marks)->0;
    lemma_ready_row(s.steps, now, p);
    assert(step_in(rows[p]) == Ok::<WorkflowStepInstanceView, Text>(list[p]));
    let i = choose|i: int| 0 <= i < s.steps.len() && s.steps[i] == rows[p];
    assert forall|k: int|
        0 <= k < s.steps.len() && ready(#[trigger] s.steps[k], time_text(now)) && comes_before(
            s,
            k,
            i,
        ) implies step_in(s.steps[k]) is Ok && !wanted(s.steps[k], step_in(s.steps[k])->Ok_0) by {
        law_ready_in_order(s.steps, now, k, i);
        let (a, b) = choose|a: int, b: int|
            0 <= a < b < rows.len() && (#[trigger] rows[a]) == s.steps[k] && (#[trigger] rows[b])
                == s.steps[i];
        if p < b {
            lemma_ready_apart(s, now, p, b);
        }
        if b < p {
            lemma_ready_apart(s, now, b, p);
        }
        assert(!marks[a]);
        assert(step_in(rows[a]) == Ok::<WorkflowStepInstanceView, Text>(list[a]));
    }
    i
}

/// A poll that gives no task was right to: no ready step is of a type that the worker takes, of a
/// run on its queue, and with all steps before it completed.
pub proof fn law_poll_misses_none(
    s: Store,
    queue: Text,
    types: Seq<Text>,
    activity_id: u128,
    now: Timestamp,
    k: int,
)
    requires
        activity_polled(s, queue, types, activity_id, now).1 matches Ok(None),
        0 <= k < s.steps.len(),
    ensures
        ready(s.steps[k], time_text(now)) ==> !fits_worker(s, s.steps[k], queue, types),
        activity_polled(s, queue, types, activity_id, now).0 == s,
{
    if ready(s.steps[k], time_text(now)) {
        let wanted = |row: StepRecord, step: WorkflowStepInstanceView|
            crate::service::worker::step_wanted(s, row, step, queue, types);
        assert(step_offered(s, queue, types, now) == step_chosen(s, now, wanted));
        lemma_none_chosen(s, now, wanted, k);
        law_step_read(s.steps[k]);
    }
}

/// A poll of a queue that gives no task was right to: no ready step is of a run on the queue and
/// with all steps before it completed.
pub proof fn law_queue_poll_misses_none(
    s: Store,
    queue: Text,
    activity_id: u128,
    now: Timestamp,
    k: int,
)
    requires
        queue_polled(s, queue, activity_id, now).1 matches Ok(None),
        0 <= k < s.steps.len(),
    ensures
        ready(s.steps[k], time_text(now)) ==> !fits_queue(s, s.steps[k], queue),
        queue_polled(s, queue, activity_id, now).0 == s,
{
    if ready(s.steps[k], time_text(now)) {
        let wanted = |row: StepRecord, step: WorkflowStepInstanceView|
            crate::service::temporal::step_wanted(s, row, step, queue);
        assert(step_queued(s, queue, now) == step_chosen(s, now, wanted));
        lemma_none_chosen(s, now, wanted, k);
        law_step_read(s.steps[k]);
    }
}

/// A task tells what the row of its step holds; a heartbeat limit that the step does not have is 30
/// seconds.
pub open spec fn task_tells(task: ActivityTaskView, row: StepRecord, activity_id: u128) -> bool {
    &&& task.activity_id == uuid_text(activity_id)
    &&& uuid_parse(row.id) is Ok && task.step_id == uuid_text(uuid_parse(row.id)->Ok_0)
    &&& uuid_parse(row.workflow_run_id) is Ok && task.workflow_run_id == uuid_text(
        uuid_parse(row.workflow_run_id)->Ok_0,
    )
    &&& task.name == row.activity_name
    &&& json_parse(row.args_json) is Ok && task.args == string_args(
        json_parse(row.args_json)->Ok_0,
    )
    &&& row.retry_policy == PolicyColumnView::Policy(task.retry_policy)
    &&& task.heartbeat_timeout_secs == match row.heartbeat_timeout_secs {
        Some(secs) => secs as u64,
        None => 30,
    }
    &&& task.start_to_close_timeout_secs == row.timeout_secs as u64
}

/// The step that a poll gives is ready and wanted by the worker, and it is the first such step in
/// the order of creation; the task tells what its row holds.
pub proof fn law_poll_gives_the_first(
    s: Store,
    queue: Text,
    types: Seq<Text>,
    activity_id: u128,
    now: Timestamp,
)
    requires
        consistent(s),
    ensures
        activity_polled(s, queue, types, activity_id, now).1 matches Ok(Some(task)) ==> exists|i: int|
            {
                &&& 0 <= i < s.steps.len()
                &&& task_tells(task, #[trigger] s.steps[i], activity_id)
                &&& ready(s.steps[i], time_text(now))
                &&& fits_worker(s, s.steps[i], queue, types)
                &&& forall|k: int|
                    0 <= k < s.steps.len() && ready(#[trigger] s.steps[k], time_text(now))
                        && comes_before(s, k, i) ==> !fits_worker(s, s.steps[k], queue, types)
            },
{
    if let Ok(Some(task)) = activity_polled(s, queue, types, activity_id, now).1 {
        let wanted = |row: StepRecord, step: WorkflowStepInstanceView|
            crate::service::worker::step_wanted(s, row, step, queue, types);
        assert(step_offered(s, queue, types, now) == step_chosen(s, now, wanted));
        let i = lemma_first_chosen(s, now, wanted);
        law_step_read(s.steps[i]);
        assert(task_tells(task, s.steps[i], activity_id));
        assert forall|k: int|
            0 <= k < s.steps.len() && ready(#[trigger] s.steps[k], time_text(now)) && comes_before(
                s,
                k,
                i,
            ) implies !fits_worker(s, s.steps[k], queue, types) by {
            law_step_read(s.steps[k]);
        }
    }
}

/// A task of a queue tells what the row of its step holds; its token is the ID of the attempt, and a
/// heartbeat limit that the step does not have is 30 seconds.
pub open spec fn queued_task_tells(task: QueuedTaskView, row: StepRecord, activity_id: u128) -> bool {
    &&& task.task_token == encode_utf8(uuid_text(activity_id))
    &&& uuid_parse(row.workflow_run_id) is Ok && task.run_id == uuid_text(
        uuid_parse(row.workflow_run_id)->Ok_0,
    )
    &&& task.activity_name == row.activity_name
    &&& json_parse(row.args_json) is Ok && match json_as_string(json_parse(row.args_json)->Ok_0) {
        Some(text) => if text.len() == 0 {
            task.input is None
        } else {
            task.input == Some(encode_utf8(json_string_text(text)))
        },
        None => task.input is None,
    }
    &&& task.heartbeat_timeout_secs == match row.heartbeat_timeout_secs {
        Some(secs) => (secs as u64) as i64,
        None => 30,
    }
    &&& task.timeout_secs == (row.timeout_secs as u64) as i64
}

/// The step that a poll of a queue gives is ready, of a run on the queue and in its turn, and it is
/// the first such step in the order of creation; the task tells what its row holds, and the
/// namespace of its run.
pub proof fn law_queue_poll_gives_the_first(s: Store, queue: Text, activity_id: u128, now: Timestamp)
    requires
        consistent(s),
    ensures
        queue_polled(s, queue, activity_id, now).1 matches Ok(Some(task)) ==> exists|i: int|
            {
                &&& 0 <= i < s.steps.len()
                &&& queued_task_tells(task, #[trigger] s.steps[i], activity_id)
                &&& task.workflow_namespace == match with_key(s.workflows, task.run_id) {
                    Some(run) => run.namespace,
                    None => "default"@,
                }
                &&& ready(s.steps[i], time_text(now))
                &&& fits_queue(s, s.steps[i], queue)
                &&& forall|k: int|
                    0 <= k < s.steps.len() && ready(#[trigger] s.steps[k], time_text(now))
                        && comes_before(s, k, i) ==> !fits_queue(s, s.steps[k], queue)
            },
{
    if let Ok(Some(task)) = queue_polled(s, queue, activity_id, now).1 {
        let wanted = |row: StepRecord, step: WorkflowStepInstanceView|
            crate::service::temporal::step_wanted(s, row, step, queue);
        assert(step_queued(s, queue, now) == step_chosen(s, now, wanted));
        let i = lemma_first_chosen(s, now, wanted);
        law_step_read(s.steps[i]);
        let step = step_in(s.steps[i])->Ok_0;
        assert(queued_task_tells(task, s.steps[i], activity_id));
        let running = step_state_updated(
            s,
            uuid_text(step.id),
            WorkflowState::Running,
            Some((step.attempt + 1) as u32),
            None,
            None,
        ).0;
        let run_id = uuid_text(step.workflow_run_id);
        let clock = time_text(now);
        lemma_with_key_changed(
            s.workflows,
            run_id,
            |row: crate::db::rows::WorkflowRecord| crate::engine::started(row, clock),
            run_id,
        );
        assert forall|k: int|
            0 <= k < s.steps.len() && ready(#[trigger] s.steps[k], time_text(now)) && comes_before(
                s,
                k,
                i,
            ) implies !fits_queue(s, s.steps[k], queue) by {
            law_step_read(s.steps[k]);
        }
    }
}

/// A poll is answered unless the step that it would give has used up the numbers of attempts, and a
/// report of a failure unless the retry that it asks for lies outside the calendar; then nothing
/// changes.
pub proof fn law_answers(
    s: Store,
    queue: Text,
    types: Seq<Text>,
    activity_id: u128,
    id: Text,
    error: Text,
    now: Timestamp,
)
    ensures
        match poll_outcome(s, queue, types, activity_id, now).1 {
            Some(r) => activity_polled(s, queue, types, activity_id, now) == (
                poll_outcome(s, queue, types, activity_id, now).0,
                r,
            ),
            None => poll_outcome(s, queue, types, activity_id, now).0 == s && (step_offered(
                s,
                queue,
                types,
                now,
            ) matches Ok(Some(step)) && step.attempt == u32::MAX),
        },
        match queue_outcome(s, queue, activity_id, now).1 {
            Some(r) => queue_polled(s, queue, activity_id, now) == (
                queue_outcome(s, queue, activity_id, now).0,
                r,
            ),
            None => queue_outcome(s, queue, activity_id, now).0 == s && (step_queued(
                s,
                queue,
                now,
            ) matches Ok(Some(step)) && step.attempt == u32::MAX),
        },
        match failure_outcome(s, id, error, now).1 {
            Some(r) => activity_failure_reported(s, id, error, now) == (
                failure_outcome(s, id, error, now).0,
                r,
            ),
            None => failure_outcome(s, id, error, now).0 == s && (with_key(
                s.activities,
                id,
            ) matches Some(a) && (with_key(s.steps, a.step_id) matches Some(step) && (
            step.retry_policy matches PolicyColumnView::Policy(policy) && (a.attempt as u32)
                < policy.maximum_attempts && !(MIN_SECS <= now.second() + policy.backoff(
                a.attempt as u32,
            ) <= MAX_SECS)))),
        },
{
}

// ---- handing out ----------------------------------------------------------------------------

/// Handing a step out: its row runs as the next attempt, which is a new row that runs since now; a
/// pending run of the step starts, and keeps a start that it has; no other row changes.
pub proof fn law_handed_out(
    s: Store,
    step: WorkflowStepInstanceView,
    activity_id: u128,
    now: Timestamp,
    i: int,
)
    requires
        step.attempt < u32::MAX,
        handed_out(s, step, activity_id, now).1 is Ok,
    ensures
        ({
            let after = handed_out(s, step, activity_id, now).0;
            let n = s.activities.len() as int;
            &&& after.activities.len() == n + 1
            &&& after.activities[n].id == uuid_text(activity_id)
            &&& after.activities[n].step_id == uuid_text(step.id)
            &&& after.activities[n].attempt == step.attempt + 1
            &&& after.activities[n].state is Running
            &&& after.activities[n].started_at == Some(time_text(now))
            &&& after.activities[n].last_heartbeat_at is None
            &&& 0 <= i < n ==> after.activities[i] == s.activities[i]
            &&& after.steps.len() == s.steps.len()
            &&& 0 <= i < s.steps.len() && s.steps[i].id == uuid_text(step.id) ==> {
                &&& after.steps[i].state is Running
                &&& after.steps[i].attempt == step.attempt + 1
                &&& after.steps[i].next_retry_at is None && after.steps[i].result_json is None
            }
            &&& 0 <= i < s.steps.len() && s.steps[i].id != uuid_text(step.id) ==> after.steps[i]
                == s.steps[i]
            &&& after.workflows.len() == s.workflows.len()
            &&& 0 <= i < s.workflows.len() ==> {
                let (a, b) = (s.workflows[i], after.workflows[i]);
                let starts = a.run_id == uuid_text(step.workflow_run_id) && a.state is Pending;
                &&& !starts ==> b == a
                &&& starts ==> b.state is Running && b.run_id == a.run_id && b.started_at is Some && (
                a.started_at is Some ==> b.started_at == a.started_at) && (a.started_at is None
                    ==> b.started_at == Some(time_text(now))) && b.completed_at == a.completed_at
                    && b.namespace == a.namespace && b.task_queue == a.task_queue
            }
            &&& after.schedules == s.schedules && after.namespaces == s.namespaces
        }),
{
    let attempt = (step.attempt + 1) as u32;
    let running = step_state_updated(
        s,
        uuid_text(step.id),
        WorkflowState::Running,
        Some(attempt),
        None,
        None,
    ).0;
    if 0 <= i < s.steps.len() {
        law_step_state_set(
            s,
            uuid_text(step.id),
            WorkflowState::Running,
            Some(attempt),
            None,
            None,
            i,
        );
    }
    law_attempt_inserted_row(
        running,
        uuid_text(activity_id),
        uuid_text(step.id),
        attempt,
        now,
    );
}

// ---- reports --------------------------------------------------------------------------------

/// A result that a worker reports: an empty text stands for the empty object, a text that is no JSON
/// is refused and changes nothing. Otherwise the attempt is completed with it and with the time as
/// its end, its step is completed with it, and the answer names the run of the step; an attempt that
/// is not there is an error. No other row changes.
pub proof fn law_result_reported(s: Store, activity_id: Text, text: Text, now: Timestamp, i: int)
    ensures
        ({
            let (after, r) = activity_result_reported(s, activity_id, text, now);
            let read = text.len() == 0 || json_parse(text) is Ok;
            let value = if text.len() == 0 {
                "{}"@
            } else {
                json_parse(text)->Ok_0
            };
            &&& !read ==> after == s && (r matches Err(e) && e.code is InvalidArgument)
            &&& read ==> {
                &&& r matches Err(e) ==> e.code is Internal
                &&& r is Ok <==> (with_key(s.activities, activity_id) matches Some(a) && with_key(
                    s.steps,
                    a.step_id,
                ) is Some)
                &&& 0 <= i < s.activities.len() && s.activities[i].id == activity_id ==> {
                    &&& after.activities[i].state is Completed
                    &&& after.activities[i].result_json == Some(value)
                    &&& after.activities[i].error_message is None
                    &&& after.activities[i].completed_at == Some(time_text(now))
                }
                &&& with_key(s.activities, activity_id) matches Some(a) ==> {
                    &&& 0 <= i < s.steps.len() && s.steps[i].id == a.step_id ==> {
                        &&& after.steps[i].state is Completed
                        &&& after.steps[i].result_json == Some(value)
                        &&& after.steps[i].attempt == s.steps[i].attempt
                        &&& after.steps[i].workflow_run_id == s.steps[i].workflow_run_id
                    }
                    &&& 0 <= i < s.steps.len() && s.steps[i].id != a.step_id ==> after.steps[i]
                        == s.steps[i]
                    &&& r matches Ok((done, event)) ==> done && (with_key(
                        s.steps,
                        a.step_id,
                    ) matches Some(step) && event == (EngineEventView::StepCompleted {
                        workflow_run_id: step.workflow_run_id,
                    }))
                }
            }
            &&& 0 <= i < s.activities.len() && s.activities[i].id != activity_id
                ==> after.activities[i] == s.activities[i]
            &&& after.workflows == s.workflows && after.schedules == s.schedules
                && after.namespaces == s.namespaces
        }),
{
    if text.len() == 0 || json_parse(text) is Ok {
        let value = if text.len() == 0 {
            "{}"@
        } else {
            json_parse(text)->Ok_0
        };
        lemma_completing(s, activity_id, value, now, i);
    }
}

/// What completing an attempt and its step does to the rows.
proof fn lemma_completing(s: Store, activity_id: Text, value: Text, now: Timestamp, i: int)
    ensures
        ({
            let marked = activity_state_updated(
                s,
                activity_id,
                ActivityState::Completed,
                Some(value),
                None,
                now,
            ).0;
            &&& marked.steps == s.steps && marked.workflows == s.workflows && marked.schedules
                == s.schedules && marked.namespaces == s.namespaces
            &&& 0 <= i < s.activities.len() ==> if s.activities[i].id == activity_id {
                marked.activities[i].state is Completed && marked.activities[i].result_json
                    == Some(value) && marked.activities[i].error_message is None
                    && marked.activities[i].completed_at == Some(time_text(now))
            } else {
                marked.activities[i] == s.activities[i]
            }
            &&& with_key(marked.activities, activity_id) is Some <==> with_key(
                s.activities,
                activity_id,
            ) is Some
            &&& with_key(s.activities, activity_id) matches Some(a) ==> {
                let done = step_state_updated(
                    marked,
                    a.step_id,
                    WorkflowState::Completed,
                    None,
                    Some(value),
                    None,
                ).0;
                &&& with_key(marked.activities, activity_id)->0.step_id == a.step_id
                &&& done.activities == marked.activities && done.workflows == s.workflows
                    && done.schedules == s.schedules && done.namespaces == s.namespaces
                &&& with_key(done.steps, a.step_id) is Some <==> with_key(s.steps, a.step_id)
                    is Some
                &&& with_key(s.steps, a.step_id) matches Some(step) ==> with_key(
                    done.steps,
                    a.step_id,
                )->0.workflow_run_id == step.workflow_run_id
                &&& 0 <= i < s.steps.len() ==> if s.steps[i].id == a.step_id {
                    done.steps[i].state is Completed && done.steps[i].result_json == Some(value)
                        && done.steps[i].attempt == s.steps[i].attempt
                        && done.steps[i].workflow_run_id == s.steps[i].workflow_run_id
                } else {
                    done.steps[i] == s.steps[i]
                }
            }
        }),
{
    let marked = activity_state_updated(
        s,
        activity_id,
        ActivityState::Completed,
        Some(value),
        None,
        now,
    ).0;
    if 0 <= i < s.activities.len() {
        law_attempt_state_set(
            s,
            activity_id,
            ActivityState::Completed,
            Some(value),
            None,
            now,
            i,
        );
    }
    lemma_with_key_changed(
        s.activities,
        activity_id,
        |row: ActivityRecord|
            attempt_set(row, ActivityState::Completed, Some(value), None, time_text(now)),
        activity_id,
    );
    if let Some(a) = with_key(s.activities, activity_id) {
        lemma_with_key_changed(
            marked.steps,
            a.step_id,
            |step: StepRecord|
                step_set(step, ActivityState::Completed, None, Some(value), time_column(None)),
            a.step_id,
        );
        if 0 <= i < s.steps.len() {
            law_step_state_set(
                marked,
                a.step_id,
                WorkflowState::Completed,
                None,
                Some(value),
                None,
                i,
            );
        }
    }
}

/// The text that a result in payloads stands for: that of its first payload where it is JSON, else
/// that payload as a string; the empty object where there is none.
pub open spec fn result_means(result: Option<Seq<Seq<u8>>>, value: Text) -> bool {
    match result {
        Some(payloads) => if payloads.len() == 0 {
            value == "{}"@
        } else {
            match json_parse_bytes(payloads[0]) {
                Some(text) => value == text,
                None => value == json_string_text(lossy_text(payloads[0])),
            }
        },
        None => value == "{}"@,
    }
}

/// A task of a queue that is answered: the attempt that the token names is completed with the
/// result, and so is its step; an attempt that is not there is an error. No other row changes.
pub proof fn law_task_completed(
    s: Store,
    token: Seq<u8>,
    result: Option<Seq<Seq<u8>>>,
    now: Timestamp,
    i: int,
    value: Text,
)
    requires
        result_means(result, value),
    ensures
        ({
            let (after, r) = task_completed(s, token, result, now);
            let id = lossy_text(token);
            &&& r is Ok <==> with_key(s.activities, id) is Some
            &&& r matches Err(e) ==> e.code is Internal
            &&& 0 <= i < s.activities.len() && s.activities[i].id == id ==> {
                &&& after.activities[i].state is Completed
                &&& after.activities[i].result_json == Some(value)
                &&& after.activities[i].completed_at == Some(time_text(now))
            }
            &&& 0 <= i < s.activities.len() && s.activities[i].id != id ==> after.activities[i]
                == s.activities[i]
            &&& with_key(s.activities, id) matches Some(a) ==> {
                &&& 0 <= i < s.steps.len() && s.steps[i].id == a.step_id ==> {
                    &&& after.steps[i].state is Completed
                    &&& after.steps[i].result_json == Some(value)
                }
                &&& 0 <= i < s.steps.len() && s.steps[i].id != a.step_id ==> after.steps[i]
                    == s.steps[i]
            }
            &&& after.workflows == s.workflows && after.schedules == s.schedules
                && after.namespaces == s.namespaces
        }),
{
    lemma_completing(s, lossy_text(token), value, now, i);
}

/// A failure that marks an attempt: the attempt has failed, with the error and with the time as its
/// end. Its step waits for the time of the next attempt while the policy allows one, and has failed
/// otherwise.
pub proof fn law_attempt_failed(
    s: Store,
    activity_id: Text,
    step_id: Text,
    attempt: u32,
    policy: RetryPolicy,
    error: Text,
    now: Timestamp,
    i: int,
)
    ensures
        ({
            let after = attempt_failed(s, activity_id, step_id, attempt, policy, error, now);
            &&& 0 <= i < s.activities.len() && s.activities[i].id == activity_id ==> {
                &&& after.activities[i].state is Failed
                &&& after.activities[i].error_message == Some(error)
                &&& after.activities[i].result_json is None
                &&& after.activities[i].completed_at == Some(time_text(now))
            }
            &&& 0 <= i < s.activities.len() && s.activities[i].id != activity_id
                ==> after.activities[i] == s.activities[i]
            &&& 0 <= i < s.steps.len() && s.steps[i].id == step_id ==> {
                &&& after.steps[i].attempt == attempt
                &&& after.steps[i].result_json is None
                &&& attempt < policy.maximum_attempts ==> after.steps[i].state is Pending && (
                plus_seconds(now, policy.backoff(attempt)) matches Some(at)
                    ==> after.steps[i].next_retry_at == Some(time_text(at)))
                &&& attempt >= policy.maximum_attempts ==> after.steps[i].state is Failed
                    && after.steps[i].next_retry_at is None
            }
            &&& 0 <= i < s.steps.len() && s.steps[i].id != step_id ==> after.steps[i] == s.steps[i]
            &&& after.activities.len() == s.activities.len() && after.steps.len() == s.steps.len()
            &&& after.workflows == s.workflows && after.schedules == s.schedules
                && after.namespaces == s.namespaces
        }),
{
    let marked = activity_state_updated(
        s,
        activity_id,
        ActivityState::Failed,
        None,
        Some(error),
        now,
    ).0;
    if 0 <= i < s.activities.len() {
        law_attempt_state_set(s, activity_id, ActivityState::Failed, None, Some(error), now, i);
    }
    if 0 <= i < s.steps.len() {
        let state = if attempt < policy.maximum_attempts {
            WorkflowState::Pending
        } else {
            WorkflowState::Failed
        };
        law_step_state_set(
            marked,
            step_id,
            state,
            Some(attempt),
            None,
            next_retry(policy, attempt, now),
            i,
        );
    }
}

/// A failure that a worker reports: it is taken exactly where the attempt and its step are there and
/// the policy of the step can be read, and marks that attempt with the error, and its step as that
/// policy says for the number of the attempt. Otherwise nothing changes.
pub proof fn law_failure_reported(s: Store, activity_id: Text, error: Text, now: Timestamp, i: int)
    ensures
        ({
            let (after, r) = activity_failure_reported(s, activity_id, error, now);
            &&& r is Ok <==> (with_key(s.activities, activity_id) matches Some(a) && (with_key(
                s.steps,
                a.step_id,
            ) matches Some(step) && step.retry_policy is Policy))
            &&& r matches Ok(done) ==> done
            &&& r matches Err(e) ==> e.code is Internal && after == s
            &&& r is Ok ==> {
                let a = with_key(s.activities, activity_id)->0;
                let policy = with_key(s.steps, a.step_id)->0.retry_policy->Policy_0;
                &&& 0 <= i < s.activities.len() && s.activities[i].id == activity_id ==> {
                    &&& after.activities[i].state is Failed
                    &&& after.activities[i].error_message == Some(error)
                    &&& after.activities[i].completed_at == Some(time_text(now))
                }
                &&& 0 <= i < s.steps.len() && s.steps[i].id == a.step_id ==> {
                    &&& after.steps[i].attempt == a.attempt as u32
                    &&& (a.attempt as u32) < policy.maximum_attempts ==> after.steps[i].state
                        is Pending && (plus_seconds(
                        now,
                        policy.backoff(a.attempt as u32),
                    ) matches Some(at) ==> after.steps[i].next_retry_at == Some(time_text(at)))
                    &&& (a.attempt as u32) >= policy.maximum_attempts ==> after.steps[i].state
                        is Failed
                }
                &&& 0 <= i < s.steps.len() && s.steps[i].id != a.step_id ==> after.steps[i]
                    == s.steps[i]
                &&& 0 <= i < s.activities.len() && s.activities[i].id != activity_id
                    ==> after.activities[i] == s.activities[i]
            }
            &&& after.workflows == s.workflows && after.schedules == s.schedules
                && after.namespaces == s.namespaces
        }),
{
    if let Some(a) = with_key(s.activities, activity_id) {
        if let Some(step) = with_key(s.steps, a.step_id) {
            if let PolicyColumnView::Policy(policy) = step.retry_policy {
                law_attempt_failed(
                    s,
                    activity_id,
                    a.step_id,
                    a.attempt as u32,
                    policy,
                    error,
                    now,
                    i,
                );
            }
        }
    }
}

/// A heartbeat is taken exactly where a running attempt has the ID, and sets the time of its last
/// heartbeat.
pub proof fn law_heartbeat_told(s: Store, activity_id: Text, now: Timestamp)
    ensures
        ({
            let (after, r) = heartbeat_told(s, activity_id, now);
            &&& r is Ok <==> exists|i: int|
                0 <= i < s.activities.len() && (#[trigger] s.activities[i]).id == activity_id
                    && s.activities[i].state is Running
            &&& r matches Ok(done) ==> done
            &&& r matches Err(e) ==> e.code is Internal && after == s
            &&& forall|i: int|
                0 <= i < s.activities.len() && (#[trigger] s.activities[i]).id == activity_id
                    && s.activities[i].state is Running ==> after.activities[i].last_heartbeat_at
                    == Some(time_text(now))
        }),
{
    let (after, r) = heartbeat_told(s, activity_id, now);
    if s.activities.len() > 0 {
        law_heartbeat_set(s, activity_id, now, 0);
    }
    assert forall|i: int|
        0 <= i < s.activities.len() && (#[trigger] s.activities[i]).id == activity_id
            && s.activities[i].state is Running implies r is Ok
        && after.activities[i].last_heartbeat_at == Some(time_text(now)) by {
        law_heartbeat_set(s, activity_id, now, i);
    }
}

} // verus!
