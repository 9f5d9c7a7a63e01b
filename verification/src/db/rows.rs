//! The rows of the tables, column by column, and the rules that the tables keep.

use vstd::prelude::*;
use vstd::string::*;
use crate::activity::{ActivityState, RetryPolicy};
use crate::schedule::Timeouts;
use crate::text::{text_eq, Text};
use crate::workflow::WorkflowState;

verus! {

// ---- columns --------------------------------------------------------------------------------

/// A column that holds a retry policy in JSON, decoded; or the decoder's message.
#[derive(Debug)]
pub enum PolicyColumn {
    Policy(RetryPolicy),
    Malformed(String),
}

/// The view of a [`PolicyColumn`].
#[verifier::ext_equal]
pub enum PolicyColumnView {
    Policy(RetryPolicy),
    Malformed(Text),
}

impl DeepView for PolicyColumn {
    type V = PolicyColumnView;

    open spec fn deep_view(&self) -> PolicyColumnView {
        match self {
            PolicyColumn::Policy(p) => PolicyColumnView::Policy(*p),
            PolicyColumn::Malformed(m) => PolicyColumnView::Malformed(m@),
        }
    }
}

/// A column that holds timeouts in JSON, decoded; or the decoder's message.
#[derive(Debug)]
pub enum TimeoutsColumn {
    Timeouts(Timeouts),
    Malformed(String),
}

/// The view of a [`TimeoutsColumn`].
#[verifier::ext_equal]
pub enum TimeoutsColumnView {
    Timeouts(Timeouts),
    Malformed(Text),
}

impl DeepView for TimeoutsColumn {
    type V = TimeoutsColumnView;

    open spec fn deep_view(&self) -> TimeoutsColumnView {
        match self {
            TimeoutsColumn::Timeouts(t) => TimeoutsColumnView::Timeouts(*t),
            TimeoutsColumn::Malformed(m) => TimeoutsColumnView::Malformed(m@),
        }
    }
}

/// Which of the two kinds of trigger a schedule has.
#[derive(Clone, Copy, Debug, PartialEq, Eq, Structural)]
pub enum SpecType {
    Cron,
    Interval,
}

/// The overlap policy as the tables hold it, with the number that may be buffered.
#[derive(Clone, Copy, Debug, PartialEq, Eq, Structural)]
pub enum OverlapColumn {
    Skip,
    Buffer(usize),
    Terminate,
}

// ---- rows -----------------------------------------------------------------------------------

/// A row of the table of schedules.
#[derive(Debug)]
pub struct ScheduleRow {
    pub schedule_id: String,
    pub namespace: String,
    pub spec_type: SpecType,
    pub cron_expressions: Option<String>,
    pub interval_seconds: Option<i64>,
    pub overlap_policy: OverlapColumn,
    pub action_workflow_name: String,
    pub action_task_queue: String,
    pub action_args_json: String,
    pub action_id: Option<String>,
    pub timeouts: TimeoutsColumn,
    pub created_at: String,
    pub updated_at: String,
}

/// The view of a [`ScheduleRow`].
#[verifier::ext_equal]
pub struct ScheduleRecord {
    pub schedule_id: Text,
    pub namespace: Text,
    pub spec_type: SpecType,
    pub cron_expressions: Option<Text>,
    pub interval_seconds: Option<i64>,
    pub overlap_policy: OverlapColumn,
    pub action_workflow_name: Text,
    pub action_task_queue: Text,
    pub action_args_json: Text,
    pub action_id: Option<Text>,
    pub timeouts: TimeoutsColumnView,
    pub created_at: Text,
    pub updated_at: Text,
}

impl DeepView for ScheduleRow {
    type V = ScheduleRecord;

    open spec fn deep_view(&self) -> ScheduleRecord {
        ScheduleRecord {
            schedule_id: self.schedule_id@,
            namespace: self.namespace@,
            spec_type: self.spec_type,
            cron_expressions: self.cron_expressions.deep_view(),
            interval_seconds: self.interval_seconds,
            overlap_policy: self.overlap_policy,
            action_workflow_name: self.action_workflow_name@,
            action_task_queue: self.action_task_queue@,
            action_args_json: self.action_args_json@,
            action_id: self.action_id.deep_view(),
            timeouts: self.timeouts.deep_view(),
            created_at: self.created_at@,
            updated_at: self.updated_at@,
        }
    }
}

/// A row of the table of workflow runs.
#[derive(Debug)]
pub struct WorkflowRow {
    pub run_id: String,
    pub workflow_id: String,
    pub name: String,
    pub task_queue: String,
    pub state: WorkflowState,
    pub args_json: String,
    pub result_json: Option<String>,
    pub execution_timeout_secs: Option<i64>,
    pub run_timeout_secs: Option<i64>,
    pub task_timeout_secs: Option<i64>,
    pub started_at: Option<String>,
    pub completed_at: Option<String>,
    pub namespace: String,
}

/// The view of a [`WorkflowRow`].
#[verifier::ext_equal]
pub struct WorkflowRecord {
    pub run_id: Text,
    pub workflow_id: Text,
    pub name: Text,
    pub task_queue: Text,
    pub state: WorkflowState,
    pub args_json: Text,
    pub result_json: Option<Text>,
    pub execution_timeout_secs: Option<i64>,
    pub run_timeout_secs: Option<i64>,
    pub task_timeout_secs: Option<i64>,
    pub started_at: Option<Text>,
    pub completed_at: Option<Text>,
    pub namespace: Text,
}

impl DeepView for WorkflowRow {
    type V = WorkflowRecord;

    open spec fn deep_view(&self) -> WorkflowRecord {
        WorkflowRecord {
            run_id: self.run_id@,
            workflow_id: self.workflow_id@,
            name: self.name@,
            task_queue: self.task_queue@,
            state: self.state,
            args_json: self.args_json@,
            result_json: self.result_json.deep_view(),
            execution_timeout_secs: self.execution_timeout_secs,
            run_timeout_secs: self.run_timeout_secs,
            task_timeout_secs: self.task_timeout_secs,
            started_at: self.started_at.deep_view(),
            completed_at: self.completed_at.deep_view(),
            namespace: self.namespace@,
        }
    }
}

/// A row of the table of workflow steps.
#[derive(Debug)]
pub struct StepRow {
    pub id: String,
    pub workflow_run_id: String,
    pub step_index: i64,
    pub activity_name: String,
    pub args_json: String,
    pub retry_policy: PolicyColumn,
    pub timeout_secs: i64,
    pub heartbeat_timeout_secs: Option<i64>,
    pub state: ActivityState,
    pub attempt: i64,
    pub result_json: Option<String>,
    pub next_retry_at: Option<String>,
    pub created_at: String,
}

/// The view of a [`StepRow`].
#[verifier::ext_equal]
pub struct StepRecord {
    pub id: Text,
    pub workflow_run_id: Text,
    pub step_index: i64,
    pub activity_name: Text,
    pub args_json: Text,
    pub retry_policy: PolicyColumnView,
    pub timeout_secs: i64,
    pub heartbeat_timeout_secs: Option<i64>,
    pub state: ActivityState,
    pub attempt: i64,
    pub result_json: Option<Text>,
    pub next_retry_at: Option<Text>,
    pub created_at: Text,
}

impl DeepView for StepRow {
    type V = StepRecord;

    open spec fn deep_view(&self) -> StepRecord {
        StepRecord {
            id: self.id@,
            workflow_run_id: self.workflow_run_id@,
            step_index: self.step_index,
            activity_name: self.activity_name@,
            args_json: self.args_json@,
            retry_policy: self.retry_policy.deep_view(),
            timeout_secs: self.timeout_secs,
            heartbeat_timeout_secs: self.heartbeat_timeout_secs,
            state: self.state,
            attempt: self.attempt,
            result_json: self.result_json.deep_view(),
            next_retry_at: self.next_retry_at.deep_view(),
            created_at: self.created_at@,
        }
    }
}

/// A row of the table of activity attempts.
#[derive(Debug)]
pub struct ActivityRow {
    pub id: String,
    pub step_id: String,
    pub attempt: i64,
    pub state: ActivityState,
    pub started_at: Option<String>,
    pub completed_at: Option<String>,
    pub last_heartbeat_at: Option<String>,
    pub result_json: Option<String>,
    pub error_message: Option<String>,
}

/// The view of an [`ActivityRow`].
#[verifier::ext_equal]
pub struct ActivityRecord {
    pub id: Text,
    pub step_id: Text,
    pub attempt: i64,
    pub state: ActivityState,
    pub started_at: Option<Text>,
    pub completed_at: Option<Text>,
    pub last_heartbeat_at: Option<Text>,
    pub result_json: Option<Text>,
    pub error_message: Option<Text>,
}

impl DeepView for ActivityRow {
    type V = ActivityRecord;

    open spec fn deep_view(&self) -> ActivityRecord {
        ActivityRecord {
            id: self.id@,
            step_id: self.step_id@,
            attempt: self.attempt,
            state: self.state,
            started_at: self.started_at.deep_view(),
            completed_at: self.completed_at.deep_view(),
            last_heartbeat_at: self.last_heartbeat_at.deep_view(),
            result_json: self.result_json.deep_view(),
            error_message: self.error_message.deep_view(),
        }
    }
}

// ---- the tables -----------------------------------------------------------------------------

/// All tables. The rows of each stand in the order in which they were inserted.
#[derive(Debug)]
pub struct Database {
    pub namespaces: Vec<String>,
    pub schedules: Vec<ScheduleRow>,
    pub workflows: Vec<WorkflowRow>,
    pub steps: Vec<StepRow>,
    pub activities: Vec<ActivityRow>,
}

/// The view of a [`Database`].
#[verifier::ext_equal]
pub struct Store {
    pub namespaces: Seq<Text>,
    pub schedules: Seq<ScheduleRecord>,
    pub workflows: Seq<WorkflowRecord>,
    pub steps: Seq<StepRecord>,
    pub activities: Seq<ActivityRecord>,
}

impl DeepView for Database {
    type V = Store;

    open spec fn deep_view(&self) -> Store {
        Store {
            namespaces: self.namespaces.deep_view(),
            schedules: self.schedules.deep_view(),
            workflows: self.workflows.deep_view(),
            steps: self.steps.deep_view(),
            activities: self.activities.deep_view(),
        }
    }
}

// ---- rows and their keys --------------------------------------------------------------------

/// A record that has a key within its table.
pub trait Keyed: Sized {
    spec fn key(self) -> Text;
}

impl Keyed for ScheduleRecord {
    open spec fn key(self) -> Text {
        self.schedule_id
    }
}

impl Keyed for WorkflowRecord {
    open spec fn key(self) -> Text {
        self.run_id
    }
}

impl Keyed for StepRecord {
    open spec fn key(self) -> Text {
        self.id
    }
}

impl Keyed for ActivityRecord {
    open spec fn key(self) -> Text {
        self.id
    }
}

/// A row whose key can be read.
pub trait Row<R: Keyed>: DeepView<V = R> + Sized {
    fn row_key(&self) -> (r: &str)
        ensures
            r@ == self.deep_view().key(),
    ;
}

impl Row<ScheduleRecord> for ScheduleRow {
    fn row_key(&self) -> (r: &str) {
        self.schedule_id.as_str()
    }
}

impl Row<WorkflowRecord> for WorkflowRow {
    fn row_key(&self) -> (r: &str) {
        self.run_id.as_str()
    }
}

impl Row<StepRecord> for StepRow {
    fn row_key(&self) -> (r: &str) {
        self.id.as_str()
    }
}

impl Row<ActivityRecord> for ActivityRow {
    fn row_key(&self) -> (r: &str) {
        self.id.as_str()
    }
}

/// Some row has this key.
pub open spec fn has_key<R: Keyed>(rows: Seq<R>, key: Text) -> bool {
    exists|i: int| 0 <= i < rows.len() && (#[trigger] rows[i]).key() == key
}

/// The first row with this key.
pub open spec fn with_key<R: Keyed>(rows: Seq<R>, key: Text) -> Option<R>
    decreases rows.len(),
{
    if rows.len() == 0 {
        None
    } else if rows[0].key() == key {
        Some(rows[0])
    } else {
        with_key(rows.drop_first(), key)
    }
}

/// No two rows have one key.
pub open spec fn unique_keys<R: Keyed>(rows: Seq<R>) -> bool {
    forall|i: int, j: int|
        0 <= i < j < rows.len() ==> (#[trigger] rows[i]).key() != (#[trigger] rows[j]).key()
}

/// The rows with `change` made to each that has this key.
pub open spec fn changed<R: Keyed>(rows: Seq<R>, key: Text, change: spec_fn(R) -> R) -> Seq<R> {
    rows.map_values(
        |row: R|
            if row.key() == key {
                change(row)
            } else {
                row
            },
    )
}

/// Where row `i` is the first with its key, it is the one found under it.
pub proof fn lemma_first_with_key<R: Keyed>(rows: Seq<R>, key: Text, i: int)
    requires
        0 <= i < rows.len(),
        rows[i].key() == key,
        forall|j: int| 0 <= j < i ==> (#[trigger] rows[j]).key() != key,
    ensures
        with_key(rows, key) == Some(rows[i]),
    decreases rows.len(),
{
    if i > 0 {
        assert(rows[0].key() != key);
        let rest = rows.drop_first();
        assert forall|j: int| 0 <= j < i - 1 implies (#[trigger] rest[j]).key() != key by {
            assert(rest[j] == rows[j + 1]);
        }
        lemma_first_with_key(rest, key, i - 1);
    }
}

/// A row is found under a key exactly where some row has it, and is such a row.
pub proof fn lemma_with_key<R: Keyed>(rows: Seq<R>, key: Text)
    ensures
        with_key(rows, key) is Some <==> has_key(rows, key),
        with_key(rows, key) matches Some(row) ==> row.key() == key && rows.contains(row),
    decreases rows.len(),
{
    if rows.len() > 0 {
        let rest = rows.drop_first();
        lemma_with_key(rest, key);
        if rows[0].key() == key {
            assert(has_key(rows, key));
            assert(rows.contains(rows[0]));
        } else {
            if has_key(rest, key) {
                let i = choose|i: int| 0 <= i < rest.len() && (#[trigger] rest[i]).key() == key;
                assert(rows[i + 1].key() == key);
            }
            if has_key(rows, key) {
                let i = choose|i: int| 0 <= i < rows.len() && (#[trigger] rows[i]).key() == key;
                assert(rest[i - 1].key() == key);
            }
            if let Some(row) = with_key(rows, key) {
                let i = choose|i: int| 0 <= i < rest.len() && rest[i] == row;
                assert(rows[i + 1] == row);
            }
        }
    }
}

/// A row at the end is found where no earlier one has its key.
pub proof fn lemma_with_key_push<R: Keyed>(rows: Seq<R>, row: R, key: Text)
    ensures
        with_key(rows.push(row), key) == if has_key(rows, key) {
            with_key(rows, key)
        } else if row.key() == key {
            Some(row)
        } else {
            None
        },
    decreases rows.len(),
{
    reveal_with_fuel(with_key, 2);
    lemma_with_key(rows, key);
    if rows.len() == 0 {
        assert(rows.push(row).drop_first() =~= Seq::empty());
    } else {
        assert(rows.push(row).drop_first() =~= rows.drop_first().push(row));
        lemma_with_key_push(rows.drop_first(), row, key);
        lemma_with_key(rows.drop_first(), key);
    }
}

/// A change under one key shows under that key and under no other, as long as it keeps the key.
pub proof fn lemma_with_key_changed<R: Keyed>(
    rows: Seq<R>,
    key: Text,
    change: spec_fn(R) -> R,
    other: Text,
)
    requires
        forall|row: R| (#[trigger] change(row)).key() == row.key(),
    ensures
        with_key(changed(rows, key, change), other) == match with_key(rows, other) {
            Some(row) => Some(
                if other == key {
                    change(row)
                } else {
                    row
                },
            ),
            None => None,
        },
    decreases rows.len(),
{
    let after = changed(rows, key, change);
    if rows.len() > 0 {
        assert(after.drop_first() =~= changed(rows.drop_first(), key, change));
        lemma_with_key_changed(rows.drop_first(), key, change, other);
        assert(after[0] == if rows[0].key() == key {
            change(rows[0])
        } else {
            rows[0]
        });
    }
}

/// A change that keeps the keys keeps them apart.
pub proof fn lemma_changed_keeps_keys<R: Keyed>(rows: Seq<R>, key: Text, change: spec_fn(R) -> R)
    requires
        forall|row: R| (#[trigger] change(row)).key() == row.key(),
    ensures
        unique_keys(rows) ==> unique_keys(changed(rows, key, change)),
        forall|k: Text| #[trigger] has_key(changed(rows, key, change), k) <==> has_key(rows, k),
{
    let after = changed(rows, key, change);
    assert forall|i: int| 0 <= i < rows.len() implies (#[trigger] after[i]).key()
        == rows[i].key() by {}
    assert forall|k: Text| #[trigger] has_key(after, k) <==> has_key(rows, k) by {
        if has_key(after, k) {
            let i = choose|i: int| 0 <= i < after.len() && (#[trigger] after[i]).key() == k;
            assert(rows[i].key() == k);
        }
        if has_key(rows, k) {
            let i = choose|i: int| 0 <= i < rows.len() && (#[trigger] rows[i]).key() == k;
            assert(after[i].key() == k);
        }
    }
}

/// A row with a new key keeps the keys apart.
pub proof fn lemma_push_keeps_keys<R: Keyed>(rows: Seq<R>, row: R)
    ensures
        unique_keys(rows) && !has_key(rows, row.key()) ==> unique_keys(rows.push(row)),
        forall|k: Text| #[trigger]
            has_key(rows.push(row), k) <==> has_key(rows, k) || k == row.key(),
{
    let after = rows.push(row);
    if unique_keys(rows) && !has_key(rows, row.key()) {
        assert forall|i: int, j: int| 0 <= i < j < after.len() implies (
        #[trigger] after[i]).key() != (#[trigger] after[j]).key() by {
            assert(after[i] == rows[i]);
            if j < rows.len() {
                assert(rows[i].key() != rows[j].key());
            } else {
                assert(rows[i].key() != row.key());
            }
        }
    }
    assert forall|k: Text| #[trigger] has_key(after, k) <==> has_key(rows, k) || k
        == row.key() by {
        if has_key(after, k) {
            let i = choose|i: int| 0 <= i < after.len() && (#[trigger] after[i]).key() == k;
            if i < rows.len() {
                assert(rows[i].key() == k);
            }
        }
        if has_key(rows, k) {
            let i = choose|i: int| 0 <= i < rows.len() && (#[trigger] rows[i]).key() == k;
            assert(after[i].key() == k);
        }
        if k == row.key() {
            assert(after[rows.len() as int].key() == k);
        }
    }
}

/// A change of every row that keeps the keys keeps them apart.
pub proof fn lemma_map_keeps_keys<R: Keyed>(rows: Seq<R>, change: spec_fn(R) -> R)
    requires
        forall|row: R| (#[trigger] change(row)).key() == row.key(),
    ensures
        unique_keys(rows) ==> unique_keys(rows.map_values(change)),
        forall|k: Text| #[trigger] has_key(rows.map_values(change), k) <==> has_key(rows, k),
{
    let after = rows.map_values(change);
    assert forall|i: int| 0 <= i < rows.len() implies (#[trigger] after[i]).key()
        == rows[i].key() by {}
    assert forall|k: Text| #[trigger] has_key(after, k) <==> has_key(rows, k) by {
        if has_key(after, k) {
            let i = choose|i: int| 0 <= i < after.len() && (#[trigger] after[i]).key() == k;
            assert(rows[i].key() == k);
        }
        if has_key(rows, k) {
            let i = choose|i: int| 0 <= i < rows.len() && (#[trigger] rows[i]).key() == k;
            assert(after[i].key() == k);
        }
    }
}

// ---- the rules of the tables ----------------------------------------------------------------

/// Every step belongs to a run that is there.
pub open spec fn steps_have_runs(s: Store) -> bool {
    forall|i: int|
        0 <= i < s.steps.len() ==> has_key(s.workflows, (#[trigger] s.steps[i]).workflow_run_id)
}

/// Every activity attempt belongs to a step that is there.
pub open spec fn attempts_have_steps(s: Store) -> bool {
    forall|i: int|
        0 <= i < s.activities.len() ==> has_key(s.steps, (#[trigger] s.activities[i]).step_id)
}

/// No activity attempt is marked for a retry; only steps are.
pub open spec fn attempts_not_retried(s: Store) -> bool {
    forall|i: int| 0 <= i < s.activities.len() ==> !((#[trigger] s.activities[i]).state is Retried)
}

/// The rules that the tables keep: keys are unique, every step has its run and every attempt its
/// step, and attempts have one of their own states.
pub open spec fn consistent(s: Store) -> bool {
    &&& s.namespaces.no_duplicates()
    &&& unique_keys(s.schedules)
    &&& unique_keys(s.workflows)
    &&& unique_keys(s.steps)
    &&& unique_keys(s.activities)
    &&& steps_have_runs(s)
    &&& attempts_have_steps(s)
    &&& attempts_not_retried(s)
}

impl Database {
    /// Tables without rows.
    pub fn new() -> (r: Database)
        ensures
            consistent(r.deep_view()),
            r.deep_view() == (Store {
                namespaces: Seq::empty(),
                schedules: Seq::empty(),
                workflows: Seq::empty(),
                steps: Seq::empty(),
                activities: Seq::empty(),
            }),
    {
        let r: Database = Database {
            namespaces: Vec::new(),
            schedules: Vec::new(),
            workflows: Vec::new(),
            steps: Vec::new(),
            activities: Vec::new(),
        };
        proof {
            assert(r.deep_view() =~= (Store {
                namespaces: Seq::empty(),
                schedules: Seq::empty(),
                workflows: Seq::empty(),
                steps: Seq::empty(),
                activities: Seq::empty(),
            }));
        }
        r
    }
}

// ---- finding rows ---------------------------------------------------------------------------

/// The place of the first row with this key.
pub fn find_row<R: Keyed, T: Row<R>>(rows: &Vec<T>, key: &str) -> (r: Option<usize>)
    ensures
        match r {
            Some(i) => i < rows@.len() && with_key(rows.deep_view(), key@) == Some(
                rows@[i as int].deep_view(),
            ) && rows.deep_view()[i as int].key() == key@,
            None => !has_key(rows.deep_view(), key@) && with_key(rows.deep_view(), key@) is None,
        },
{
    let mut i: usize = 0;
    while i < rows.len()
        invariant
            i <= rows@.len(),
            forall|j: int| 0 <= j < i ==> (#[trigger] rows.deep_view()[j]).key() != key@,
        decreases rows@.len() - i,
    {
        if text_eq(rows[i].row_key(), key) {
            proof {
                lemma_first_with_key(rows.deep_view(), key@, i as int);
            }
            return Some(i);
        }
        i += 1;
    }
    proof {
        lemma_with_key(rows.deep_view(), key@);
    }
    None
}

} // verus!
