//! Workflows: their definitions, their runs, and the steps of a run.

use vstd::prelude::*;
use vstd::string::*;
use crate::activity::RetryPolicy;
use crate::clock::Timestamp;
use crate::json::{Entries, Json};
use crate::schedule::Timeouts;
use crate::text::{concat2, outcome, text_eq, Text};

verus! {

/// State of a workflow execution.
#[derive(Clone, Copy, Debug, PartialEq, Eq, Structural)]
pub enum WorkflowState {
    Pending,
    Running,
    Completed,
    Failed,
    Cancelled,
}

impl Default for WorkflowState {
    fn default() -> (r: WorkflowState)
        ensures
            r == WorkflowState::Pending,
    {
        WorkflowState::Pending
    }
}

impl DeepView for WorkflowState {
    type V = WorkflowState;

    open spec fn deep_view(&self) -> WorkflowState {
        *self
    }
}

impl WorkflowState {
    /// The run has not ended.
    pub open spec fn active(self) -> bool {
        self is Pending || self is Running
    }

    /// Whether the run has not ended.
    pub fn is_active(&self) -> (r: bool)
        ensures
            r == self.active(),
    {
        match self {
            WorkflowState::Pending => true,
            WorkflowState::Running => true,
            _ => false,
        }
    }
}

/// The word for a state in the tables.
pub open spec fn workflow_state_word(state: WorkflowState) -> Text {
    match state {
        WorkflowState::Pending => "pending"@,
        WorkflowState::Running => "running"@,
        WorkflowState::Completed => "completed"@,
        WorkflowState::Failed => "failed"@,
        WorkflowState::Cancelled => "cancelled"@,
    }
}

/// The state that a word in the tables stands for.
pub open spec fn workflow_state_in(word: Text) -> Result<WorkflowState, Text> {
    if word == "pending"@ {
        Ok(WorkflowState::Pending)
    } else if word == "running"@ {
        Ok(WorkflowState::Running)
    } else if word == "completed"@ {
        Ok(WorkflowState::Completed)
    } else if word == "failed"@ {
        Ok(WorkflowState::Failed)
    } else if word == "cancelled"@ {
        Ok(WorkflowState::Cancelled)
    } else {
        Err("Unknown workflow state: "@ + word)
    }
}

/// Convert WorkflowState to its database string representation.
pub fn workflow_state_to_str(state: WorkflowState) -> (r: &'static str)
    ensures
        r@ == workflow_state_word(state),
{
    match state {
        WorkflowState::Pending => "pending",
        WorkflowState::Running => "running",
        WorkflowState::Completed => "completed",
        WorkflowState::Failed => "failed",
        WorkflowState::Cancelled => "cancelled",
    }
}

/// Convert a database string to WorkflowState.
pub fn str_to_workflow_state(s: &str) -> (r: Result<WorkflowState, String>)
    ensures
        outcome(r) == workflow_state_in(s@),
{
    if text_eq(s, "pending") {
        Ok(WorkflowState::Pending)
    } else if text_eq(s, "running") {
        Ok(WorkflowState::Running)
    } else if text_eq(s, "completed") {
        Ok(WorkflowState::Completed)
    } else if text_eq(s, "failed") {
        Ok(WorkflowState::Failed)
    } else if text_eq(s, "cancelled") {
        Ok(WorkflowState::Cancelled)
    } else {
        Err(concat2("Unknown workflow state: ", s))
    }
}

/// The word for a state stands for that state.
pub proof fn law_state_words_read_back(state: WorkflowState)
    ensures
        workflow_state_in(workflow_state_word(state)) == Ok::<WorkflowState, Text>(state),
{
    reveal_strlit("pending");
    reveal_strlit("running");
    reveal_strlit("completed");
    reveal_strlit("failed");
    reveal_strlit("cancelled");
    assert("pending"@[0] == 'p' && "running"@[0] == 'r' && "completed"@[0] == 'c');
    assert("failed"@[0] == 'f' && "cancelled"@[0] == 'c');
    assert("completed"@[1] == 'o' && "cancelled"@[1] == 'a');
}

/// Definition of a workflow composed of activity steps.
#[derive(Clone, Debug)]
pub struct WorkflowDefinition {
    /// Name identifying this workflow definition.
    pub name: String,
    /// Ordered list of activities that make up the workflow.
    pub steps: Vec<ActivityStep>,
}

/// A single step within a workflow definition.
#[derive(Clone, Debug)]
pub struct ActivityStep {
    /// Name of the activity to execute.
    pub activity_name: String,
    /// Template for arguments passed to this step; of entries with one key the last counts.
    pub args_template: Vec<(String, String)>,
    /// Retry configuration for this step.
    pub retry_policy: RetryPolicy,
    /// Maximum time allowed for this step to complete.
    pub timeout_secs: u64,
    /// Maximum time between heartbeats before the step is considered failed.
    pub heartbeat_timeout_secs: Option<u64>,
}

/// The view of an [`ActivityStep`].
#[verifier::ext_equal]
pub struct ActivityStepView {
    pub activity_name: Text,
    pub args_template: Entries,
    pub retry_policy: RetryPolicy,
    pub timeout_secs: u64,
    pub heartbeat_timeout_secs: Option<u64>,
}

impl DeepView for ActivityStep {
    type V = ActivityStepView;

    open spec fn deep_view(&self) -> ActivityStepView {
        ActivityStepView {
            activity_name: self.activity_name@,
            args_template: self.args_template.deep_view(),
            retry_policy: self.retry_policy,
            timeout_secs: self.timeout_secs,
            heartbeat_timeout_secs: self.heartbeat_timeout_secs,
        }
    }
}

/// A concrete instance of a workflow execution.
#[derive(Clone, Debug)]
pub struct WorkflowInstance {
    /// Unique run identifier.
    pub run_id: u128,
    /// Stable workflow ID (deduplication key).
    pub workflow_id: String,
    /// Name of the workflow definition being executed.
    pub name: String,
    /// Task queue this workflow is assigned to.
    pub task_queue: String,
    /// Current state of execution.
    pub state: WorkflowState,
    /// Input arguments as JSON.
    pub args_json: Json,
    /// Result value after completion (if any).
    pub result_json: Option<Json>,
    /// Timeout configuration for this run.
    pub timeouts: Timeouts,
    /// When execution started.
    pub started_at: Option<Timestamp>,
    /// When execution completed or failed.
    pub completed_at: Option<Timestamp>,
    /// Namespace this workflow belongs to.
    pub namespace: String,
}

/// The view of a [`WorkflowInstance`].
#[verifier::ext_equal]
pub struct WorkflowInstanceView {
    pub run_id: u128,
    pub workflow_id: Text,
    pub name: Text,
    pub task_queue: Text,
    pub state: WorkflowState,
    pub args_json: Text,
    pub result_json: Option<Text>,
    pub timeouts: Timeouts,
    pub started_at: Option<Timestamp>,
    pub completed_at: Option<Timestamp>,
    pub namespace: Text,
}

impl DeepView for WorkflowInstance {
    type V = WorkflowInstanceView;

    open spec fn deep_view(&self) -> WorkflowInstanceView {
        WorkflowInstanceView {
            run_id: self.run_id,
            workflow_id: self.workflow_id@,
            name: self.name@,
            task_queue: self.task_queue@,
            state: self.state,
            args_json: self.args_json.deep_view(),
            result_json: self.result_json.deep_view(),
            timeouts: self.timeouts,
            started_at: self.started_at,
            completed_at: self.completed_at,
            namespace: self.namespace@,
        }
    }
}

/// A step within a running workflow instance.
#[derive(Clone, Debug)]
pub struct WorkflowStepInstance {
    /// Unique step identifier.
    pub id: u128,
    /// Parent workflow run ID.
    pub workflow_run_id: u128,
    /// Index of this step in the workflow definition.
    pub step_index: usize,
    /// Name of the activity for this step.
    pub activity_name: String,
    /// Resolved arguments as JSON.
    pub args_json: Json,
    /// Retry configuration inherited from the step definition.
    pub retry_policy: RetryPolicy,
    /// Maximum time allowed for this step.
    pub timeout_secs: u64,
    /// Heartbeat deadline in seconds.
    pub heartbeat_timeout_secs: Option<u64>,
    /// Current state of this step.
    pub state: WorkflowState,
    /// Current retry attempt number (1-based).
    pub attempt: u32,
    /// Result after completion (if any).
    pub result_json: Option<Json>,
    /// When the next retry is scheduled.
    pub next_retry_at: Option<Timestamp>,
}

/// The view of a [`WorkflowStepInstance`].
#[verifier::ext_equal]
pub struct WorkflowStepInstanceView {
    pub id: u128,
    pub workflow_run_id: u128,
    pub step_index: usize,
    pub activity_name: Text,
    pub args_json: Text,
    pub retry_policy: RetryPolicy,
    pub timeout_secs: u64,
    pub heartbeat_timeout_secs: Option<u64>,
    pub state: WorkflowState,
    pub attempt: u32,
    pub result_json: Option<Text>,
    pub next_retry_at: Option<Timestamp>,
}

impl DeepView for WorkflowStepInstance {
    type V = WorkflowStepInstanceView;

    open spec fn deep_view(&self) -> WorkflowStepInstanceView {
        WorkflowStepInstanceView {
            id: self.id,
            workflow_run_id: self.workflow_run_id,
            step_index: self.step_index,
            activity_name: self.activity_name@,
            args_json: self.args_json.deep_view(),
            retry_policy: self.retry_policy,
            timeout_secs: self.timeout_secs,
            heartbeat_timeout_secs: self.heartbeat_timeout_secs,
            state: self.state,
            attempt: self.attempt,
            result_json: self.result_json.deep_view(),
            next_retry_at: self.next_retry_at,
        }
    }
}

} // verus!
