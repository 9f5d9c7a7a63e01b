//! Schedules: when they fire, what they start, and what happens when runs overlap.

use vstd::prelude::*;
use vstd::string::*;
use crate::clock::{NANOS_PER_SEC, Timestamp};
use crate::json::Entries;
use crate::text::{concat3, decimal, decimal_text, join, joined, Text};

verus! {

/// A length of time: whole seconds and nanoseconds.
#[derive(Clone, Copy, Debug, PartialEq, Eq, Structural)]
pub struct Interval {
    pub secs: u64,
    pub nanos: u32,
}

/// What `std` writes for a length of time in its debug form.
pub uninterp spec fn duration_debug(secs: u64, nanos: u32) -> Text;

/// `std::time::Duration::new` in its `Debug` form. The result is only named.
#[verifier::external_body]
pub(crate) fn debug_duration(secs: u64, nanos: u32) -> (r: String)
    requires
        nanos < NANOS_PER_SEC,
    ensures
        r@ == duration_debug(secs, nanos),
{
    format!("{:?}", std::time::Duration::new(secs, nanos))
}

/// Specification for how a schedule should trigger.
#[derive(Clone, Debug)]
pub enum ScheduleSpec {
    /// Cron expression(s) that define when the schedule fires.
    Cron(Vec<String>),
    /// Fixed interval between triggers.
    Interval(Interval),
}

/// The view of a [`ScheduleSpec`].
#[verifier::ext_equal]
pub enum ScheduleSpecView {
    Cron(Seq<Text>),
    Interval(Interval),
}

impl DeepView for ScheduleSpec {
    type V = ScheduleSpecView;

    open spec fn deep_view(&self) -> ScheduleSpecView {
        match self {
            ScheduleSpec::Cron(expressions) => ScheduleSpecView::Cron(expressions.deep_view()),
            ScheduleSpec::Interval(interval) => ScheduleSpecView::Interval(*interval),
        }
    }
}

impl ScheduleSpecView {
    /// A readable form: the expressions joined by commas, or the interval.
    pub open spec fn shown(self) -> Text {
        match self {
            ScheduleSpecView::Cron(expressions) => "Cron("@ + joined(expressions, ", "@) + ")"@,
            ScheduleSpecView::Interval(interval) => "Interval("@ + duration_debug(
                interval.secs,
                interval.nanos,
            ) + ")"@,
        }
    }
}

impl ScheduleSpec {
    /// A readable form: the expressions joined by commas, or the interval.
    pub fn to_text(&self) -> (r: String)
        requires
            self matches ScheduleSpec::Interval(interval) ==> interval.nanos < NANOS_PER_SEC,
        ensures
            r@ == self.deep_view().shown(),
    {
        match self {
            ScheduleSpec::Cron(expressions) => {
                let inner: String = join(expressions, ", ");
                concat3("Cron(", inner.as_str(), ")")
            },
            ScheduleSpec::Interval(interval) => {
                let inner: String = debug_duration(interval.secs, interval.nanos);
                concat3("Interval(", inner.as_str(), ")")
            },
        }
    }
}

/// Policy for handling overlapping workflow executions.
#[derive(Clone, Copy, Debug, PartialEq, Eq, Structural)]
pub enum OverlapPolicy {
    /// Skip the new execution if one is already running.
    Skip,
    /// Buffer up to N pending executions while one runs.
    Buffer(usize),
    /// Terminate any existing execution before starting a new one.
    TerminateExisting,
}

impl DeepView for OverlapPolicy {
    type V = OverlapPolicy;

    open spec fn deep_view(&self) -> OverlapPolicy {
        *self
    }
}

impl OverlapPolicy {
    /// A readable form: the name of the policy, with the number that may be buffered.
    pub open spec fn shown(self) -> Text {
        match self {
            OverlapPolicy::Skip => "Skip"@,
            OverlapPolicy::Buffer(n) => "Buffer("@ + decimal(n as nat) + ")"@,
            OverlapPolicy::TerminateExisting => "TerminateExisting"@,
        }
    }

    /// A readable form: the name of the policy, with the number that may be buffered.
    pub fn to_text(&self) -> (r: String)
        ensures
            r@ == self.shown(),
    {
        match self {
            OverlapPolicy::Skip => "Skip".to_owned(),
            OverlapPolicy::Buffer(n) => {
                let inner: String = decimal_text(*n as u64);
                concat3("Buffer(", inner.as_str(), ")")
            },
            OverlapPolicy::TerminateExisting => "TerminateExisting".to_owned(),
        }
    }
}

/// Timeout configuration for workflow execution.
#[derive(Clone, Copy, Debug, PartialEq, Eq, Structural)]
pub struct Timeouts {
    /// Maximum time the entire workflow execution can take (including retries).
    pub execution_timeout_secs: Option<u64>,
    /// Maximum time for a single run of the workflow.
    pub run_timeout_secs: Option<u64>,
    /// Maximum time for an individual task within the workflow.
    pub task_timeout_secs: Option<u64>,
}

impl Timeouts {
    /// No limit at all.
    pub open spec fn unlimited() -> Timeouts {
        Timeouts { execution_timeout_secs: None, run_timeout_secs: None, task_timeout_secs: None }
    }
}

impl Default for Timeouts {
    fn default() -> (r: Timeouts)
        ensures
            r == Timeouts::unlimited(),
    {
        Timeouts { execution_timeout_secs: None, run_timeout_secs: None, task_timeout_secs: None }
    }
}

impl DeepView for Timeouts {
    type V = Timeouts;

    open spec fn deep_view(&self) -> Timeouts {
        *self
    }
}

/// Action to perform when a schedule fires.
#[derive(Clone, Debug)]
pub struct WorkflowAction {
    /// Name of the workflow to invoke.
    pub workflow_name: String,
    /// Arguments passed to the workflow; of entries with one key the last counts.
    pub args: Vec<(String, String)>,
    /// Task queue where the workflow should be dispatched.
    pub task_queue: String,
    /// Unique identifier for this action.
    pub id: String,
    /// Timeout configuration.
    pub timeouts: Timeouts,
}

/// The view of a [`WorkflowAction`].
#[verifier::ext_equal]
pub struct WorkflowActionView {
    pub workflow_name: Text,
    pub args: Entries,
    pub task_queue: Text,
    pub id: Text,
    pub timeouts: Timeouts,
}

impl DeepView for WorkflowAction {
    type V = WorkflowActionView;

    open spec fn deep_view(&self) -> WorkflowActionView {
        WorkflowActionView {
            workflow_name: self.workflow_name@,
            args: self.args.deep_view(),
            task_queue: self.task_queue@,
            id: self.id@,
            timeouts: self.timeouts,
        }
    }
}

/// A complete schedule definition.
#[derive(Clone, Debug)]
pub struct Schedule {
    /// Unique schedule identifier.
    pub schedule_id: String,
    /// Namespace this schedule belongs to.
    pub namespace: String,
    /// When the schedule should fire.
    pub spec: ScheduleSpec,
    /// What happens when the schedule fires.
    pub action: WorkflowAction,
    /// Policy for overlapping executions.
    pub policy: OverlapPolicy,
    /// When this schedule was created.
    pub created_at: Timestamp,
    /// Last time this schedule was updated.
    pub updated_at: Timestamp,
}

/// The view of a [`Schedule`].
#[verifier::ext_equal]
pub struct ScheduleView {
    pub schedule_id: Text,
    pub namespace: Text,
    pub spec: ScheduleSpecView,
    pub action: WorkflowActionView,
    pub policy: OverlapPolicy,
    pub created_at: Timestamp,
    pub updated_at: Timestamp,
}

impl DeepView for Schedule {
    type V = ScheduleView;

    open spec fn deep_view(&self) -> ScheduleView {
        ScheduleView {
            schedule_id: self.schedule_id@,
            namespace: self.namespace@,
            spec: self.spec.deep_view(),
            action: self.action.deep_view(),
            policy: self.policy,
            created_at: self.created_at,
            updated_at: self.updated_at,
        }
    }
}

} // verus!
