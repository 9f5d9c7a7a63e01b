//! ScheduleService: create, update, delete and list schedules.

use vstd::prelude::*;
use vstd::string::*;
use crate::clock::{clock_shows, format_datetime, time_text, utc_now, Timestamp};
use crate::db;
use crate::db::rows::{lemma_with_key, Database, Store};
use crate::db::schedules::{insert_schedule_at, kept, schedule_deleted, schedule_found, schedule_record, schedule_row_inserted, schedule_rows_listed, schedule_spec_updated, schedules_in, update_schedule_spec_at};
use crate::engine::{EngineEvent, EngineEventView};
use crate::json::{copy_entries, Entries};
use crate::schedule::{Interval, OverlapPolicy, Schedule, ScheduleSpec, ScheduleSpecView, ScheduleView, Timeouts, WorkflowAction, WorkflowActionView};
use crate::service::status::{internal, invalid, name_or_default, not_found, or_default, reply, Status, StatusView};
use crate::text::{concat2, copy_texts, text_eq, Text};

verus! {

// ---- messages -------------------------------------------------------------------------------

/// The trigger of a schedule, as a message carries it.
#[derive(Debug)]
pub struct SpecMessage {
    pub spec_type: String,
    pub cron_expressions: Vec<String>,
    pub interval_seconds: Option<u64>,
}

/// The view of a [`SpecMessage`].
#[verifier::ext_equal]
pub struct SpecMessageView {
    pub spec_type: Text,
    pub cron_expressions: Seq<Text>,
    pub interval_seconds: Option<u64>,
}

impl DeepView for SpecMessage {
    type V = SpecMessageView;

    open spec fn deep_view(&self) -> SpecMessageView {
        SpecMessageView {
            spec_type: self.spec_type@,
            cron_expressions: self.cron_expressions.deep_view(),
            interval_seconds: self.interval_seconds,
        }
    }
}

/// Timeouts as a message carries them: zero for no limit.
#[derive(Clone, Copy, Debug, PartialEq, Eq, Structural)]
pub struct TimeoutsMessage {
    pub execution_timeout_secs: u64,
    pub run_timeout_secs: u64,
    pub task_timeout_secs: u64,
}

impl DeepView for TimeoutsMessage {
    type V = TimeoutsMessage;

    open spec fn deep_view(&self) -> TimeoutsMessage {
        *self
    }
}

/// What a schedule starts, as a message carries it.
#[derive(Debug)]
pub struct ActionMessage {
    pub workflow_name: String,
    pub args: Vec<(String, String)>,
    pub task_queue: String,
    pub id: String,
    pub timeouts: Option<TimeoutsMessage>,
}

/// The view of an [`ActionMessage`].
#[verifier::ext_equal]
pub struct ActionMessageView {
    pub workflow_name: Text,
    pub args: Entries,
    pub task_queue: Text,
    pub id: Text,
    pub timeouts: Option<TimeoutsMessage>,
}

impl DeepView for ActionMessage {
    type V = ActionMessageView;

    open spec fn deep_view(&self) -> ActionMessageView {
        ActionMessageView {
            workflow_name: self.workflow_name@,
            args: self.args.deep_view(),
            task_queue: self.task_queue@,
            id: self.id@,
            timeouts: self.timeouts,
        }
    }
}

#[derive(Debug)]
pub struct CreateScheduleRequest {
    pub schedule_id: String,
    pub namespace: String,
    pub spec: Option<SpecMessage>,
    pub action: Option<ActionMessage>,
    pub policy: Option<String>,
}

/// The view of a [`CreateScheduleRequest`].
#[verifier::ext_equal]
pub struct CreateScheduleRequestView {
    pub schedule_id: Text,
    pub namespace: Text,
    pub spec: Option<SpecMessageView>,
    pub action: Option<ActionMessageView>,
    pub policy: Option<Text>,
}

impl DeepView for CreateScheduleRequest {
    type V = CreateScheduleRequestView;

    open spec fn deep_view(&self) -> CreateScheduleRequestView {
        CreateScheduleRequestView {
            schedule_id: self.schedule_id@,
            namespace: self.namespace@,
            spec: self.spec.deep_view(),
            action: self.action.deep_view(),
            policy: self.policy.deep_view(),
        }
    }
}

#[derive(Debug)]
pub struct UpdateScheduleRequest {
    pub schedule_id: String,
    pub namespace: String,
    pub spec: Option<SpecMessage>,
}

/// What is told of a schedule.
#[derive(Debug)]
pub struct ScheduleInfo {
    pub schedule_id: String,
    pub namespace: String,
    pub spec: SpecMessage,
    pub action: ActionMessage,
    pub policy: String,
    pub created_at: String,
}

/// The view of a [`ScheduleInfo`].
#[verifier::ext_equal]
pub struct ScheduleInfoView {
    pub schedule_id: Text,
    pub namespace: Text,
    pub spec: SpecMessageView,
    pub action: ActionMessageView,
    pub policy: Text,
    pub created_at: Text,
}

impl DeepView for ScheduleInfo {
    type V = ScheduleInfoView;

    open spec fn deep_view(&self) -> ScheduleInfoView {
        ScheduleInfoView {
            schedule_id: self.schedule_id@,
            namespace: self.namespace@,
            spec: self.spec.deep_view(),
            action: self.action.deep_view(),
            policy: self.policy@,
            created_at: self.created_at@,
        }
    }
}

// ---- from messages --------------------------------------------------------------------------

/// The trigger in a message, or the refusal of it.
pub open spec fn spec_from(m: SpecMessageView) -> Result<ScheduleSpecView, StatusView> {
    if m.spec_type == "cron"@ {
        Ok(ScheduleSpecView::Cron(m.cron_expressions))
    } else if m.spec_type == "interval"@ {
        match m.interval_seconds {
            Some(secs) => Ok(ScheduleSpecView::Interval(Interval { secs, nanos: 0 })),
            None => Err(invalid("interval seconds required for interval spec"@)),
        }
    } else {
        Err(invalid("unknown spec_type: "@ + m.spec_type))
    }
}

/// The overlap policy in a message, or the refusal of it. No policy means to skip.
pub open spec fn policy_from(policy: Option<Text>) -> Result<OverlapPolicy, StatusView> {
    let word = match policy {
        Some(word) => word,
        None => Seq::empty(),
    };
    if word == "skip"@ || word.len() == 0 {
        Ok(OverlapPolicy::Skip)
    } else if word == "buffer"@ {
        Ok(OverlapPolicy::Buffer(1))
    } else if word == "terminate"@ {
        Ok(OverlapPolicy::TerminateExisting)
    } else {
        Err(invalid("unknown policy: "@ + word))
    }
}

/// A limit, where the number is not zero.
pub open spec fn limit(secs: u64) -> Option<u64> {
    if secs == 0 {
        None
    } else {
        Some(secs)
    }
}

/// The timeouts in a message.
pub open spec fn timeouts_from(t: Option<TimeoutsMessage>) -> Timeouts {
    match t {
        Some(t) => Timeouts {
            execution_timeout_secs: limit(t.execution_timeout_secs),
            run_timeout_secs: limit(t.run_timeout_secs),
            task_timeout_secs: limit(t.task_timeout_secs),
        },
        None => Timeouts::unlimited(),
    }
}

fn to_limit(secs: u64) -> (r: Option<u64>)
    ensures
        r == limit(secs),
{
    if secs == 0 {
        None
    } else {
        Some(secs)
    }
}

pub(crate) fn read_timeouts(t: &Option<TimeoutsMessage>) -> (r: Timeouts)
    ensures
        r == timeouts_from(*t),
{
    match t {
        Some(t) => Timeouts {
            execution_timeout_secs: to_limit(t.execution_timeout_secs),
            run_timeout_secs: to_limit(t.run_timeout_secs),
            task_timeout_secs: to_limit(t.task_timeout_secs),
        },
        None => Timeouts::default(),
    }
}

fn read_spec_message(m: SpecMessage) -> (r: Result<ScheduleSpec, Status>)
    ensures
        reply(r) == spec_from(m.deep_view()),
{
    if text_eq(m.spec_type.as_str(), "cron") {
        Ok(ScheduleSpec::Cron(m.cron_expressions))
    } else if text_eq(m.spec_type.as_str(), "interval") {
        match m.interval_seconds {
            Some(secs) => Ok(ScheduleSpec::Interval(Interval { secs, nanos: 0 })),
            None => Err(Status::invalid_argument("interval seconds required for interval spec")),
        }
    } else {
        let message: String = concat2("unknown spec_type: ", m.spec_type.as_str());
        Err(Status::invalid_argument(message.as_str()))
    }
}

fn read_policy(policy: &Option<String>) -> (r: Result<OverlapPolicy, Status>)
    ensures
        reply(r) == policy_from(policy.deep_view()),
{
    match policy {
        None => Ok(OverlapPolicy::Skip),
        Some(word) => {
            let word: &str = word.as_str();
            if word.is_empty() || text_eq(word, "skip") {
                Ok(OverlapPolicy::Skip)
            } else if text_eq(word, "buffer") {
                Ok(OverlapPolicy::Buffer(1))
            } else if text_eq(word, "terminate") {
                Ok(OverlapPolicy::TerminateExisting)
            } else {
                let message: String = concat2("unknown policy: ", word);
                Err(Status::invalid_argument(message.as_str()))
            }
        },
    }
}

// ---- create ---------------------------------------------------------------------------------

/// The schedule that a request asks for, or the refusal of it.
pub open spec fn schedule_asked(req: CreateScheduleRequestView, now: Timestamp) -> Result<
    ScheduleView,
    StatusView,
> {
    match (req.spec, req.action) {
        (None, _) => Err(invalid("spec is required"@)),
        (Some(_), None) => Err(invalid("action is required"@)),
        (Some(spec), Some(action)) => match spec_from(spec) {
            Err(e) => Err(e),
            Ok(spec) => match policy_from(req.policy) {
                Err(e) => Err(e),
                Ok(policy) => Ok(
                    ScheduleView {
                        schedule_id: req.schedule_id,
                        namespace: req.namespace,
                        spec,
                        action: WorkflowActionView {
                            workflow_name: action.workflow_name,
                            args: action.args,
                            task_queue: action.task_queue,
                            id: action.id,
                            timeouts: timeouts_from(action.timeouts),
                        },
                        policy,
                        created_at: now,
                        updated_at: now,
                    },
                ),
            },
        },
    }
}

/// The tables after a request to create a schedule, and the reply: the ID of the schedule, with
/// the engine told that schedules changed.
pub open spec fn schedule_created(s: Store, req: CreateScheduleRequestView, now: Timestamp) -> (
    Store,
    Result<(Text, EngineEventView), StatusView>,
) {
    match schedule_asked(req, now) {
        Err(e) => (s, Err(e)),
        Ok(schedule) => {
            let (after, r) = schedule_row_inserted(s, schedule_record(schedule, now));
            match r {
                Ok(_) => (after, Ok((req.schedule_id, EngineEventView::ScheduleChange))),
                Err(e) => (after, Err(internal("Failed to create schedule: "@ + e))),
            }
        },
    }
}

/// The schedule that a request asked for is found under its ID, as far as it is kept.
pub open spec fn created_reads_back(
    after: Store,
    req: CreateScheduleRequestView,
    now: Timestamp,
) -> bool {
    schedule_asked(req, now) matches Ok(schedule) && schedule_found(after, req.schedule_id) == Ok::<
        Option<ScheduleView>,
        Text,
    >(Some(kept(schedule, now)))
}

/// Creates a schedule at `now`. It is then found under its ID, as far as it is kept.
pub fn create_schedule_at(db: &mut Database, req: CreateScheduleRequest, now: &Timestamp) -> (r:
    Result<(String, EngineEvent), Status>)
    ensures
        (final(db).deep_view(), reply(r)) == schedule_created(
            old(db).deep_view(),
            req.deep_view(),
            *now,
        ),
        r is Ok ==> created_reads_back(final(db).deep_view(), req.deep_view(), *now),
{
    let spec: SpecMessage = match req.spec {
        Some(spec) => spec,
        None => return Err(Status::invalid_argument("spec is required")),
    };
    let action: ActionMessage = match req.action {
        Some(action) => action,
        None => return Err(Status::invalid_argument("action is required")),
    };
    let spec: ScheduleSpec = match read_spec_message(spec) {
        Ok(spec) => spec,
        Err(e) => return Err(e),
    };
    let policy: OverlapPolicy = match read_policy(&req.policy) {
        Ok(policy) => policy,
        Err(e) => return Err(e),
    };
    let schedule: Schedule = Schedule {
        schedule_id: req.schedule_id.clone(),
        namespace: req.namespace,
        spec,
        action: WorkflowAction {
            workflow_name: action.workflow_name,
            args: action.args,
            task_queue: action.task_queue,
            id: action.id,
            timeouts: read_timeouts(&action.timeouts),
        },
        policy,
        created_at: *now,
        updated_at: *now,
    };
    match insert_schedule_at(db, &schedule, now) {
        Ok(_) => Ok((req.schedule_id, EngineEvent::ScheduleChange)),
        Err(e) => Err(Status::internal("Failed to create schedule: ", e.as_str())),
    }
}

/// Creates a schedule. It is then found under its ID, as far as it is kept.
pub fn create_schedule(db: &mut Database, req: CreateScheduleRequest) -> (r: Result<
    (String, EngineEvent),
    Status,
>)
    ensures
        exists|now: Timestamp|
            clock_shows(now) && (final(db).deep_view(), reply(r)) == #[trigger] schedule_created(
                old(db).deep_view(),
                req.deep_view(),
                now,
            ) && (r is Ok ==> created_reads_back(final(db).deep_view(), req.deep_view(), now)),
{
    let now: Timestamp = utc_now();
    create_schedule_at(db, req, &now)
}

// ---- update ---------------------------------------------------------------------------------

/// The tables after a request to change the trigger of a schedule, and the reply. The schedule is
/// found by its ID; its row changes where it is in the namespace of the request.
pub open spec fn schedule_updated(
    s: Store,
    schedule_id: Text,
    namespace: Text,
    spec: Option<SpecMessageView>,
    now: Timestamp,
) -> (Store, Result<(bool, EngineEventView), StatusView>) {
    match spec {
        None => (s, Err(invalid("spec is required"@))),
        Some(spec) => match schedule_found(s, schedule_id) {
            Err(e) => (s, Err(internal("Failed to get schedule: "@ + e))),
            Ok(None) => (s, Err(not_found("Schedule not found"@))),
            Ok(Some(existing)) => match spec_from(spec) {
                Err(e) => (s, Err(e)),
                Ok(spec) => (
                    schedule_spec_updated(
                        s,
                        schedule_id,
                        namespace,
                        ScheduleView { spec, updated_at: now, ..existing },
                        now,
                    ),
                    Ok((true, EngineEventView::ScheduleChange)),
                ),
            },
        },
    }
}

/// A schedule that was in the namespace of a request is found with the trigger of the request, as far
/// as it is kept, and otherwise as it was.
pub open spec fn updated_reads_back(
    before: Store,
    after: Store,
    schedule_id: Text,
    namespace: Text,
    spec: Option<SpecMessageView>,
    now: Timestamp,
) -> bool {
    match (schedule_found(before, schedule_id), spec) {
        (Ok(Some(existing)), Some(asked)) => match spec_from(asked) {
            Ok(spec) => existing.namespace == namespace ==> schedule_found(after, schedule_id)
                == Ok::<Option<ScheduleView>, Text>(
                Some(
                    ScheduleView {
                        created_at: existing.created_at,
                        ..kept(ScheduleView { spec, ..existing }, now)
                    },
                ),
            ),
            Err(_) => false,
        },
        _ => false,
    }
}

/// Changes the trigger of a schedule at `now`. Where the schedule is in the namespace of the request,
/// it is then found with the new trigger, as far as it is kept, and otherwise as it was.
pub fn update_schedule_at(db: &mut Database, req: UpdateScheduleRequest, now: &Timestamp) -> (r:
    Result<(bool, EngineEvent), Status>)
    ensures
        (final(db).deep_view(), reply(r)) == schedule_updated(
            old(db).deep_view(),
            req.schedule_id@,
            req.namespace@,
            req.spec.deep_view(),
            *now,
        ),
        r is Ok ==> updated_reads_back(
            old(db).deep_view(),
            final(db).deep_view(),
            req.schedule_id@,
            req.namespace@,
            req.spec.deep_view(),
            *now,
        ),
{
    let spec: SpecMessage = match req.spec {
        Some(spec) => spec,
        None => return Err(Status::invalid_argument("spec is required")),
    };
    let mut updated: Schedule = match db::schedules::get_schedule(db, req.schedule_id.as_str()) {
        Err(e) => return Err(Status::internal("Failed to get schedule: ", e.as_str())),
        Ok(None) => return Err(Status::not_found("Schedule not found")),
        Ok(Some(existing)) => existing,
    };
    updated.spec = match read_spec_message(spec) {
        Ok(spec) => spec,
        Err(e) => return Err(e),
    };
    updated.updated_at = *now;
    proof {
        let existing = schedule_found(db.deep_view(), req.schedule_id@)->Ok_0->0;
        lemma_with_key(db.schedules.deep_view(), req.schedule_id@);
        assert(updated.deep_view() =~= (ScheduleView {
            spec: updated.spec.deep_view(),
            updated_at: *now,
            ..existing
        }));
        assert(ScheduleView {
            schedule_id: req.schedule_id@,
            namespace: existing.namespace,
            created_at: existing.created_at,
            ..kept(updated.deep_view(), *now)
        } =~= (ScheduleView {
            created_at: existing.created_at,
            ..kept(ScheduleView { spec: updated.spec.deep_view(), ..existing }, *now)
        }));
    }
    match update_schedule_spec_at(
        db,
        req.schedule_id.as_str(),
        req.namespace.as_str(),
        &updated,
        now,
    ) {
        Ok(_) => Ok((true, EngineEvent::ScheduleChange)),
        Err(e) => Err(Status::internal("Failed to update schedule: ", e.as_str())),
    }
}

/// Changes the trigger of a schedule. Where the schedule is in the namespace of the request, it is
/// then found with the new trigger, as far as it is kept, and otherwise as it was.
pub fn update_schedule(db: &mut Database, req: UpdateScheduleRequest) -> (r: Result<
    (bool, EngineEvent),
    Status,
>)
    ensures
        exists|now: Timestamp|
            clock_shows(now) && (final(db).deep_view(), reply(r)) == #[trigger] schedule_updated(
                old(db).deep_view(),
                req.schedule_id@,
                req.namespace@,
                req.spec.deep_view(),
                now,
            ) && (r is Ok ==> updated_reads_back(
                old(db).deep_view(),
                final(db).deep_view(),
                req.schedule_id@,
                req.namespace@,
                req.spec.deep_view(),
                now,
            )),
{
    let now: Timestamp = utc_now();
    update_schedule_at(db, req, &now)
}

// ---- delete ---------------------------------------------------------------------------------

/// Deletes a schedule in a namespace; tells whether there was one, and the engine that schedules
/// changed.
pub fn delete_schedule(db: &mut Database, schedule_id: &str, namespace: &str) -> (r: Result<
    (bool, EngineEvent),
    Status,
>)
    ensures
        final(db).deep_view() == schedule_deleted(old(db).deep_view(), schedule_id@, namespace@),
        reply(r) == Ok::<(bool, EngineEventView), StatusView>(
            (
                final(db).deep_view().schedules.len() < old(db).deep_view().schedules.len(),
                EngineEventView::ScheduleChange,
            ),
        ),
{
    match db::schedules::delete_schedule(db, schedule_id, namespace) {
        Ok(rows) => Ok((rows > 0, EngineEvent::ScheduleChange)),
        Err(e) => Err(Status::internal("Failed to delete schedule: ", e.as_str())),
    }
}

// ---- list -----------------------------------------------------------------------------------

/// A trigger as a message.
pub open spec fn spec_message(spec: ScheduleSpecView) -> SpecMessageView {
    match spec {
        ScheduleSpecView::Cron(expressions) => SpecMessageView {
            spec_type: "cron"@,
            cron_expressions: expressions,
            interval_seconds: None,
        },
        ScheduleSpecView::Interval(interval) => SpecMessageView {
            spec_type: "interval"@,
            cron_expressions: Seq::empty(),
            interval_seconds: Some(interval.secs),
        },
    }
}

/// A limit as a number, zero for none.
pub open spec fn limit_number(t: Option<u64>) -> u64 {
    match t {
        Some(secs) => secs,
        None => 0,
    }
}

/// What a schedule starts, as a message.
pub open spec fn action_message(action: WorkflowActionView) -> ActionMessageView {
    ActionMessageView {
        workflow_name: action.workflow_name,
        args: action.args,
        task_queue: action.task_queue,
        id: action.id,
        timeouts: Some(
            TimeoutsMessage {
                execution_timeout_secs: limit_number(action.timeouts.execution_timeout_secs),
                run_timeout_secs: limit_number(action.timeouts.run_timeout_secs),
                task_timeout_secs: limit_number(action.timeouts.task_timeout_secs),
            },
        ),
    }
}

/// An overlap policy as a word.
pub open spec fn policy_word(policy: OverlapPolicy) -> Text {
    match policy {
        OverlapPolicy::Skip => "skip"@,
        OverlapPolicy::Buffer(_) => "buffer"@,
        OverlapPolicy::TerminateExisting => "terminate"@,
    }
}

/// What is told of a schedule.
pub open spec fn schedule_info(schedule: ScheduleView) -> ScheduleInfoView {
    ScheduleInfoView {
        schedule_id: schedule.schedule_id,
        namespace: schedule.namespace,
        spec: spec_message(schedule.spec),
        action: action_message(schedule.action),
        policy: policy_word(schedule.policy),
        created_at: time_text(schedule.created_at),
    }
}

/// A trigger as a message.
pub fn schedule_spec_to_proto(spec: &ScheduleSpec) -> (r: SpecMessage)
    ensures
        r.deep_view() == spec_message(spec.deep_view()),
{
    match spec {
        ScheduleSpec::Cron(expressions) => SpecMessage {
            spec_type: "cron".to_owned(),
            cron_expressions: copy_texts(expressions),
            interval_seconds: None,
        },
        ScheduleSpec::Interval(interval) => {
            let none: Vec<String> = Vec::new();
            proof {
                assert(none.deep_view() =~= Seq::empty());
            }
            SpecMessage {
                spec_type: "interval".to_owned(),
                cron_expressions: none,
                interval_seconds: Some(interval.secs),
            }
        },
    }
}

/// What a schedule starts, as a message.
pub fn workflow_action_to_proto(action: &WorkflowAction) -> (r: ActionMessage)
    ensures
        r.deep_view() == action_message(action.deep_view()),
{
    ActionMessage {
        workflow_name: action.workflow_name.clone(),
        args: copy_entries(&action.args),
        task_queue: action.task_queue.clone(),
        id: action.id.clone(),
        timeouts: Some(
            TimeoutsMessage {
                execution_timeout_secs: action.timeouts.execution_timeout_secs.unwrap_or(0),
                run_timeout_secs: action.timeouts.run_timeout_secs.unwrap_or(0),
                task_timeout_secs: action.timeouts.task_timeout_secs.unwrap_or(0),
            },
        ),
    }
}

/// An overlap policy as a word.
pub fn overlap_policy_to_proto(policy: &OverlapPolicy) -> (r: String)
    ensures
        r@ == policy_word(*policy),
{
    match policy {
        OverlapPolicy::Skip => "skip".to_owned(),
        OverlapPolicy::Buffer(_) => "buffer".to_owned(),
        OverlapPolicy::TerminateExisting => "terminate".to_owned(),
    }
}

/// What is told of a schedule.
pub fn schedule_to_info(schedule: &Schedule) -> (r: ScheduleInfo)
    ensures
        r.deep_view() == schedule_info(schedule.deep_view()),
{
    ScheduleInfo {
        schedule_id: schedule.schedule_id.clone(),
        namespace: schedule.namespace.clone(),
        spec: schedule_spec_to_proto(&schedule.spec),
        action: workflow_action_to_proto(&schedule.action),
        policy: overlap_policy_to_proto(&schedule.policy),
        created_at: format_datetime(&schedule.created_at),
    }
}

/// The reply to a request to list the schedules of a namespace, `default` where none is given.
pub open spec fn schedules_told(s: Store, namespace: Text) -> Result<Seq<ScheduleInfoView>, StatusView> {
    match schedules_in(schedule_rows_listed(s.schedules, or_default(namespace))) {
        Ok(list) => Ok(list.map_values(|schedule: ScheduleView| schedule_info(schedule))),
        Err(e) => Err(internal("Failed to list schedules: "@ + e)),
    }
}

/// Lists the schedules of a namespace.
pub fn list_schedules(db: &Database, namespace: &str) -> (r: Result<Vec<ScheduleInfo>, Status>)
    ensures
        reply(r) == schedules_told(db.deep_view(), namespace@),
{
    let namespace: String = name_or_default(namespace);
    let list: Vec<Schedule> = match db::schedules::list_schedules(db, namespace.as_str()) {
        Ok(list) => list,
        Err(e) => return Err(Status::internal("Failed to list schedules: ", e.as_str())),
    };
    let ghost all = list.deep_view();
    let mut out: Vec<ScheduleInfo> = Vec::new();
    let mut i: usize = 0;
    while i < list.len()
        invariant
            i <= list@.len(),
            all == list.deep_view(),
            out@.len() == i,
            forall|j: int|
                0 <= j < i ==> (#[trigger] out@[j]).deep_view() == schedule_info(all[j]),
        decreases list@.len() - i,
    {
        out.push(schedule_to_info(&list[i]));
        i += 1;
    }
    proof {
        assert(out.deep_view() =~= all.map_values(
            |schedule: ScheduleView| schedule_info(schedule),
        ));
    }
    Ok(out)
}

} // verus!
