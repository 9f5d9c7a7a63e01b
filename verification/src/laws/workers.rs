//! What a worker makes of its handlers, of the programs that it runs and of its polls.

use vstd::prelude::*;
use crate::clock::Timestamp;
use crate::json::{by_key, json_object_text};
use crate::activity::ActivityTaskView;
use crate::db::rows::{lemma_with_key_changed, with_key};
use crate::task_queue::{beaten_at, handles, registered, worker_at, WorkerView};
use crate::text::{decimal, Text};
use crate::worker::config::{default_handler, handlers_added, script_handler, BuiltinHandler, BuiltinView};
use crate::worker::executor::{outcome_reported, trimmed, trimmed_end, trimmed_start, white_space, ReportView};
use crate::worker::handler::{ActivityHandler, program_result, DummyHandler, PlanView, PythonHandler, ScriptHandler};
use crate::worker::poller::{after_poll, poll_action, PollAction, PollOutcome, PollerState};

verus! {

// ---- handlers -------------------------------------------------------------------------------

/// A handler for a script runs `bash` with the script's path, one for a Python script runs `python3`
/// with it, each in its directory and whatever the task; the dummy handler runs nothing, and answers
/// with the name of the activity.
pub proof fn law_plans(
    script: ScriptHandler,
    python: PythonHandler,
    dummy: DummyHandler,
    task: ActivityTaskView,
)
    ensures
        script.planned(task) matches PlanView::Run { program, args, workdir } && program == "bash"@
            && args.len() == 2 && args[0] == "-c"@ && args[1] == script.script_path@ && workdir
            == script.workdir@,
        python.planned(task) matches PlanView::Run { program, args, workdir } && program
            == "python3"@ && args.len() == 1 && args[0] == python.script_path@ && workdir
            == python.workdir@,
        dummy.planned(task) matches PlanView::Done { output } && output
            == "Dummy result for activity "@ + task.name,
{
}

/// The path of a script, by the name of its activity.
pub open spec fn script_path(name: Text) -> Option<Text> {
    if name == "lycus-arxiv-factory"@ {
        Some("/scripts/arxiv_factory"@)
    } else if name == "lycus-searxng-error-reactive"@ {
        Some("/scripts/searxng_error_check"@)
    } else if name == "lycus-searxng-healthcheck"@ {
        Some("/scripts/searxng_health_check"@)
    } else if name == "lycus-cron-notifier"@ {
        Some("/scripts/cron_notifier"@)
    } else {
        None
    }
}

/// The path of a Python script, by the name of its activity.
pub open spec fn python_path(name: Text) -> Option<Text> {
    if name == "lycus-mathlab-agent"@ {
        Some("/Documents/AI_researched_math/mathLaboratory/laboratory_agent"@)
    } else if name == "lycus-mathnexus-extract"@ {
        Some("/Documents/AI_researched_math/mathNEXUS/extract_mindmap"@)
    } else if name == "lycus-memory-condenser"@ {
        Some("/scripts/memory_condenser"@)
    } else {
        None
    }
}

proof fn lemma_names()
    ensures
        "lycus-mathlab-agent"@.len() == 19,
        "lycus-mathnexus-extract"@.len() == 23,
        "lycus-memory-condenser"@.len() == 22,
        "lycus-arxiv-factory"@.len() == 19,
        "lycus-searxng-error-reactive"@.len() == 28,
        "lycus-searxng-healthcheck"@.len() == 25,
        "lycus-cron-notifier"@.len() == 19,
        "dummy-activity"@.len() == 14,
        "lycus-mathlab-agent"@[6] == 'm',
        "lycus-arxiv-factory"@[6] == 'a',
        "lycus-cron-notifier"@[6] == 'c',
{
    reveal_strlit("lycus-mathlab-agent");
    reveal_strlit("lycus-mathnexus-extract");
    reveal_strlit("lycus-memory-condenser");
    reveal_strlit("lycus-arxiv-factory");
    reveal_strlit("lycus-searxng-error-reactive");
    reveal_strlit("lycus-searxng-healthcheck");
    reveal_strlit("lycus-cron-notifier");
    reveal_strlit("dummy-activity");
}

/// The handlers that come with the worker: a script for the activities that have one, in the home
/// directory and with the working directory that is given, and none for any other name. A worker
/// with the home directory as its working directory also has the dummy.
pub proof fn law_handlers(name: Text, home: Text, workdir: Text)
    ensures
        match (script_path(name), python_path(name)) {
            (Some(path), None) => script_handler(name, home, workdir) == Some(
                BuiltinView::Script { script_path: home + path + ".sh"@, workdir },
            ),
            (None, Some(path)) => script_handler(name, home, workdir) == Some(
                BuiltinView::Python { script_path: home + path + ".py"@, workdir },
            ),
            (None, None) => script_handler(name, home, workdir) is None,
            _ => false,
        },
        default_handler("dummy-activity"@, home) == Some(BuiltinView::Dummy),
        name != "dummy-activity"@ ==> default_handler(name, home) == script_handler(
            name,
            home,
            home,
        ),
{
    lemma_names();
}

/// Registering handlers gives each of their names its handler, and leaves every other name as it was.
pub proof fn law_handlers_added(
    before: Map<Text, BuiltinHandler>,
    after: Map<Text, BuiltinHandler>,
    added: spec_fn(Text) -> Option<BuiltinView>,
    name: Text,
)
    requires
        handlers_added(before, after, added),
    ensures
        added(name) matches Some(view) ==> after.contains_key(name) && after[name].deep_view()
            == view,
        added(name) is None ==> (after.contains_key(name) <==> before.contains_key(name)),
        added(name) is None && before.contains_key(name) ==> after[name] == before[name],
{
    assert(after.contains_key(name) || !after.contains_key(name));
}

// ---- programs -------------------------------------------------------------------------------

/// A program that succeeded gives what it wrote, to its standard output or else to its standard
/// error; one that failed gives an error with its exit code and what it wrote to its standard error.
pub proof fn law_program_result(what: Text, code: Option<i32>, stdout: Text, stderr: Text)
    ensures
        stdout.len() > 0 ==> program_result(what, true, code, stdout, stderr) == Ok::<Text, Text>(
            stdout,
        ),
        stdout.len() == 0 ==> program_result(what, true, code, stdout, stderr) == Ok::<Text, Text>(
            stderr,
        ),
        code is None ==> program_result(what, false, code, stdout, stderr) == Err::<Text, Text>(
            what + "None"@ + ": "@ + stderr,
        ),
        code matches Some(n) ==> {
            &&& n >= 0 ==> program_result(what, false, code, stdout, stderr) == Err::<Text, Text>(
                what + ("Some("@ + decimal(n as nat) + ")"@) + ": "@ + stderr,
            )
            &&& n < 0 ==> program_result(what, false, code, stdout, stderr) == Err::<Text, Text>(
                what + ("Some(-"@ + decimal((-n) as nat) + ")"@) + ": "@ + stderr,
            )
        },
{
}

/// Trimming takes away white space at both ends, all of it, and nothing else.
pub proof fn law_trimmed(s: Text) -> (r: (int, int))
    ensures
        0 <= r.0 <= r.1 <= s.len(),
        trimmed(s) == s.subrange(r.0, r.1),
        forall|k: int| 0 <= k < r.0 ==> white_space(#[trigger] s[k]),
        forall|k: int| r.1 <= k < s.len() ==> white_space(#[trigger] s[k]),
        r.0 < r.1 ==> !white_space(s[r.0]) && !white_space(s[r.1 - 1]),
{
    let i = lemma_trimmed_start(s);
    let rest = s.skip(i);
    let j = lemma_trimmed_end(rest);
    assert(rest.take(j) =~= s.subrange(i, i + j));
    assert forall|k: int| i + j <= k < s.len() implies white_space(#[trigger] s[k]) by {
        assert(rest[k - i] == s[k]);
    }
    if j > 0 {
        assert(rest[0] == s[i]);
        assert(rest[j - 1] == s[i + j - 1]);
        assert(i < s.len());
    }
    (i, i + j)
}

proof fn lemma_trimmed_start(s: Text) -> (i: int)
    ensures
        0 <= i <= s.len(),
        trimmed_start(s) == s.skip(i),
        forall|k: int| 0 <= k < i ==> white_space(#[trigger] s[k]),
        i < s.len() ==> !white_space(s[i]),
    decreases s.len(),
{
    if s.len() > 0 && white_space(s[0]) {
        let rest = s.drop_first();
        let i = lemma_trimmed_start(rest);
        assert(rest.skip(i) =~= s.skip(i + 1));
        assert forall|k: int| 0 <= k < i + 1 implies white_space(#[trigger] s[k]) by {
            if k > 0 {
                assert(rest[k - 1] == s[k]);
            }
        }
        if i < rest.len() {
            assert(rest[i] == s[i + 1]);
        }
        i + 1
    } else {
        assert(s.skip(0) =~= s);
        0
    }
}

proof fn lemma_trimmed_end(s: Text) -> (j: int)
    ensures
        0 <= j <= s.len(),
        trimmed_end(s) == s.take(j),
        forall|k: int| j <= k < s.len() ==> white_space(#[trigger] s[k]),
        j > 0 ==> !white_space(s[j - 1]),
    decreases s.len(),
{
    if s.len() > 0 && white_space(s.last()) {
        let front = s.drop_last();
        let j = lemma_trimmed_end(front);
        assert(front.take(j) =~= s.take(j));
        assert forall|k: int| j <= k < s.len() implies white_space(#[trigger] s[k]) by {
            if k < front.len() {
                assert(front[k] == s[k]);
            } else {
                assert(s[k] == s.last());
            }
        }
        j
    } else {
        assert(s.take(s.len() as int) =~= s);
        s.len() as int
    }
}

/// The space, the tab and the line ends are white space, as are the spaces and separators beyond
/// ASCII; no other printable ASCII character is, and no character from the letters of Latin scripts
/// to Greek, or behind the ideographic space.
pub proof fn law_white_space(c: char)
    ensures
        c == ' ' || c == '\t' || c == '\n' || c == '\r' ==> white_space(c),
        c == '\u{b}' || c == '\u{c}' || c == '\u{85}' || c == '\u{a0}' ==> white_space(c),
        c == '\u{1680}' || c == '\u{2028}' || c == '\u{2029}' || c == '\u{202f}' || c
            == '\u{205f}' || c == '\u{3000}' ==> white_space(c),
        '\u{2000}' <= c && c <= '\u{200a}' ==> white_space(c),
        '!' <= c && c <= '~' ==> !white_space(c),
        '\u{a1}' <= c && c <= '\u{3ff}' ==> !white_space(c),
        '\u{3000}' < c ==> !white_space(c),
{
}

/// What is reported of an attempt names the attempt: a success with what was written, trimmed, under
/// `stdout`; a failure with its message.
pub proof fn law_outcome_reported(activity_id: Text, output: Text, message: Text)
    ensures
        outcome_reported(activity_id, Ok(output)) == (ReportView::Success {
            activity_id,
            result_json: json_object_text(by_key(seq![("stdout"@, trimmed(output))])),
        }),
        outcome_reported(activity_id, Err(message)) == (ReportView::Failure {
            activity_id,
            error_message: message,
        }),
{
}

// ---- polls ----------------------------------------------------------------------------------

/// After a poll that was answered the poller is connected, and hands a task on or polls again. After
/// one that failed it is not connected, and backs off as long as it has failed in a row: the first
/// failure after a success is the first attempt, and each further one counts up.
pub proof fn law_polls(s: PollerState, outcome: PollOutcome)
    requires
        s.reconnect_attempt < u32::MAX,
    ensures
        ({
            let after = after_poll(s, outcome);
            &&& after.connection is Connected <==> !(outcome is Error)
            &&& !(outcome is Error) ==> after.reconnect_attempt == 0
            &&& outcome is Task ==> poll_action(s, outcome) is Forward
            &&& outcome is Empty ==> poll_action(s, outcome) is Again
            &&& outcome is Error ==> poll_action(s, outcome) == PollAction::BackOff(
                after.reconnect_attempt,
            )
            &&& outcome is Error && s.connection is Connected ==> after.reconnect_attempt == 1
            &&& outcome is Error && !(s.connection is Connected) ==> after.reconnect_attempt
                == s.reconnect_attempt + 1
        }),
{
}

// ---- registered workers ---------------------------------------------------------------------

/// A worker that is registered has the types and the time that it was registered with, and handles
/// exactly those types; a heartbeat sets its time, and changes nothing else of it and no other
/// worker.
pub proof fn law_workers(
    workers: Seq<WorkerView>,
    worker_id: Text,
    types: Seq<Text>,
    now: Timestamp,
    later: Timestamp,
    name: Text,
    other: Text,
)
    ensures
        ({
            let all = registered(workers, worker_at(worker_id, types, now));
            let beaten = beaten_at(all, worker_id, later);
            &&& with_key(all, worker_id) matches Some(w) && w.worker_id == worker_id
                && w.activity_types == types && w.last_heartbeat == now && (handles(w, name)
                <==> exists|i: int| 0 <= i < types.len() && #[trigger] types[i] == name)
            &&& with_key(beaten, worker_id) matches Some(w) && w.worker_id == worker_id
                && w.activity_types == types && w.last_heartbeat == later
            &&& other != worker_id ==> with_key(beaten, other) == with_key(workers, other)
        }),
{
    let all = registered(workers, worker_at(worker_id, types, now));
    crate::task_queue::law_registered_is_found(workers, worker_at(worker_id, types, now), other);
    let change = |w: WorkerView| WorkerView { last_heartbeat: later, ..w };
    lemma_with_key_changed(all, worker_id, change, worker_id);
    lemma_with_key_changed(all, worker_id, change, other);
}

} // verus!
