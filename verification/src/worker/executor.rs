//! Executing tasks: finding the handler, and what is reported of the result.

use vstd::prelude::*;
use vstd::string::*;
use crate::activity::ActivityTask;
use crate::json::{object_text, Json};
use crate::text::{concat2, Text};
use crate::worker::registry::ActivityRegistry;

verus! {

/// What a worker reports of a task.
#[derive(Debug)]
pub enum Report {
    Success { activity_id: String, result_json: String },
    Failure { activity_id: String, error_message: String },
}

/// The view of a [`Report`].
#[verifier::ext_equal]
pub enum ReportView {
    Success { activity_id: Text, result_json: Text },
    Failure { activity_id: Text, error_message: Text },
}

impl DeepView for Report {
    type V = ReportView;

    open spec fn deep_view(&self) -> ReportView {
        match self {
            Report::Success { activity_id, result_json } => ReportView::Success {
                activity_id: activity_id@,
                result_json: result_json@,
            },
            Report::Failure { activity_id, error_message } => ReportView::Failure {
                activity_id: activity_id@,
                error_message: error_message@,
            },
        }
    }
}

/// The handler for a task; where none is registered, the failure that is reported.
pub fn dispatch<'a, H>(registry: &'a ActivityRegistry<H>, task: &ActivityTask) -> (r: Result<
    &'a H,
    Report,
>)
    requires
        registry.wf(),
    ensures
        match r {
            Ok(handler) => registry.registered().contains_key(task.name@) && *handler
                == registry.registered()[task.name@],
            Err(report) => !registry.registered().contains_key(task.name@) && report.deep_view()
                == (ReportView::Failure {
                activity_id: task.activity_id@,
                error_message: "No handler registered for activity: "@ + task.name@,
            }),
        },
{
    match registry.get(task.name.as_str()) {
        Some(handler) => Ok(handler),
        None => Err(
            Report::Failure {
                activity_id: task.activity_id.clone(),
                error_message: concat2("No handler registered for activity: ", task.name.as_str()),
            },
        ),
    }
}

// ---- whitespace -----------------------------------------------------------------------------

/// A character with the Unicode property `White_Space`.
pub open spec fn white_space(c: char) -> bool {
    let n = c as u32;
    ||| 0x9 <= n <= 0xd
    ||| n == 0x20 || n == 0x85 || n == 0xa0 || n == 0x1680
    ||| 0x2000 <= n <= 0x200a
    ||| n == 0x2028 || n == 0x2029 || n == 0x202f || n == 0x205f || n == 0x3000
}

/// Whether a character has the Unicode property `White_Space`.
fn is_whitespace(c: char) -> (r: bool)
    ensures
        r == white_space(c),
{
    let n: u32 = c as u32;
    (0x9 <= n && n <= 0xd) || n == 0x20 || n == 0x85 || n == 0xa0 || n == 0x1680 || (0x2000 <= n
        && n <= 0x200a) || n == 0x2028 || n == 0x2029 || n == 0x202f || n == 0x205f || n == 0x3000
}

/// A text without the whitespace at its start.
pub open spec fn trimmed_start(s: Text) -> Text
    decreases s.len(),
{
    if s.len() > 0 && white_space(s[0]) {
        trimmed_start(s.drop_first())
    } else {
        s
    }
}

/// A text without the whitespace at its end.
pub open spec fn trimmed_end(s: Text) -> Text
    decreases s.len(),
{
    if s.len() > 0 && white_space(s.last()) {
        trimmed_end(s.drop_last())
    } else {
        s
    }
}

/// A text without the whitespace at its start and its end.
pub open spec fn trimmed(s: Text) -> Text {
    trimmed_end(trimmed_start(s))
}

/// Takes the whitespace off the start and the end of a text.
pub fn trim(s: &str) -> (r: String)
    ensures
        r@ == trimmed(s@),
{
    let n: usize = s.unicode_len();
    let mut from: usize = 0;
    proof {
        assert(s@.skip(0) =~= s@);
    }
    while from < n && is_whitespace(s.get_char(from))
        invariant
            from <= n,
            n == s@.len(),
            trimmed_start(s@) == trimmed_start(s@.skip(from as int)),
        decreases n - from,
    {
        proof {
            assert(s@.skip(from as int)[0] == s@[from as int]);
            assert(s@.skip(from as int).drop_first() =~= s@.skip(from + 1));
        }
        from += 1;
    }
    proof {
        if from < n {
            assert(s@.skip(from as int)[0] == s@[from as int]);
        }
        assert(trimmed_start(s@) == s@.skip(from as int));
        assert(s@.skip(from as int) =~= s@.subrange(from as int, n as int));
    }
    let mut to: usize = n;
    while to > from && is_whitespace(s.get_char(to - 1))
        invariant
            from <= to <= n,
            n == s@.len(),
            trimmed(s@) == trimmed_end(s@.subrange(from as int, to as int)),
        decreases to - from,
    {
        proof {
            let part = s@.subrange(from as int, to as int);
            assert(part.last() == s@[to - 1]);
            assert(part.drop_last() =~= s@.subrange(from as int, to - 1));
        }
        to -= 1;
    }
    proof {
        if to > from {
            assert(s@.subrange(from as int, to as int).last() == s@[to - 1]);
        }
    }
    s.substring_char(from, to).to_owned()
}

// ---- reports --------------------------------------------------------------------------------

/// What is reported of the result of a handler: its output without surrounding whitespace in a
/// JSON object, or the message of its failure.
pub open spec fn outcome_reported(activity_id: Text, result: Result<Text, Text>) -> ReportView {
    match result {
        Ok(output) => ReportView::Success {
            activity_id,
            result_json: object_text(seq![("stdout"@, trimmed(output))]),
        },
        Err(error_message) => ReportView::Failure { activity_id, error_message },
    }
}

/// What is reported of the result of a handler.
pub fn report_outcome(activity_id: &str, result: Result<String, String>) -> (r: Report)
    ensures
        r.deep_view() == outcome_reported(activity_id@, crate::text::outcome(result)),
{
    match result {
        Ok(output) => {
            let mut entries: Vec<(String, String)> = Vec::new();
            entries.push(("stdout".to_owned(), trim(output.as_str())));
            proof {
                assert(entries.deep_view() =~= seq![("stdout"@, trimmed(output@))]);
            }
            Report::Success {
                activity_id: activity_id.to_owned(),
                result_json: Json::object(&entries).to_text(),
            }
        },
        Err(error_message) => Report::Failure {
            activity_id: activity_id.to_owned(),
            error_message,
        },
    }
}

} // verus!
