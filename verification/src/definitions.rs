//! Built-in workflow definitions: which activities a workflow name stands for.

use vstd::prelude::*;
use vstd::string::*;
use crate::activity::RetryPolicy;
use crate::seconds::Seconds;
use crate::text::{push_char, text_eq, Text};
use crate::workflow::{ActivityStep, ActivityStepView};

verus! {

/// Whether `std` counts a character as upper case.
pub uninterp spec fn char_upper(c: char) -> bool;

/// The first character of what `std` writes for a character in lower case.
pub uninterp spec fn char_lower(c: char) -> Option<char>;

/// An ASCII character.
pub open spec fn ascii(c: char) -> bool {
    (c as u32) < 128
}

/// An upper-case ASCII letter.
pub open spec fn ascii_upper(c: char) -> bool {
    'A' <= c && c <= 'Z'
}

/// An ASCII character in lower case.
pub open spec fn ascii_lowered(c: char) -> char {
    if ascii_upper(c) {
        ((c as u8) + 32) as u8 as char
    } else {
        c
    }
}

/// `char::is_uppercase`: of ASCII characters the letters from `A` to `Z`. Of others the result is
/// only named.
#[verifier::external_body]
pub(crate) fn is_upper(c: char) -> (r: bool)
    ensures
        r == char_upper(c),
        ascii(c) ==> r == ascii_upper(c),
{
    c.is_uppercase()
}

/// `char::to_lowercase`, and the first character of what it gives: of ASCII characters the letters
/// from `A` to `Z` give the small letter, and others themselves. Of other characters the result is
/// only named.
#[verifier::external_body]
pub(crate) fn to_lower(c: char) -> (r: Option<char>)
    ensures
        r == char_lower(c),
        ascii(c) ==> r == Some(ascii_lowered(c)),
{
    c.to_lowercase().next()
}

/// An upper-case character.
pub open spec fn upper(c: char) -> bool {
    if ascii(c) {
        ascii_upper(c)
    } else {
        char_upper(c)
    }
}

/// A character in lower case; itself where there is none.
pub open spec fn lowered(c: char) -> char {
    if ascii(c) {
        ascii_lowered(c)
    } else {
        match char_lower(c) {
            Some(l) => l,
            None => c,
        }
    }
}

/// A name in snake case: every character in lower case, with an underscore before each upper-case
/// character but the first of the name.
pub open spec fn snake_case(name: Text) -> Text
    decreases name.len(),
{
    if name.len() == 0 {
        Seq::empty()
    } else {
        let front = snake_case(name.drop_last());
        let c = name.last();
        if upper(c) && name.len() > 1 {
            front.push('_').push(lowered(c))
        } else {
            front.push(lowered(c))
        }
    }
}

/// Writes a name in snake case.
pub fn normalize_name(name: &str) -> (r: String)
    ensures
        r@ == snake_case(name@),
{
    let n: usize = name.unicode_len();
    let mut out: String = String::new();
    let mut i: usize = 0;
    proof {
        assert(name@.take(0) =~= Seq::empty());
    }
    while i < n
        invariant
            i <= n,
            n == name@.len(),
            out@ == snake_case(name@.take(i as int)),
        decreases n - i,
    {
        let c: char = name.get_char(i);
        proof {
            assert(name@.take(i + 1).drop_last() =~= name@.take(i as int));
            assert(name@.take(i + 1).last() == c);
        }
        if is_upper(c) && i > 0 {
            push_char(&mut out, '_');
        }
        let l: char = match to_lower(c) {
            Some(l) => l,
            None => c,
        };
        push_char(&mut out, l);
        i += 1;
    }
    proof {
        assert(name@.take(n as int) =~= name@);
    }
    out
}

/// A name of ASCII characters without upper-case letters is in snake case already; and the snake
/// case of a name of ASCII characters is such a name, so that writing it in snake case once more
/// changes nothing.
pub proof fn law_snake_case_settles(name: Text)
    requires
        forall|i: int| 0 <= i < name.len() ==> ascii(#[trigger] name[i]),
    ensures
        forall|i: int|
            0 <= i < snake_case(name).len() ==> {
                let c = #[trigger] snake_case(name)[i];
                ascii(c) && !ascii_upper(c)
            },
        (forall|i: int| 0 <= i < name.len() ==> !ascii_upper(#[trigger] name[i])) ==> snake_case(
            name,
        ) == name,
        snake_case(snake_case(name)) == snake_case(name),
{
    lemma_snake_case(name);
    lemma_snake_case(snake_case(name));
}

proof fn lemma_snake_case(name: Text)
    requires
        forall|i: int| 0 <= i < name.len() ==> ascii(#[trigger] name[i]),
    ensures
        forall|i: int|
            0 <= i < snake_case(name).len() ==> {
                let c = #[trigger] snake_case(name)[i];
                ascii(c) && !ascii_upper(c)
            },
        (forall|i: int| 0 <= i < name.len() ==> !ascii_upper(#[trigger] name[i])) ==> snake_case(
            name,
        ) == name,
    decreases name.len(),
{
    if name.len() > 0 {
        let front = name.drop_last();
        assert forall|i: int| 0 <= i < front.len() implies ascii(#[trigger] front[i]) by {
            assert(front[i] == name[i]);
        }
        lemma_snake_case(front);
        let c = name.last();
        let l = lowered(c);
        assert(ascii(name[name.len() - 1]));
        assert(ascii('_') && !ascii_upper('_'));
        assert(ascii(l) && !ascii_upper(l));
        let done = snake_case(front);
        assert forall|i: int| 0 <= i < snake_case(name).len() implies {
            let c = #[trigger] snake_case(name)[i];
            ascii(c) && !ascii_upper(c)
        } by {
            if i < done.len() {
                assert(snake_case(name)[i] == done[i]);
            }
        }
        if forall|i: int| 0 <= i < name.len() ==> !ascii_upper(#[trigger] name[i]) {
            assert forall|i: int| 0 <= i < front.len() implies !ascii_upper(
                #[trigger] front[i],
            ) by {
                assert(front[i] == name[i]);
            }
            assert(!ascii_upper(name[name.len() - 1]));
            assert(front.push(name.last()) =~= name);
        }
    } else {
        assert(name =~= Seq::empty());
    }
}

/// One second, as a double-precision number.
pub const ONE_SECOND: u64 = 0x3FF0_0000_0000_0000;

/// Two seconds, as a double-precision number.
pub const TWO_SECONDS: u64 = 0x4000_0000_0000_0000;

/// A step without argument template.
pub open spec fn plain_step(
    activity_name: Text,
    maximum_attempts: u32,
    interval_bits: u64,
    timeout_secs: u64,
    heartbeat_timeout_secs: Option<u64>,
) -> ActivityStepView {
    ActivityStepView {
        activity_name,
        args_template: Seq::empty(),
        retry_policy: RetryPolicy {
            maximum_attempts,
            initial_interval_secs: Seconds { bits: interval_bits },
        },
        timeout_secs,
        heartbeat_timeout_secs,
    }
}

fn make_step(
    activity_name: &str,
    maximum_attempts: u32,
    interval_bits: u64,
    timeout_secs: u64,
    heartbeat_timeout_secs: Option<u64>,
) -> (r: ActivityStep)
    ensures
        r.deep_view() == plain_step(
            activity_name@,
            maximum_attempts,
            interval_bits,
            timeout_secs,
            heartbeat_timeout_secs,
        ),
{
    let args_template: Vec<(String, String)> = Vec::new();
    proof {
        assert(args_template.deep_view() =~= Seq::empty());
    }
    ActivityStep {
        activity_name: activity_name.to_owned(),
        args_template,
        retry_policy: RetryPolicy {
            maximum_attempts,
            initial_interval_secs: Seconds { bits: interval_bits },
        },
        timeout_secs,
        heartbeat_timeout_secs,
    }
}

/// The five activities of a cron job: execute, save the output, deliver the result, mark the run,
/// trigger what follows.
pub open spec fn cron_pipeline(execute_timeout_secs: u64) -> Seq<ActivityStepView> {
    seq![
        plain_step("execute_cron_job"@, 3, TWO_SECONDS, execute_timeout_secs, Some(60)),
        plain_step("save_cron_output"@, 2, ONE_SECOND, 60, None),
        plain_step("deliver_cron_result"@, 3, TWO_SECONDS, 120, Some(30)),
        plain_step("mark_job_run_activity"@, 1, ONE_SECOND, 30, None),
        plain_step("trigger_on_success_jobs"@, 2, ONE_SECOND, 60, None),
    ]
}

fn make_cron_pipeline(execute_timeout_secs: u64) -> (r: Vec<ActivityStep>)
    ensures
        r.deep_view() == cron_pipeline(execute_timeout_secs),
{
    let mut steps: Vec<ActivityStep> = Vec::new();
    steps.push(make_step("execute_cron_job", 3, TWO_SECONDS, execute_timeout_secs, Some(60)));
    steps.push(make_step("save_cron_output", 2, ONE_SECOND, 60, None));
    steps.push(make_step("deliver_cron_result", 3, TWO_SECONDS, 120, Some(30)));
    steps.push(make_step("mark_job_run_activity", 1, ONE_SECOND, 30, None));
    steps.push(make_step("trigger_on_success_jobs", 2, ONE_SECOND, 60, None));
    proof {
        assert(steps.deep_view() =~= cron_pipeline(execute_timeout_secs));
    }
    steps
}

/// What a workflow name stands for when a client starts it: the cron pipeline, or a single
/// activity of that name.
pub open spec fn workflow_definition(name: Text) -> Seq<ActivityStepView> {
    if snake_case(name) == "cron_job_workflow"@ {
        cron_pipeline(300)
    } else {
        seq![plain_step(name, 3, TWO_SECONDS, 300, Some(60))]
    }
}

/// What a workflow name stands for when a schedule starts it: the cron pipeline, with more time to
/// execute under any other name.
pub open spec fn scheduled_definition(name: Text) -> Seq<ActivityStepView> {
    if snake_case(name) == "cron_job_workflow"@ {
        cron_pipeline(300)
    } else {
        cron_pipeline(600)
    }
}

/// Get the built-in workflow definition for a name that a client starts.
pub fn get_workflow_definition(name: &str) -> (r: Vec<ActivityStep>)
    ensures
        r.deep_view() == workflow_definition(name@),
{
    let normalized: String = normalize_name(name);
    if text_eq(normalized.as_str(), "cron_job_workflow") {
        make_cron_pipeline(300)
    } else {
        let mut steps: Vec<ActivityStep> = Vec::new();
        steps.push(make_step(name, 3, TWO_SECONDS, 300, Some(60)));
        proof {
            assert(steps.deep_view() =~= workflow_definition(name@));
        }
        steps
    }
}

/// Get the built-in workflow definition for a name that a schedule starts.
pub fn get_scheduled_definition(name: &str) -> (r: Vec<ActivityStep>)
    ensures
        r.deep_view() == scheduled_definition(name@),
{
    let normalized: String = normalize_name(name);
    if text_eq(normalized.as_str(), "cron_job_workflow") {
        make_cron_pipeline(300)
    } else {
        make_cron_pipeline(600)
    }
}

} // verus!
