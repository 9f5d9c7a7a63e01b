//! What texts, JSON values, times and definitions come to.

use vstd::arithmetic::power2::{lemma2_to64_rest, pow2};
use vstd::prelude::*;
use crate::activity::{activity_state_word, ActivityState, RetryPolicy};
use crate::clock::{between, chrono_parse, datetime_formats, first_reading, lemma_timestamp_parts, nanos_between, on_calendar, plus_seconds, time_in, time_of, Timestamp, MAX_SECS, MIN_SECS};
use crate::cron_times::{field_count, next_occurrence, occurrence_after};
use crate::definitions::{ONE_SECOND, TWO_SECONDS, scheduled_definition, snake_case, workflow_definition};
use crate::json::{json_members, string_args, string_members, value_of, Entries};
use crate::seconds::{Seconds, FRACTION_SPAN, SIGN_SPAN};
use crate::schedule::{OverlapPolicy, ScheduleSpecView};
use crate::text::{after_prefix, bytes_le, decimal, first_chars, joined, Text};
use crate::workflow::{workflow_state_in, WorkflowState};

verus! {

// ---- texts ----------------------------------------------------------------------------------

/// Bytes are compared at the first place where they differ, and what others start with comes before
/// them.
pub proof fn law_bytes_order(start: Seq<u8>, x: u8, y: u8, a: Seq<u8>, b: Seq<u8>)
    requires
        x != y,
    ensures
        bytes_le(start + seq![x] + a, start + seq![y] + b) <==> x < y,
        bytes_le(start, start + a),
        a.len() > 0 ==> !bytes_le(start + a, start),
    decreases start.len(),
{
    let (p, q) = (start + seq![x] + a, start + seq![y] + b);
    if start.len() > 0 {
        let rest = start.drop_first();
        law_bytes_order(rest, x, y, a, b);
        assert(p.drop_first() =~= rest + seq![x] + a);
        assert(q.drop_first() =~= rest + seq![y] + b);
        assert(p[0] == start[0] && q[0] == start[0]);
        assert((start + a).drop_first() =~= rest + a);
        assert((start + a)[0] == start[0]);
    } else {
        assert(p[0] == x && q[0] == y);
        assert(start + a =~= a);
    }
}

/// The number that decimal digits stand for.
pub open spec fn number_in(digits: Text) -> int
    decreases digits.len(),
{
    if digits.len() == 0 {
        0
    } else {
        number_in(digits.drop_last()) * 10 + (digits.last() as u32 - '0' as u32)
    }
}

/// A number in decimal digits reads back as itself, and has no zero in front but for zero itself.
pub proof fn law_decimal(n: nat)
    ensures
        number_in(decimal(n)) == n,
        decimal(n).len() > 0,
        forall|i: int|
            0 <= i < decimal(n).len() ==> '0' <= (#[trigger] decimal(n)[i]) && decimal(n)[i] <= '9',
        n > 0 ==> decimal(n)[0] != '0',
        n == 0 ==> decimal(n).len() == 1,
    decreases n,
{
    reveal_with_fuel(number_in, 2);
    if n >= 10 {
        law_decimal(n / 10);
        let front = decimal(n / 10);
        assert(decimal(n).drop_last() =~= front);
        assert(decimal(n)[0] == front[0]);
    } else {
        assert(decimal(n).drop_last() =~= Seq::empty());
    }
}

/// Texts that are joined stand one behind the other, with the separator between any two.
pub proof fn law_joined(a: Seq<Text>, b: Seq<Text>, one: Text, sep: Text)
    ensures
        joined(Seq::empty(), sep).len() == 0,
        joined(seq![one], sep) == one,
        a.len() > 0 && b.len() > 0 ==> joined(a + b, sep) == joined(a, sep) + sep + joined(b, sep),
    decreases b.len(),
{
    if a.len() > 0 && b.len() > 0 {
        let front = b.drop_last();
        assert((a + b).drop_last() =~= a + front);
        assert((a + b).last() == b.last());
        if front.len() > 0 {
            law_joined(a, front, one, sep);
            assert(joined(a + b, sep) =~= joined(a, sep) + sep + joined(b, sep));
        } else {
            assert(a + front =~= a);
            assert(joined(b, sep) == b.last());
        }
    }
}

/// The first characters of a text are what it starts with, as many as were asked for or all of it.
pub proof fn law_first_chars(s: Text, n: nat)
    ensures
        first_chars(s, n).len() == if s.len() < n {
            s.len()
        } else {
            n
        },
        forall|i: int| 0 <= i < first_chars(s, n).len() ==> #[trigger] first_chars(s, n)[i] == s[i],
{
}

/// What is behind a prefix, put behind it again, is the text; there is nothing where the text does
/// not start with the prefix.
pub proof fn law_after_prefix(s: Text, prefix: Text, rest: Text)
    ensures
        after_prefix(s, prefix) == Some(rest) <==> s == prefix + rest,
        after_prefix(s, prefix) is None ==> s != prefix + rest,
{
    if s == prefix + rest {
        assert(s.take(prefix.len() as int) =~= prefix);
        assert(s.skip(prefix.len() as int) =~= rest);
        assert(prefix.is_prefix_of(s));
    }
    if after_prefix(s, prefix) == Some(rest) {
        assert(s =~= prefix + s.skip(prefix.len() as int));
    }
}

// ---- JSON objects ---------------------------------------------------------------------------

/// The value of a key is that of the last entry with the key; there is none where no entry has it.
pub proof fn law_value_of(entries: Entries, key: Text)
    ensures
        match value_of(entries, key) {
            Some(value) => exists|i: int|
                0 <= i < entries.len() && (#[trigger] entries[i]).0 == key && entries[i].1 == value
                    && forall|j: int| i < j < entries.len() ==> (#[trigger] entries[j]).0 != key,
            None => forall|i: int| 0 <= i < entries.len() ==> (#[trigger] entries[i]).0 != key,
        },
    decreases entries.len(),
{
    if entries.len() > 0 {
        let front = entries.drop_last();
        let n = entries.len() - 1;
        assert(entries.last() == entries[n]);
        if entries[n].0 != key {
            law_value_of(front, key);
            if let Some(value) = value_of(front, key) {
                let i = choose|i: int|
                    0 <= i < front.len() && (#[trigger] front[i]).0 == key && front[i].1 == value
                        && forall|j: int| i < j < front.len() ==> (#[trigger] front[j]).0 != key;
                assert(entries[i] == front[i]);
                assert forall|j: int| i < j < entries.len() implies (#[trigger] entries[j]).0
                    != key by {
                    if j < n {
                        assert(front[j] == entries[j]);
                    }
                }
            } else {
                assert forall|i: int| 0 <= i < entries.len() implies (#[trigger] entries[i]).0
                    != key by {
                    if i < n {
                        assert(front[i] == entries[i]);
                    }
                }
            }
        }
    }
}

/// The string members of an object are those whose value is a string, in their order.
pub proof fn law_string_members(
    a: Seq<(Text, Option<Text>)>,
    b: Seq<(Text, Option<Text>)>,
    key: Text,
    value: Text,
)
    ensures
        string_members(seq![(key, Some(value))]) == seq![(key, value)],
        string_members(seq![(key, None::<Text>)]).len() == 0,
        string_members(a + b) == string_members(a) + string_members(b),
    decreases b.len(),
{
    reveal_with_fuel(string_members, 2);
    assert(seq![(key, Some(value))].drop_last() =~= Seq::empty());
    assert(seq![(key, None::<Text>)].drop_last() =~= Seq::empty());
    assert(string_members(seq![(key, Some(value))]) =~= seq![(key, value)]);
    if b.len() > 0 {
        let front = b.drop_last();
        law_string_members(a, front, key, value);
        assert((a + b).drop_last() =~= a + front);
        assert((a + b).last() == b.last());
        assert(string_members(a + b) =~= string_members(a) + string_members(b));
    } else {
        assert(a + b =~= a);
        assert(string_members(a + b) =~= string_members(a) + string_members(b));
    }
}

/// The string arguments in a text are the string members of the object that it holds, and none where
/// it holds no object.
pub proof fn law_string_args(text: Text, key: Text, value: Text)
    ensures
        json_members(text) is None ==> string_args(text).len() == 0,
        json_members(text) matches Some(members) ==> (string_args(text).contains((key, value))
            <==> members.contains((key, Some(value)))),
{
    if let Some(members) = json_members(text) {
        lemma_string_member(members, key, value);
    }
}

proof fn lemma_string_member(members: Seq<(Text, Option<Text>)>, key: Text, value: Text)
    ensures
        string_members(members).contains((key, value)) <==> members.contains((key, Some(value))),
    decreases members.len(),
{
    if members.len() > 0 {
        let front = members.drop_last();
        let n = members.len() - 1;
        lemma_string_member(front, key, value);
        let (a, b) = (string_members(front), string_members(members));
        assert(members.last() == members[n]);
        if front.contains((key, Some(value))) {
            let i = choose|i: int| 0 <= i < front.len() && front[i] == (key, Some(value));
            assert(members[i] == (key, Some(value)));
        }
        if a.contains((key, value)) {
            let i = choose|i: int| 0 <= i < a.len() && a[i] == (key, value);
            assert(b[i] == (key, value));
        }
        if b.contains((key, value)) {
            let i = choose|i: int| 0 <= i < b.len() && b[i] == (key, value);
            if i < a.len() {
                assert(a[i] == (key, value));
            }
        }
        if members.contains((key, Some(value))) {
            let i = choose|i: int| 0 <= i < members.len() && members[i] == (key, Some(value));
            if i < n {
                assert(front[i] == (key, Some(value)));
            } else {
                assert(b[a.len() as int] == (key, value));
            }
        }
    }
}

// ---- times ----------------------------------------------------------------------------------

/// A text is read as a time where one of the six forms fits, as the first of them that does says.
pub proof fn law_time_in(text: Text)
    ensures
        ({
            let spaced = "%Y-%m-%d %H:%M:%S"@;
            let spaced_parts = "%Y-%m-%d %H:%M:%S%.f"@;
            let dated = "%Y-%m-%dT%H:%M:%S"@;
            let dated_parts = "%Y-%m-%dT%H:%M:%S%.f"@;
            let zoned = "%Y-%m-%dT%H:%M:%SZ"@;
            let zoned_parts = "%Y-%m-%dT%H:%M:%S%.fZ"@;
            &&& chrono_parse(text, spaced_parts) is Some ==> time_in(text) is Ok && time_of(
                chrono_parse(text, spaced_parts),
            ) == Some(time_in(text)->Ok_0)
            &&& chrono_parse(text, spaced_parts) is None && chrono_parse(text, spaced) is Some
                ==> time_in(text) is Ok && time_of(chrono_parse(text, spaced)) == Some(
                time_in(text)->Ok_0,
            )
            &&& time_in(text) is Ok <==> chrono_parse(text, spaced_parts) is Some || chrono_parse(
                text,
                spaced,
            ) is Some || chrono_parse(text, dated_parts) is Some || chrono_parse(text, dated)
                is Some || chrono_parse(text, zoned_parts) is Some || chrono_parse(text, zoned)
                is Some
            &&& time_in(text) matches Ok(t) ==> Some(t) == time_of(
                chrono_parse(text, spaced_parts),
            ) || Some(t) == time_of(chrono_parse(text, spaced)) || Some(t) == time_of(
                chrono_parse(text, dated_parts),
            ) || Some(t) == time_of(chrono_parse(text, dated)) || Some(t) == time_of(
                chrono_parse(text, zoned_parts),
            ) || Some(t) == time_of(chrono_parse(text, zoned))
            &&& time_in(text) matches Err(e) ==> e == "Failed to parse datetime: "@ + text
        }),
{
    let formats = datetime_formats();
    reveal_with_fuel(first_reading, 7);
    assert(formats[0] == "%Y-%m-%d %H:%M:%S%.f"@);
    assert(formats.drop_first()[0] == "%Y-%m-%d %H:%M:%S"@);
    assert(formats.drop_first().drop_first()[0] == "%Y-%m-%dT%H:%M:%S%.f"@);
    assert(formats.drop_first().drop_first().drop_first()[0] == "%Y-%m-%dT%H:%M:%S"@);
    assert(formats.drop_first().drop_first().drop_first().drop_first()[0]
        == "%Y-%m-%dT%H:%M:%S%.fZ"@);
    assert(formats.drop_first().drop_first().drop_first().drop_first().drop_first()[0]
        == "%Y-%m-%dT%H:%M:%SZ"@);
    assert(formats.drop_first().drop_first().drop_first().drop_first().drop_first().drop_first()
        =~= Seq::empty());
}

/// Seconds that are added are seconds between; and what is between two times are whole seconds and
/// the nanoseconds that are left, both in the same direction.
pub proof fn law_time_between(t: Timestamp, from: Timestamp, delta: int)
    requires
        t.ordinary(),
        from.ordinary(),
        on_calendar(t.second(), t.nano()),
        on_calendar(from.second(), from.nano()),
    ensures
        MIN_SECS <= t.second() + delta <= MAX_SECS ==> (plus_seconds(t, delta) matches Some(u)
            && u.second() == t.second() + delta && u.nano() == t.nano() && between(u, t) == (
            delta,
            0int,
        )),
        !(MIN_SECS <= t.second() + delta <= MAX_SECS) ==> plus_seconds(t, delta) is None,
        ({
            let (secs, nanos) = between(t, from);
            &&& secs * 1_000_000_000 + nanos == (t.second() - from.second()) * 1_000_000_000
                + t.nano() - from.nano()
            &&& -1_000_000_000 < nanos < 1_000_000_000
            &&& secs > 0 ==> nanos >= 0
            &&& secs < 0 ==> nanos <= 0
        }),
        t.after(from) <==> nanos_between(t, from) > 0,
{
    if MIN_SECS <= t.second() + delta <= MAX_SECS {
        lemma_timestamp_parts(t.second() + delta, t.nano());
        let u = plus_seconds(t, delta)->0;
        let total = nanos_between(u, t);
        assert(total == delta * 1_000_000_000);
        assert(crate::clock::div_to_zero(total, 1_000_000_000) == delta);
    }
    let total = nanos_between(t, from);
    let whole = crate::clock::div_to_zero(total, 1_000_000_000);
    assert(between(t, from) == (whole, total - whole * 1_000_000_000));
}

/// The wait before the first retry is the interval of the policy: one second for an interval of one,
/// two for an interval of two; and an attempt without a number counts as the first.
pub proof fn law_first_backoff(policy: RetryPolicy)
    ensures
        policy.initial_interval_secs.bits == ONE_SECOND ==> policy.backoff(1) == 1,
        policy.initial_interval_secs.bits == TWO_SECONDS ==> policy.backoff(1) == 2,
        policy.initial_interval_secs.bits == 0 ==> policy.backoff(1) == 0,
        policy.backoff(0) == policy.backoff(1),
{
    lemma2_to64_rest();
    let one: u64 = ONE_SECOND;
    let two: u64 = TWO_SECONDS;
    assert((one % SIGN_SPAN) / FRACTION_SPAN == 1023 && one % FRACTION_SPAN == 0);
    assert((two % SIGN_SPAN) / FRACTION_SPAN == 1024 && two % FRACTION_SPAN == 0);
    assert(pow2(52) == FRACTION_SPAN);
    assert(FRACTION_SPAN as nat / pow2(52) == 1);
    assert(FRACTION_SPAN as nat / pow2(51) == 2);
}

/// A negative interval scales to the negative of what the positive one scales to, where that is no
/// limit; an interval that is no number scales to nothing.
pub proof fn law_negative_interval(bits: u64, k: int)
    requires
        bits < SIGN_SPAN,
    ensures
        ({
            let positive = Seconds { bits };
            let negative = Seconds { bits: (bits + SIGN_SPAN) as u64 };
            &&& positive.is_nan() ==> positive.scaled_to_i64(k) == 0 && negative.scaled_to_i64(k)
                == 0
            &&& positive.scaled_to_i64(k) >= 0
            &&& positive.scaled_to_i64(k) < i64::MAX ==> negative.scaled_to_i64(k)
                == -positive.scaled_to_i64(k)
        }),
{
    let positive = Seconds { bits };
    let negative = Seconds { bits: (bits + SIGN_SPAN) as u64 };
    assert(negative.bits % SIGN_SPAN == bits % SIGN_SPAN);
    assert(negative.bits % FRACTION_SPAN == bits % FRACTION_SPAN);
    assert(positive.exponent_field() == negative.exponent_field());
    assert(positive.fraction() == negative.fraction());
}

/// A time to the second has the same second, and nothing behind it.
pub proof fn law_whole_second(t: Timestamp)
    requires
        t.ordinary(),
        on_calendar(t.second(), t.nano()),
    ensures
        t.whole_second().second() == t.second(),
        t.whole_second().nano() == 0,
{
    lemma_timestamp_parts(t.second(), 0);
}

// ---- cron expressions -----------------------------------------------------------------------

/// The fields of an expression add up: blanks part them, and a word without blanks is one.
pub proof fn law_fields(a: Text, b: Text, c: char, word: Text)
    requires
        c == ' ' || c == '\t' || c == '\r' || c == '\n',
    ensures
        field_count(Seq::empty()) == 0,
        field_count(a.push(c) + b) == field_count(a) + field_count(b),
        word.len() > 0 && (forall|i: int|
            0 <= i < word.len() ==> (#[trigger] word[i]) != ' ' && word[i] != '\t' && word[i]
                != '\r' && word[i] != '\n') ==> field_count(word) == 1,
    decreases b.len(), word.len(),
{
    let all = a.push(c) + b;
    if b.len() > 0 {
        let front = b.drop_last();
        law_fields(a, front, c, word);
        assert(all.drop_last() =~= a.push(c) + front);
        assert(all.last() == b.last());
        if front.len() > 0 {
            assert((a.push(c) + front).last() == front.last());
        } else {
            assert((a.push(c) + front).last() == c);
        }
    } else {
        assert(all =~= a.push(c));
        assert(a.push(c).drop_last() =~= a);
        if word.len() > 1 && (forall|i: int|
            0 <= i < word.len() ==> (#[trigger] word[i]) != ' ' && word[i] != '\t' && word[i]
                != '\r' && word[i] != '\n') {
            let front = word.drop_last();
            assert forall|i: int| 0 <= i < front.len() implies (#[trigger] front[i]) != ' '
                && front[i] != '\t' && front[i] != '\r' && front[i] != '\n' by {
                assert(front[i] == word[i]);
            }
            law_fields(a, b, c, front);
            assert(front.last() == word[word.len() - 2]);
            assert(word.last() == word[word.len() - 1]);
        } else if word.len() == 1 {
            assert(word.drop_last() =~= Seq::empty());
            assert(word.last() == word[0]);
        }
    }
}

/// An expression that can be read as it stands is taken as it stands; one that cannot, and has five
/// fields, fires in the first second of the minutes that it names; any other that cannot be read
/// never fires.
pub proof fn law_next_occurrence(expression: Text, t: Timestamp)
    requires
        t.second() < MAX_SECS - 1,
    ensures
        occurrence_after(expression, t) is Some ==> next_occurrence(expression, t)
            == occurrence_after(expression, t),
        occurrence_after(expression, t) is None && field_count(expression) == 5 ==> next_occurrence(
            expression,
            t,
        ) == occurrence_after("0 "@ + expression, t),
        occurrence_after(expression, t) is None && field_count(expression) != 5 ==> next_occurrence(
            expression,
            t,
        ) is None,
{
}

// ---- words ----------------------------------------------------------------------------------

/// The states of an attempt are written as their names in lower case, and a word that names no
/// state of a run is refused.
pub proof fn law_state_words(word: Text)
    ensures
        activity_state_word(ActivityState::Pending) == "pending"@,
        activity_state_word(ActivityState::Running) == "running"@,
        activity_state_word(ActivityState::Completed) == "completed"@,
        activity_state_word(ActivityState::Failed) == "failed"@,
        activity_state_word(ActivityState::Retried) == "retried"@,
        workflow_state_in("pending"@) == Ok::<WorkflowState, Text>(WorkflowState::Pending),
        workflow_state_in("running"@) == Ok::<WorkflowState, Text>(WorkflowState::Running),
        workflow_state_in("completed"@) == Ok::<WorkflowState, Text>(WorkflowState::Completed),
        workflow_state_in("failed"@) == Ok::<WorkflowState, Text>(WorkflowState::Failed),
        workflow_state_in("cancelled"@) == Ok::<WorkflowState, Text>(WorkflowState::Cancelled),
        word != "pending"@ && word != "running"@ && word != "completed"@ && word != "failed"@
            && word != "cancelled"@ ==> workflow_state_in(word) is Err,
{
    reveal_strlit("pending");
    reveal_strlit("running");
    reveal_strlit("completed");
    reveal_strlit("failed");
    reveal_strlit("cancelled");
    assert("pending"@[0] == 'p' && "running"@[0] == 'r');
    assert("completed"@[1] == 'o' && "cancelled"@[1] == 'a');
    assert("failed"@.len() == 6 && "pending"@.len() == 7 && "completed"@.len() == 9);
}

/// An overlap policy is shown by its name, with its number where it has one; cron expressions are
/// shown joined by commas.
pub proof fn law_shown(n: usize, one: Text, list: Seq<Text>)
    ensures
        OverlapPolicy::Skip.shown() == "Skip"@,
        OverlapPolicy::TerminateExisting.shown() == "TerminateExisting"@,
        OverlapPolicy::Buffer(n).shown() == "Buffer("@ + decimal(n as nat) + ")"@,
        ScheduleSpecView::Cron(seq![one]).shown() == "Cron("@ + one + ")"@,
        ScheduleSpecView::Cron(list).shown() == "Cron("@ + joined(list, ", "@) + ")"@,
{
}

// ---- definitions ----------------------------------------------------------------------------

/// In snake case a capital letter stands in lower case, behind an underscore where it is not the
/// first; any other ASCII character stands as it is.
pub proof fn law_snake_case(name: Text, c: char)
    requires
        (c as u32) < 128,
    ensures
        snake_case(Seq::empty()).len() == 0,
        'A' <= c && c <= 'Z' && name.len() > 0 ==> {
            let n = snake_case(name).len() as int;
            let all = snake_case(name.push(c));
            &&& all.len() == n + 2
            &&& forall|i: int| 0 <= i < n ==> #[trigger] all[i] == snake_case(name)[i]
            &&& all[n] == '_'
            &&& all[n + 1] as u32 == c as u32 + 32
        },
        'A' <= c && c <= 'Z' && name.len() == 0 ==> {
            let all = snake_case(name.push(c));
            all.len() == 1 && all[0] as u32 == c as u32 + 32
        },
        !('A' <= c && c <= 'Z') ==> snake_case(name.push(c)) == snake_case(name).push(c),
{
    reveal_with_fuel(snake_case, 2);
    assert(name.push(c).drop_last() =~= name);
    assert(name.push(c).last() == c);
    if 'A' <= c && c <= 'Z' {
        let d = ((c as u8) + 32) as u8 as char;
        assert(d as u32 == c as u32 + 32);
    }
}

/// The steps of a workflow: the five steps of the cron pipeline under its name in any case, and
/// otherwise one step with the workflow's own name; those of a scheduled workflow are always the
/// pipeline, with a longer limit for its first step where it has another name.
pub proof fn law_definitions(name: Text, i: int)
    requires
        0 <= i < 5,
    ensures
        ({
            let cron = snake_case(name) == "cron_job_workflow"@;
            let own = workflow_definition(name);
            let scheduled = scheduled_definition(name);
            &&& cron ==> own == scheduled
            &&& !cron ==> own.len() == 1 && own[0].activity_name == name
                && own[0].retry_policy.maximum_attempts == 3 && own[0].timeout_secs == 300
                && own[0].heartbeat_timeout_secs == Some(60u64) && own[0].args_template.len() == 0
            &&& scheduled.len() == 5
            &&& scheduled[0].activity_name == "execute_cron_job"@
            &&& scheduled[1].activity_name == "save_cron_output"@
            &&& scheduled[2].activity_name == "deliver_cron_result"@
            &&& scheduled[3].activity_name == "mark_job_run_activity"@
            &&& scheduled[4].activity_name == "trigger_on_success_jobs"@
            &&& scheduled[0].timeout_secs == if cron {
                300
            } else {
                600int
            }
            &&& scheduled[1].timeout_secs == 60 && scheduled[2].timeout_secs == 120
                && scheduled[3].timeout_secs == 30 && scheduled[4].timeout_secs == 60
            &&& scheduled[0].retry_policy.maximum_attempts == 3
                && scheduled[1].retry_policy.maximum_attempts == 2
                && scheduled[2].retry_policy.maximum_attempts == 3
                && scheduled[3].retry_policy.maximum_attempts == 1
                && scheduled[4].retry_policy.maximum_attempts == 2
            &&& scheduled[0].heartbeat_timeout_secs == Some(60u64)
                && scheduled[2].heartbeat_timeout_secs == Some(30u64)
            &&& scheduled[1].heartbeat_timeout_secs is None && scheduled[3].heartbeat_timeout_secs
                is None && scheduled[4].heartbeat_timeout_secs is None
            &&& scheduled[i].args_template.len() == 0
        }),
{
}

} // verus!
