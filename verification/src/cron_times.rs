//! Cron expressions: when they next occur, and whether they match the current time.

use vstd::prelude::*;
use vstd::string::*;
use std::str::FromStr;
use crate::clock::{between, on_calendar, plus_seconds, time_of, MAX_SECS, Timestamp};
use crate::text::{concat2, Text};

verus! {

/// What the `cron` crate gives as the first occurrence after a time: nothing for an expression
/// that it refuses, else the seconds and nanoseconds of the occurrence, where there is one.
pub uninterp spec fn cron_after(expression: Text, secs: int, nanos: int) -> Option<
    Option<(int, int)>,
>;

/// The point of time in what the `cron` crate gives.
pub open spec fn occurrence(parts: Option<Option<(int, int)>>) -> Option<Option<Timestamp>> {
    match parts {
        None => None,
        Some(parts) => Some(time_of(parts)),
    }
}

/// The first occurrence of an expression after `t`; nothing for an expression that is refused.
pub open spec fn occurrence_after(expression: Text, t: Timestamp) -> Option<Option<Timestamp>> {
    occurrence(cron_after(expression, t.second(), t.nano()))
}

/// `cron::Schedule::from_str`, and the first item of `cron::Schedule::after` in UTC. The query
/// starts at the second after the given time, and an occurrence is a whole second, so it comes
/// later. Otherwise the result is only named.
#[verifier::external_body]
pub(crate) fn cron_next(expression: &str, t: Timestamp) -> (r: Option<Option<Timestamp>>)
    requires
        on_calendar(t.second(), t.nano()),
        t.second() < MAX_SECS - 1,
    ensures
        r == occurrence(cron_after(expression@, t.second(), t.nano())),
        r matches Some(Some(next)) ==> next.second() > t.second() && next.nano() == 0,
{
    let schedule = cron::Schedule::from_str(expression).ok()?;
    let at = chrono::DateTime::from_timestamp(t.secs, t.nanos).unwrap();
    let next = schedule.after(&at).next();
    Some(next.map(|n| Timestamp { secs: n.timestamp(), nanos: n.timestamp_subsec_nanos() }))
}

// ---- expressions without seconds ------------------------------------------------------------

/// A character that separates the fields of an expression.
pub open spec fn blank(c: char) -> bool {
    c == ' ' || c == '\t' || c == '\r' || c == '\n'
}

/// How many fields an expression has: runs of characters between blanks.
pub open spec fn field_count(expression: Text) -> nat
    decreases expression.len(),
{
    if expression.len() == 0 {
        0
    } else {
        let front = expression.drop_last();
        let starts = !blank(expression.last()) && (front.len() == 0 || blank(front.last()));
        field_count(front) + if starts {
            1nat
        } else {
            0nat
        }
    }
}

/// Counts the fields of an expression.
pub fn count_fields(expression: &str) -> (r: usize)
    ensures
        r == field_count(expression@),
{
    let n: usize = expression.unicode_len();
    let mut fields: usize = 0;
    let mut between: bool = true;
    let mut i: usize = 0;
    proof {
        assert(expression@.take(0) =~= Seq::empty());
    }
    while i < n
        invariant
            i <= n,
            n == expression@.len(),
            fields <= i,
            fields == field_count(expression@.take(i as int)),
            between == (i == 0 || blank(expression@[i - 1])),
        decreases n - i,
    {
        let c: char = expression.get_char(i);
        proof {
            assert(expression@.take(i + 1).drop_last() =~= expression@.take(i as int));
            assert(expression@.take(i + 1).last() == c);
            if i > 0 {
                assert(expression@.take(i as int).last() == expression@[i - 1]);
            }
        }
        let space: bool = c == ' ' || c == '\t' || c == '\r' || c == '\n';
        if !space && between {
            fields += 1;
        }
        between = space;
        i += 1;
    }
    proof {
        assert(expression@.take(n as int) =~= expression@);
    }
    fields
}

/// The first occurrence after `t` of an expression, which may leave out the field of the seconds:
/// five fields stand for the first second of the minute. Nothing for an expression that is
/// refused, and nothing in the last seconds of the calendar.
pub open spec fn next_occurrence(expression: Text, t: Timestamp) -> Option<Option<Timestamp>> {
    if t.second() >= MAX_SECS - 1 {
        None
    } else if occurrence_after(expression, t) is None && field_count(expression) == 5 {
        occurrence_after("0 "@ + expression, t)
    } else {
        occurrence_after(expression, t)
    }
}

/// Finds the first occurrence of an expression after `t`.
pub fn find_next_occurrence(expression: &str, t: &Timestamp) -> (r: Option<Option<Timestamp>>)
    ensures
        r == next_occurrence(expression@, *t),
        r matches Some(Some(next)) ==> next.second() > t.second() && next.nano() == 0,
{
    if t.seconds() >= MAX_SECS - 1 {
        return None;
    }
    let on: Timestamp = t.verified();
    match cron_next(expression, on) {
        Some(next) => Some(next),
        None => {
            if count_fields(expression) == 5 {
                let full: String = concat2("0 ", expression);
                cron_next(full.as_str(), on)
            } else {
                None
            }
        },
    }
}

// ---- lists of expressions -------------------------------------------------------------------

/// The earlier of two times, where both are there; else the one that is.
pub open spec fn earlier(a: Option<Timestamp>, b: Option<Timestamp>) -> Option<Timestamp> {
    match (a, b) {
        (Some(x), Some(y)) => if x.after(y) {
            Some(y)
        } else {
            Some(x)
        },
        (Some(x), None) => Some(x),
        (None, other) => other,
    }
}

/// The earliest occurrence after `t` over all expressions; those that are refused have none.
pub open spec fn earliest_occurrence(expressions: Seq<Text>, t: Timestamp) -> Option<Timestamp>
    decreases expressions.len(),
{
    if expressions.len() == 0 {
        None
    } else {
        earlier(
            earliest_occurrence(expressions.drop_last(), t),
            match next_occurrence(expressions.last(), t) {
                Some(next) => next,
                None => None,
            },
        )
    }
}

/// The earliest occurrence is an occurrence of some expression, and no expression occurs before it;
/// there is one where some expression has one.
pub proof fn law_earliest_occurrence(expressions: Seq<Text>, t: Timestamp)
    ensures
        match earliest_occurrence(expressions, t) {
            Some(next) => {
                &&& exists|i: int|
                    0 <= i < expressions.len() && next_occurrence(#[trigger] expressions[i], t)
                        == Some(Some(next))
                &&& forall|i: int|
                    0 <= i < expressions.len() ==> (next_occurrence(
                        #[trigger] expressions[i],
                        t,
                    ) matches Some(Some(other)) ==> !next.after(other))
            },
            None => forall|i: int|
                0 <= i < expressions.len() ==> !(next_occurrence(
                    #[trigger] expressions[i],
                    t,
                ) matches Some(Some(_))),
        },
    decreases expressions.len(),
{
    if expressions.len() > 0 {
        let front = expressions.drop_last();
        law_earliest_occurrence(front, t);
        assert forall|i: int| 0 <= i < front.len() implies front[i] == #[trigger] expressions[i] by {}
        assert(expressions.last() == expressions[expressions.len() - 1]);
        if let Some(next) = earliest_occurrence(expressions, t) {
            if earliest_occurrence(front, t) == Some(next) {
                let i = choose|i: int|
                    0 <= i < front.len() && next_occurrence(#[trigger] front[i], t) == Some(
                        Some(next),
                    );
                assert(expressions[i] == front[i]);
            } else {
                assert(next_occurrence(expressions[expressions.len() - 1], t) == Some(Some(next)));
            }
        }
    }
}

/// Finds the earliest occurrence after `t` over all expressions. It comes after `t`.
pub fn find_earliest_occurrence(expressions: &Vec<String>, t: &Timestamp) -> (r: Option<Timestamp>)
    ensures
        r == earliest_occurrence(expressions.deep_view(), *t),
        r matches Some(next) ==> next.after(*t),
{
    let ghost all = expressions.deep_view();
    let mut best: Option<Timestamp> = None;
    let mut i: usize = 0;
    proof {
        assert(all.take(0) =~= Seq::empty());
    }
    while i < expressions.len()
        invariant
            i <= expressions@.len(),
            all == expressions.deep_view(),
            best == earliest_occurrence(all.take(i as int), *t),
            best matches Some(next) ==> next.after(*t),
        decreases expressions@.len() - i,
    {
        proof {
            assert(all.take(i + 1).drop_last() =~= all.take(i as int));
            assert(all.take(i + 1).last() == all[i as int]);
        }
        if let Some(Some(next)) = find_next_occurrence(expressions[i].as_str(), t) {
            let sooner: bool = match best {
                Some(x) => x.is_after(&next),
                None => true,
            };
            if sooner {
                best = Some(next);
            }
        }
        i += 1;
    }
    proof {
        assert(all.take(i as int) =~= all);
    }
    best
}

/// An expression matches the current time: it occurs in the current second, or its next occurrence
/// is at most one whole second away.
pub open spec fn matches_now(expression: Text, now: Timestamp) -> bool {
    ||| next_occurrence(expression, now) matches Some(Some(next)) && 0 <= between(next, now).0 <= 1
    ||| plus_seconds(now, -1) matches Some(before) && next_occurrence(
        expression,
        before,
    ) matches Some(Some(at)) && at.second() == now.second()
}

/// Whether an expression matches the current time.
fn expression_matches(expression: &str, now: &Timestamp) -> (r: bool)
    ensures
        r == matches_now(expression@, *now),
{
    if let Some(Some(next)) = find_next_occurrence(expression, now) {
        let diff: i64 = next.seconds_since(now);
        if diff >= 0 && diff <= 1 {
            return true;
        }
    }
    if let Some(before) = now.plus(-1) {
        if let Some(Some(at)) = find_next_occurrence(expression, &before) {
            return at.seconds() == now.seconds();
        }
    }
    false
}

/// Check if any of the cron expressions match the current time.
pub fn check_cron_match(expressions: &Vec<String>, now: &Timestamp) -> (r: bool)
    ensures
        r == exists|i: int|
            0 <= i < expressions@.len() && matches_now(
                #[trigger] expressions.deep_view()[i],
                *now,
            ),
{
    let mut i: usize = 0;
    while i < expressions.len()
        invariant
            i <= expressions@.len(),
            forall|j: int|
                0 <= j < i ==> !matches_now(#[trigger] expressions.deep_view()[j], *now),
        decreases expressions@.len() - i,
    {
        if expression_matches(expressions[i].as_str(), now) {
            proof {
                assert(matches_now(expressions.deep_view()[i as int], *now));
            }
            return true;
        }
        i += 1;
    }
    false
}

} // verus!
