//! JSON values, carried as the compact text that `serde_json` writes for them.

use vstd::prelude::*;
use vstd::string::*;
use vstd::utf8::encode_utf8;
use crate::text::{lemma_bytes_le_reflexive, lemma_text_lt, outcome, text_at_most, text_eq, text_le, text_lt, Text};

verus! {

/// Key and value of an object whose values are strings.
pub type Entries = Seq<(Text, Text)>;

/// What `serde_json` makes of a text: the compact text of the value in it, or its message on a text
/// that is no JSON.
pub uninterp spec fn json_parse(text: Text) -> Result<Text, Text>;

/// What `serde_json` writes for a string.
pub uninterp spec fn json_string_text(s: Text) -> Text;

/// What `serde_json` writes for a list of strings.
pub uninterp spec fn json_list_text(items: Seq<Text>) -> Text;

/// What `serde_json` writes for an object with string values, whose keys rise.
pub uninterp spec fn json_object_text(entries: Entries) -> Text;

/// The string that a JSON text holds, where it holds a string.
pub uninterp spec fn json_as_string(text: Text) -> Option<Text>;

/// The members of the object that a JSON text holds, in the order of their keys, where it holds an
/// object: each key, and the value where that is a string.
pub uninterp spec fn json_members(text: Text) -> Option<Seq<(Text, Option<Text>)>>;

/// The list of strings that a JSON text holds, or the message where it holds anything else.
pub uninterp spec fn json_string_list(text: Text) -> Result<Seq<Text>, Text>;

/// The object of strings that a JSON text holds, in the order of its keys, or the message where it
/// holds anything else.
pub uninterp spec fn json_string_map(text: Text) -> Result<Entries, Text>;

/// A value whose text reads back as itself. Every value without a fraction does; of a number with
/// one, reading may round.
pub open spec fn stable_json(text: Text) -> bool {
    json_parse(text) == Ok::<Text, Text>(text)
}

/// The text holds exactly that list of strings.
pub open spec fn holds_list(text: Text, items: Seq<Text>) -> bool {
    json_string_list(text) == Ok::<Seq<Text>, Text>(items)
}

/// The text holds exactly that object of strings.
pub open spec fn holds_map(text: Text, entries: Entries) -> bool {
    json_string_map(text) == Ok::<Entries, Text>(entries)
}

/// `serde_json::from_str` to a `serde_json::Value`, written out again with `to_string`.
#[verifier::external_body]
pub(crate) fn reformat_json(text: &str) -> (r: Result<String, String>)
    ensures
        outcome(r) == json_parse(text@),
{
    match serde_json::from_str::<serde_json::Value>(text) {
        Ok(value) => Ok(value.to_string()),
        Err(e) => Err(e.to_string()),
    }
}

/// `serde_json::to_string` of a string. What it writes is JSON in its compact form, and holds that
/// string.
#[verifier::external_body]
pub(crate) fn string_to_json(s: &str) -> (r: String)
    ensures
        r@ == json_string_text(s@),
        stable_json(r@),
        json_as_string(r@) == Some(s@),
{
    serde_json::to_string(s).unwrap()
}

/// `serde_json::to_string` of a list of strings. What it writes is JSON in its compact form, and
/// reads back as that list.
#[verifier::external_body]
pub(crate) fn list_to_json(items: &Vec<String>) -> (r: String)
    ensures
        r@ == json_list_text(items.deep_view()),
        stable_json(r@),
        holds_list(r@, items.deep_view()),
{
    serde_json::to_string(items).unwrap()
}

/// The keys of `entries` rise strictly, byte by byte.
pub open spec fn keys_rise(entries: Entries) -> bool {
    forall|i: int, j: int|
        0 <= i < j < entries.len() ==> text_lt((#[trigger] entries[i]).0, (#[trigger] entries[j]).0)
}

/// The members of an object whose values are strings.
pub open spec fn all_strings(entries: Entries) -> Seq<(Text, Option<Text>)> {
    entries.map_values(|e: (Text, Text)| (e.0, Some(e.1)))
}

/// `serde_json::to_string` of a `BTreeMap` of strings. What it writes is JSON in its compact form
/// within a pair of braces, and reads back as those entries; no entries are written as the braces
/// alone.
#[verifier::external_body]
pub(crate) fn object_to_json(entries: &Vec<(String, String)>) -> (r: String)
    requires
        keys_rise(entries.deep_view()),
    ensures
        r@ == json_object_text(entries.deep_view()),
        stable_json(r@),
        holds_map(r@, entries.deep_view()),
        json_members(r@) == Some(all_strings(entries.deep_view())),
        r@.len() >= 2,
        entries@.len() == 0 ==> r@ == "{}"@,
{
    let map: std::collections::BTreeMap<String, String> = entries.iter().cloned().collect();
    serde_json::to_string(&map).unwrap()
}

/// What `serde_json` makes of bytes: the compact text of the value in them, where they are JSON.
pub uninterp spec fn json_parse_bytes(bytes: Seq<u8>) -> Option<Text>;

/// `serde_json::from_slice` to a `serde_json::Value`, written out again with `to_string`.
#[verifier::external_body]
pub(crate) fn reformat_json_bytes(bytes: &Vec<u8>) -> (r: Option<String>)
    ensures
        r.deep_view() == json_parse_bytes(bytes@),
{
    match serde_json::from_slice::<serde_json::Value>(bytes) {
        Ok(value) => Some(value.to_string()),
        Err(_) => None,
    }
}

/// `serde_json::Value::Null` with `to_string`: the word `null`, which is JSON in its compact form and
/// holds no string.
#[verifier::external_body]
pub(crate) fn null_to_json() -> (r: String)
    ensures
        r@ == "null"@,
        stable_json(r@),
        json_as_string(r@) is None,
{
    serde_json::Value::Null.to_string()
}

/// `serde_json::from_str` to a `serde_json::Value`, and the string where it is one.
#[verifier::external_body]
pub(crate) fn string_in_json(text: &str) -> (r: Option<String>)
    ensures
        r.deep_view() == json_as_string(text@),
{
    match serde_json::from_str(text) {
        Ok(serde_json::Value::String(s)) => Some(s),
        _ => None,
    }
}

/// `serde_json::from_str` to a `serde_json::Value`, and the members where it is an object, each
/// value as the string that it may be.
#[verifier::external_body]
pub(crate) fn members_in_json(text: &str) -> (r: Option<Vec<(String, Option<String>)>>)
    ensures
        r.deep_view() == json_members(text@),
{
    match serde_json::from_str(text) {
        Ok(serde_json::Value::Object(map)) => Some(
            map.iter().map(|(k, v)| (k.clone(), v.as_str().map(str::to_string))).collect(),
        ),
        _ => None,
    }
}

/// `serde_json::from_str` to a list of strings.
#[verifier::external_body]
pub(crate) fn list_in_json(text: &str) -> (r: Result<Vec<String>, String>)
    ensures
        outcome(r) == json_string_list(text@),
{
    match serde_json::from_str(text) {
        Ok(items) => Ok(items),
        Err(e) => Err(e.to_string()),
    }
}

/// `serde_json::from_str` to a `BTreeMap` of strings, whose entries come in the order of their keys.
#[verifier::external_body]
pub(crate) fn map_in_json(text: &str) -> (r: Result<Vec<(String, String)>, String>)
    ensures
        outcome(r) == json_string_map(text@),
{
    match serde_json::from_str::<std::collections::BTreeMap<String, String>>(text) {
        Ok(map) => Ok(map.into_iter().collect()),
        Err(e) => Err(e.to_string()),
    }
}

// ---- entries --------------------------------------------------------------------------------

/// Entries whose keys rise, with one more entry at its place; it takes the place of an entry with
/// the same key.
pub open spec fn entry_put(entries: Entries, e: (Text, Text)) -> Entries
    decreases entries.len(),
{
    if entries.len() == 0 {
        seq![e]
    } else if entries.last().0 == e.0 {
        entries.drop_last().push(e)
    } else if text_le(entries.last().0, e.0) {
        entries.push(e)
    } else {
        entry_put(entries.drop_last(), e).push(entries.last())
    }
}

/// Entries in the order of their keys; of entries with one key the last counts.
pub open spec fn by_key(entries: Entries) -> Entries
    decreases entries.len(),
{
    if entries.len() == 0 {
        Seq::empty()
    } else {
        entry_put(by_key(entries.drop_last()), entries.last())
    }
}

/// The value of a key: that of the last entry with the key.
pub open spec fn value_of(entries: Entries, key: Text) -> Option<Text>
    decreases entries.len(),
{
    if entries.len() == 0 {
        None
    } else if entries.last().0 == key {
        Some(entries.last().1)
    } else {
        value_of(entries.drop_last(), key)
    }
}

/// Finds the value of a key.
pub fn find_value(entries: &Vec<(String, String)>, key: &str) -> (r: Option<String>)
    ensures
        r.deep_view() == value_of(entries.deep_view(), key@),
{
    let ghost all = entries.deep_view();
    let mut n: usize = entries.len();
    proof {
        assert(all.take(n as int) =~= all);
    }
    while n > 0
        invariant
            n <= entries@.len(),
            all == entries.deep_view(),
            value_of(all, key@) == value_of(all.take(n as int), key@),
        decreases n,
    {
        proof {
            assert(all.take(n as int).drop_last() =~= all.take(n - 1));
            assert(all.take(n as int).last() == all[n - 1]);
        }
        if text_eq(entries[n - 1].0.as_str(), key) {
            return Some(entries[n - 1].1.clone());
        }
        n -= 1;
    }
    None
}

/// What stands where an entry was put.
proof fn lemma_entry_put(entries: Entries, e: (Text, Text), p: int)
    requires
        0 <= p <= entries.len(),
        p > 0 ==> text_le(entries[p - 1].0, e.0),
        forall|j: int| p <= j < entries.len() ==> !text_le((#[trigger] entries[j]).0, e.0),
    ensures
        entry_put(entries, e) == if p > 0 && entries[p - 1].0 == e.0 {
            entries.update(p - 1, e)
        } else {
            entries.insert(p, e)
        },
    decreases entries.len(),
{
    if entries.len() == 0 {
        assert(entries.insert(0, e) =~= seq![e]);
    } else if p == entries.len() {
        assert(entries.update(p - 1, e) =~= entries.drop_last().push(e));
        assert(entries.insert(p, e) =~= entries.push(e));
    } else {
        let front = entries.drop_last();
        lemma_bytes_le_reflexive(encode_utf8(e.0));
        assert(!text_le(entries[entries.len() - 1].0, e.0));
        assert forall|j: int| p <= j < front.len() implies !text_le(
            (#[trigger] front[j]).0,
            e.0,
        ) by {
            assert(front[j] == entries[j]);
        }
        lemma_entry_put(front, e, p);
        if p > 0 && entries[p - 1].0 == e.0 {
            assert(front.update(p - 1, e).push(entries.last()) =~= entries.update(p - 1, e));
        } else {
            assert(front.insert(p, e).push(entries.last()) =~= entries.insert(p, e));
        }
    }
}

/// Putting an entry keeps the keys rising, and changes the value of its key alone.
proof fn lemma_entry_put_rises(entries: Entries, e: (Text, Text), key: Text)
    ensures
        keys_rise(entries) ==> keys_rise(entry_put(entries, e)),
        forall|i: int|
            0 <= i < entry_put(entries, e).len() ==> #[trigger] entry_put(entries, e)[i] == e
                || entries.contains(entry_put(entries, e)[i]),
        value_of(entry_put(entries, e), key) == if key == e.0 {
            Some(e.1)
        } else {
            value_of(entries, key)
        },
    decreases entries.len(),
{
    let r = entry_put(entries, e);
    if entries.len() > 0 {
        let front = entries.drop_last();
        let last = entries.last();
        assert(entries.contains(last)) by {
            assert(entries[entries.len() - 1] == last);
        }
        assert forall|x: (Text, Text)| front.contains(x) implies entries.contains(x) by {
            let k = choose|k: int| 0 <= k < front.len() && front[k] == x;
            assert(entries[k] == x);
        }
        if last.0 == e.0 {
            assert(r.drop_last() =~= front);
            assert forall|i: int| 0 <= i < r.len() implies #[trigger] r[i] == e
                || entries.contains(r[i]) by {
                if i < front.len() {
                    assert(entries[i] == r[i]);
                }
            }
        } else if text_le(last.0, e.0) {
            assert(r.drop_last() =~= entries);
            assert forall|i: int| 0 <= i < r.len() implies #[trigger] r[i] == e
                || entries.contains(r[i]) by {
                if i < entries.len() {
                    assert(entries[i] == r[i]);
                }
            }
            if keys_rise(entries) {
                assert forall|i: int, j: int| 0 <= i < j < r.len() implies text_lt(
                    (#[trigger] r[i]).0,
                    (#[trigger] r[j]).0,
                ) by {
                    if j == entries.len() && i < entries.len() - 1 {
                        assert(text_lt(entries[i].0, entries[entries.len() - 1].0));
                        lemma_text_lt(entries[i].0, last.0, e.0);
                    }
                }
            }
        } else {
            lemma_entry_put_rises(front, e, key);
            let put = entry_put(front, e);
            assert(r.drop_last() =~= put);
            assert forall|i: int| 0 <= i < r.len() implies #[trigger] r[i] == e
                || entries.contains(r[i]) by {
                if i < put.len() {
                    assert(r[i] == put[i]);
                }
            }
            if keys_rise(entries) {
                assert(keys_rise(front)) by {
                    assert forall|i: int, j: int| 0 <= i < j < front.len() implies text_lt(
                        (#[trigger] front[i]).0,
                        (#[trigger] front[j]).0,
                    ) by {
                        assert(front[i] == entries[i] && front[j] == entries[j]);
                    }
                }
                assert forall|i: int, j: int| 0 <= i < j < r.len() implies text_lt(
                    (#[trigger] r[i]).0,
                    (#[trigger] r[j]).0,
                ) by {
                    assert(r[i] == put[i]);
                    if j < put.len() {
                        assert(r[j] == put[j]);
                    } else if put[i] == e {
                        lemma_text_lt(e.0, last.0, last.0);
                    } else {
                        let k = choose|k: int| 0 <= k < front.len() && front[k] == put[i];
                        assert(entries[k] == put[i]);
                        assert(text_lt(entries[k].0, entries[entries.len() - 1].0));
                    }
                }
            }
        }
    } else {
        assert(r.drop_last() =~= entries);
    }
}

/// Entries in the order of their keys rise, each key keeps its value, and entries that rise already
/// stay as they are.
pub proof fn law_by_key(entries: Entries, key: Text)
    ensures
        keys_rise(by_key(entries)),
        value_of(by_key(entries), key) == value_of(entries, key),
        keys_rise(entries) ==> by_key(entries) == entries,
    decreases entries.len(),
{
    if entries.len() > 0 {
        let front = entries.drop_last();
        law_by_key(front, key);
        lemma_entry_put_rises(by_key(front), entries.last(), key);
        if keys_rise(entries) {
            assert forall|i: int, j: int| 0 <= i < j < front.len() implies text_lt(
                (#[trigger] front[i]).0,
                (#[trigger] front[j]).0,
            ) by {
                assert(front[i] == entries[i] && front[j] == entries[j]);
            }
            if front.len() > 0 {
                assert(text_lt(entries[entries.len() - 2].0, entries[entries.len() - 1].0));
                assert(front.last() == entries[entries.len() - 2]);
            }
            assert(entries =~= front.push(entries.last()));
            assert(seq![entries.last()] =~= Seq::empty().push(entries.last()));
            if front.len() == 0 {
                assert(front =~= Seq::empty());
            }
        }
    } else {
        assert(entries =~= Seq::empty());
    }
}

/// Of entries with others behind them, the others' values count.
pub proof fn law_values_behind_count(entries: Entries, behind: Entries, key: Text)
    ensures
        value_of(entries + behind, key) == match value_of(behind, key) {
            Some(value) => Some(value),
            None => value_of(entries, key),
        },
    decreases behind.len(),
{
    if behind.len() == 0 {
        assert(entries + behind =~= entries);
    } else {
        assert((entries + behind).drop_last() =~= entries + behind.drop_last());
        law_values_behind_count(entries, behind.drop_last(), key);
    }
}

/// The same entries once more.
pub fn copy_entries(entries: &Vec<(String, String)>) -> (r: Vec<(String, String)>)
    ensures
        r.deep_view() == entries.deep_view(),
{
    let mut out: Vec<(String, String)> = Vec::new();
    let mut i: usize = 0;
    while i < entries.len()
        invariant
            i <= entries@.len(),
            out@.len() == i,
            forall|j: int|
                0 <= j < i ==> (#[trigger] out@[j]).deep_view() == entries@[j].deep_view(),
        decreases entries@.len() - i,
    {
        out.push((entries[i].0.clone(), entries[i].1.clone()));
        i += 1;
    }
    proof {
        assert(out.deep_view() =~= entries.deep_view());
    }
    out
}

/// Puts an entry at its place.
fn put_entry(entries: &mut Vec<(String, String)>, key: String, value: String)
    ensures
        final(entries).deep_view() == entry_put(old(entries).deep_view(), (key@, value@)),
{
    let ghost before = entries.deep_view();
    let ghost e = (key@, value@);
    let mut p: usize = entries.len();
    while p > 0 && !text_at_most(entries[p - 1].0.as_str(), key.as_str())
        invariant
            p <= entries@.len(),
            before == entries.deep_view(),
            e == (key@, value@),
            forall|j: int| p <= j < before.len() ==> !text_le((#[trigger] before[j]).0, e.0),
        decreases p,
    {
        p -= 1;
    }
    proof {
        lemma_entry_put(before, e, p as int);
    }
    if p > 0 && text_eq(entries[p - 1].0.as_str(), key.as_str()) {
        entries.set(p - 1, (key, value));
        proof {
            assert(entries.deep_view() =~= before.update(p - 1, e));
        }
    } else {
        entries.insert(p, (key, value));
        proof {
            assert(entries.deep_view() =~= before.insert(p as int, e));
        }
    }
}

/// Puts entries in the order of their keys.
pub fn sort_by_key(entries: &Vec<(String, String)>) -> (r: Vec<(String, String)>)
    ensures
        r.deep_view() == by_key(entries.deep_view()),
        keys_rise(r.deep_view()),
{
    let ghost all = entries.deep_view();
    let mut out: Vec<(String, String)> = Vec::new();
    let mut i: usize = 0;
    proof {
        assert(all.take(0) =~= Seq::empty());
        assert(out.deep_view() =~= Seq::empty());
    }
    while i < entries.len()
        invariant
            i <= entries@.len(),
            all == entries.deep_view(),
            out.deep_view() == by_key(all.take(i as int)),
        decreases entries@.len() - i,
    {
        proof {
            assert(all.take(i + 1).drop_last() =~= all.take(i as int));
            assert(all.take(i + 1).last() == all[i as int]);
        }
        put_entry(&mut out, entries[i].0.clone(), entries[i].1.clone());
        i += 1;
    }
    proof {
        assert(all.take(i as int) =~= all);
        law_by_key(all, Seq::empty());
    }
    out
}

/// An object with string values as JSON; of entries with one key the last counts.
pub open spec fn object_text(entries: Entries) -> Text {
    json_object_text(by_key(entries))
}

// ---- values ---------------------------------------------------------------------------------

/// A JSON value.
#[derive(Clone, Debug)]
pub struct Json {
    pub(crate) text: String,
}

impl DeepView for Json {
    type V = Text;

    closed spec fn deep_view(&self) -> Text {
        self.text@
    }
}

impl Json {
    /// The value in `text`, or the message where `text` is no JSON.
    pub fn parse(text: &str) -> (r: Result<Json, String>)
        ensures
            outcome(r) == json_parse(text@),
    {
        match reformat_json(text) {
            Ok(t) => Ok(Json { text: t }),
            Err(e) => Err(e),
        }
    }

    /// The value in `bytes`, where they are JSON.
    pub fn parse_bytes(bytes: &Vec<u8>) -> (r: Option<Json>)
        ensures
            r.deep_view() == json_parse_bytes(bytes@),
    {
        match reformat_json_bytes(bytes) {
            Some(t) => Some(Json { text: t }),
            None => None,
        }
    }

    /// The compact text of the value.
    pub fn to_text(&self) -> (r: String)
        ensures
            r@ == self.deep_view(),
    {
        self.text.clone()
    }

    /// The same value once more.
    pub fn copy(&self) -> (r: Json)
        ensures
            r.deep_view() == self.deep_view(),
    {
        Json { text: self.text.clone() }
    }

    /// A string.
    pub fn string(s: &str) -> (r: Json)
        ensures
            r.deep_view() == json_string_text(s@),
            stable_json(r.deep_view()),
            json_as_string(r.deep_view()) == Some(s@),
    {
        Json { text: string_to_json(s) }
    }

    /// A list of strings.
    pub fn strings(items: &Vec<String>) -> (r: Json)
        ensures
            r.deep_view() == json_list_text(items.deep_view()),
            stable_json(r.deep_view()),
    {
        Json { text: list_to_json(items) }
    }

    /// An object with string values; of entries with one key the last counts. Its members are those
    /// entries.
    pub fn object(entries: &Vec<(String, String)>) -> (r: Json)
        ensures
            r.deep_view() == object_text(entries.deep_view()),
            stable_json(r.deep_view()),
            r.deep_view().len() >= 2,
            holds_map(r.deep_view(), by_key(entries.deep_view())),
            string_args(r.deep_view()) == by_key(entries.deep_view()),
    {
        let sorted: Vec<(String, String)> = sort_by_key(entries);
        proof {
            lemma_all_strings(sorted.deep_view());
        }
        Json { text: object_to_json(&sorted) }
    }

    /// The value `null`.
    pub fn null() -> (r: Json)
        ensures
            r.deep_view() == "null"@,
            stable_json(r.deep_view()),
            json_as_string(r.deep_view()) is None,
    {
        Json { text: null_to_json() }
    }

    /// The object without members.
    pub fn empty_object() -> (r: Json)
        ensures
            r.deep_view() == "{}"@,
            stable_json(r.deep_view()),
            string_args(r.deep_view()) == Seq::<(Text, Text)>::empty(),
    {
        let none: Vec<(String, String)> = Vec::new();
        proof {
            assert(none.deep_view() =~= Seq::empty());
            lemma_all_strings(none.deep_view());
        }
        Json { text: object_to_json(&none) }
    }
}

/// The members whose value is a string.
pub open spec fn string_members(members: Seq<(Text, Option<Text>)>) -> Entries
    decreases members.len(),
{
    if members.len() == 0 {
        Seq::empty()
    } else {
        let rest = string_members(members.drop_last());
        match members.last().1 {
            Some(v) => rest.push((members.last().0, v)),
            None => rest,
        }
    }
}

/// All members are kept where all values are strings.
proof fn lemma_all_strings(entries: Entries)
    ensures
        string_members(all_strings(entries)) == entries,
    decreases entries.len(),
{
    if entries.len() > 0 {
        lemma_all_strings(entries.drop_last());
        assert(all_strings(entries).drop_last() =~= all_strings(entries.drop_last()));
        assert(entries =~= entries.drop_last().push(entries.last()));
    } else {
        assert(entries =~= Seq::empty());
    }
}

/// The string-valued members of the object in `text`; none where it holds no object.
pub open spec fn string_args(text: Text) -> Entries {
    match json_members(text) {
        Some(members) => string_members(members),
        None => Seq::empty(),
    }
}

/// Picks the members whose value is a string.
pub fn keep_string_members(members: &Vec<(String, Option<String>)>) -> (r: Vec<(String, String)>)
    ensures
        r.deep_view() == string_members(members.deep_view()),
{
    let mut out: Vec<(String, String)> = Vec::new();
    let mut i: usize = 0;
    let ghost all = members.deep_view();
    proof {
        assert(all.take(0) =~= Seq::empty());
        assert(out.deep_view() =~= Seq::empty());
    }
    while i < members.len()
        invariant
            i <= members@.len(),
            all == members.deep_view(),
            out.deep_view() == string_members(all.take(i as int)),
        decreases members@.len() - i,
    {
        let ghost before = out.deep_view();
        proof {
            assert(all.take(i + 1).drop_last() =~= all.take(i as int));
        }
        if let Some(v) = &members[i].1 {
            out.push((members[i].0.clone(), v.clone()));
            proof {
                assert(out.deep_view() =~= before.push((members@[i as int].0@, v@)));
            }
        }
        i += 1;
    }
    proof {
        assert(all.take(members@.len() as int) =~= all);
    }
    out
}

impl Json {
    /// The string-valued members of an object; none where the value is no object.
    pub fn string_entries(&self) -> (r: Vec<(String, String)>)
        ensures
            r.deep_view() == string_args(self.deep_view()),
    {
        match members_in_json(self.text.as_str()) {
            Some(members) => keep_string_members(&members),
            None => {
                let out: Vec<(String, String)> = Vec::new();
                proof {
                    assert(out.deep_view() =~= Seq::empty());
                }
                out
            },
        }
    }

    /// The string that the value is, where it is one.
    pub fn as_string(&self) -> (r: Option<String>)
        ensures
            r.deep_view() == json_as_string(self.deep_view()),
    {
        string_in_json(self.text.as_str())
    }
}

} // verus!
