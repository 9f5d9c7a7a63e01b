//! The queue of schedules by the time at which they fire next.

use vstd::prelude::*;
use vstd::string::*;
use crate::clock::Timestamp;
use crate::text::{lemma_bytes_le_reflexive, lemma_bytes_le_total, lemma_bytes_le_transitive, text_at_most, text_le, Text};
use vstd::utf8::encode_utf8;

verus! {

/// An entry of the queue: a schedule, and when it fires next.
#[derive(Debug)]
pub struct ScheduleEntry {
    pub next_fire_time: Timestamp,
    pub schedule_id: String,
}

/// The view of a [`ScheduleEntry`].
#[verifier::ext_equal]
pub struct EntryView {
    pub next_fire_time: Timestamp,
    pub schedule_id: Text,
}

impl DeepView for ScheduleEntry {
    type V = EntryView;

    open spec fn deep_view(&self) -> EntryView {
        EntryView { next_fire_time: self.next_fire_time, schedule_id: self.schedule_id@ }
    }
}

/// `a` comes no later than `b`: by time, and within one time by the ID of the schedule.
pub open spec fn entry_le(a: EntryView, b: EntryView) -> bool {
    ||| b.next_fire_time.after(a.next_fire_time)
    ||| !a.next_fire_time.after(b.next_fire_time) && text_le(a.schedule_id, b.schedule_id)
}

proof fn lemma_entry_order(a: EntryView, b: EntryView, c: EntryView)
    ensures
        entry_le(a, a),
        entry_le(a, b) || entry_le(b, a),
        entry_le(a, b) && entry_le(b, c) ==> entry_le(a, c),
{
    lemma_bytes_le_reflexive(encode_utf8(a.schedule_id));
    lemma_bytes_le_total(encode_utf8(a.schedule_id), encode_utf8(b.schedule_id));
    if text_le(a.schedule_id, b.schedule_id) && text_le(b.schedule_id, c.schedule_id) {
        lemma_bytes_le_transitive(
            encode_utf8(a.schedule_id),
            encode_utf8(b.schedule_id),
            encode_utf8(c.schedule_id),
        );
    }
}

/// Every entry comes no later than those behind it.
pub open spec fn in_sequence(entries: Seq<EntryView>) -> bool {
    forall|i: int, j: int|
        0 <= i < j < entries.len() ==> entry_le(#[trigger] entries[i], #[trigger] entries[j])
}

/// The entries with one more, which stands behind all that come no later than it.
pub open spec fn entry_added(entries: Seq<EntryView>, e: EntryView) -> Seq<EntryView>
    decreases entries.len(),
{
    if entries.len() == 0 || entry_le(entries.last(), e) {
        entries.push(e)
    } else {
        entry_added(entries.drop_last(), e).push(entries.last())
    }
}

/// Adding an entry keeps the sequence, and all entries.
pub proof fn law_entry_added(entries: Seq<EntryView>, e: EntryView)
    requires
        in_sequence(entries),
    ensures
        in_sequence(entry_added(entries, e)),
        entry_added(entries, e).to_multiset() == entries.to_multiset().insert(e),
        entry_added(entries, e).len() == entries.len() + 1,
    decreases entries.len(),
{
    broadcast use vstd::seq_lib::group_to_multiset_ensures;

    let added = entry_added(entries, e);
    if entries.len() == 0 {
        assert(added =~= entries.push(e));
    } else if entry_le(entries.last(), e) {
        assert forall|i: int, j: int| 0 <= i < j < added.len() implies entry_le(
            #[trigger] added[i],
            #[trigger] added[j],
        ) by {
            if j == entries.len() && i < entries.len() - 1 {
                assert(entry_le(entries[i], entries[entries.len() - 1]));
                lemma_entry_order(entries[i], entries.last(), e);
            }
        }
    } else {
        let front = entries.drop_last();
        let last = entries.last();
        assert forall|i: int, j: int| 0 <= i < j < front.len() implies entry_le(
            #[trigger] front[i],
            #[trigger] front[j],
        ) by {
            assert(front[i] == entries[i] && front[j] == entries[j]);
        }
        law_entry_added(front, e);
        lemma_entry_order(e, last, e);
        let less = entry_added(front, e);
        assert forall|i: int| 0 <= i < less.len() implies entry_le(#[trigger] less[i], last) by {
            assert(less.contains(less[i]));
            assert(less.to_multiset().count(less[i]) > 0);
            if less[i] != e {
                assert(front.to_multiset().count(less[i]) > 0);
                assert(front.contains(less[i]));
                let k = choose|k: int| 0 <= k < front.len() && front[k] == less[i];
                assert(entries[k] == less[i]);
                assert(entry_le(entries[k], entries[entries.len() - 1]));
            }
        }
        assert(added =~= less.push(last));
        assert(entries =~= front.push(last));
        assert(less.push(last).to_multiset() =~= front.push(last).to_multiset().insert(e));
    }
}

/// The schedules that wait to fire, the earliest first.
#[derive(Debug)]
pub struct FireQueue {
    entries: Vec<ScheduleEntry>,
}

impl DeepView for FireQueue {
    type V = Seq<EntryView>;

    closed spec fn deep_view(&self) -> Seq<EntryView> {
        self.entries.deep_view()
    }
}

impl FireQueue {
    /// The entries stand in sequence.
    pub open spec fn wf(self) -> bool {
        in_sequence(self.deep_view())
    }

    /// A queue without entries.
    pub fn new() -> (r: FireQueue)
        ensures
            r.wf(),
            r.deep_view() == Seq::<EntryView>::empty(),
    {
        let r: FireQueue = FireQueue { entries: Vec::new() };
        proof {
            assert(r.deep_view() =~= Seq::empty());
        }
        r
    }

    /// Takes all entries out.
    pub fn clear(&mut self)
        ensures
            final(self).wf(),
            final(self).deep_view() == Seq::<EntryView>::empty(),
    {
        self.entries.clear();
        proof {
            assert(self.deep_view() =~= Seq::empty());
        }
    }

    /// The number of entries.
    pub fn len(&self) -> (r: usize)
        ensures
            r == self.deep_view().len(),
    {
        self.entries.len()
    }

    /// When the earliest entry fires.
    pub fn next_fire_time(&self) -> (r: Option<Timestamp>)
        ensures
            r == if self.deep_view().len() == 0 {
                None
            } else {
                Some(self.deep_view()[0].next_fire_time)
            },
    {
        if self.entries.len() == 0 {
            None
        } else {
            Some(self.entries[0].next_fire_time)
        }
    }

    /// Adds an entry.
    pub fn push(&mut self, entry: ScheduleEntry)
        requires
            old(self).wf(),
        ensures
            final(self).wf(),
            final(self).deep_view() == entry_added(old(self).deep_view(), entry.deep_view()),
    {
        let ghost before = self.deep_view();
        let ghost e = entry.deep_view();
        let mut p: usize = self.entries.len();
        while p > 0 && !entry_at_most(&self.entries[p - 1], &entry)
            invariant
                p <= self.entries@.len(),
                before == self.deep_view(),
                e == entry.deep_view(),
                forall|q: int| p <= q < before.len() ==> !entry_le(#[trigger] before[q], e),
            decreases p,
        {
            p -= 1;
        }
        proof {
            lemma_added_at(before, e, p as int);
            law_entry_added(before, e);
        }
        self.entries.insert(p, entry);
        proof {
            assert(self.deep_view() =~= before.insert(p as int, e));
        }
    }

    /// Takes the earliest entry out.
    pub fn pop(&mut self) -> (r: Option<ScheduleEntry>)
        requires
            old(self).wf(),
        ensures
            final(self).wf(),
            match r {
                Some(e) => {
                    &&& old(self).deep_view().len() > 0
                    &&& e.deep_view() == old(self).deep_view()[0]
                    &&& final(self).deep_view() == old(self).deep_view().drop_first()
                },
                None => {
                    &&& old(self).deep_view().len() == 0
                    &&& final(self).deep_view() == old(self).deep_view()
                },
            },
    {
        if self.entries.len() == 0 {
            return None;
        }
        let ghost before = self.deep_view();
        let e: ScheduleEntry = self.entries.remove(0);
        proof {
            assert(self.deep_view() =~= before.drop_first());
            assert forall|i: int, j: int| 0 <= i < j < self.deep_view().len() implies entry_le(
                #[trigger] self.deep_view()[i],
                #[trigger] self.deep_view()[j],
            ) by {
                assert(entry_le(before[i + 1], before[j + 1]));
            }
        }
        Some(e)
    }

    /// Takes out every entry whose time has come at `now`, the earliest first, and gives the IDs
    /// of their schedules.
    pub fn take_due(&mut self, now: &Timestamp) -> (r: Vec<String>)
        requires
            old(self).wf(),
        ensures
            final(self).wf(),
            r.deep_view() == due_ids(old(self).deep_view(), *now),
            r@.len() <= old(self).deep_view().len(),
            final(self).deep_view() == old(self).deep_view().skip(r@.len() as int),
            forall|i: int|
                0 <= i < r@.len() ==> (#[trigger] r@[i])@ == old(self).deep_view()[i].schedule_id
                    && !old(self).deep_view()[i].next_fire_time.after(*now),
            forall|i: int|
                0 <= i < final(self).deep_view().len() ==> {
                    let e = #[trigger] final(self).deep_view()[i];
                    e.next_fire_time.after(*now)
                },
    {
        let ghost before = self.deep_view();
        let mut due: Vec<String> = Vec::new();
        proof {
            assert(before.skip(0) =~= before);
        }
        while self.entries.len() > 0 && !self.entries[0].next_fire_time.is_after(now)
            invariant
                self.wf(),
                before == old(self).deep_view(),
                due@.len() <= before.len(),
                self.deep_view() == before.skip(due@.len() as int),
                forall|i: int|
                    0 <= i < due@.len() ==> (#[trigger] due@[i])@ == before[i].schedule_id
                        && !before[i].next_fire_time.after(*now),
            decreases self.entries@.len(),
        {
            proof {
                assert(self.deep_view().len() > 0);
                assert(due@.len() < before.len());
                assert(before.skip(due@.len() as int)[0] == before[due@.len() as int]);
                assert(self.deep_view().drop_first() =~= before.skip(due@.len() as int + 1));
            }
            match self.pop() {
                Some(e) => {
                    due.push(e.schedule_id);
                },
                None => {},
            }
        }
        proof {
            if self.deep_view().len() > 0 {
                let rest = self.deep_view();
                assert(rest[0].next_fire_time.after(*now));
                assert forall|i: int| 0 <= i < rest.len() implies (
                #[trigger] rest[i]).next_fire_time.after(*now) by {
                    if i > 0 {
                        assert(entry_le(rest[0], rest[i]));
                    }
                }
                assert(rest[0] == before[due@.len() as int]);
            }
            assert forall|i: int| 0 <= i < due@.len() implies !(
            #[trigger] before[i]).next_fire_time.after(*now) by {
                assert(due@[i]@ == before[i].schedule_id);
            }
            lemma_due_ids(before, *now, due@.len() as int);
            assert(due.deep_view() =~= due_ids(before, *now));
        }
        due
    }
}

proof fn lemma_added_at(entries: Seq<EntryView>, e: EntryView, p: int)
    requires
        0 <= p <= entries.len(),
        forall|q: int| p <= q < entries.len() ==> !entry_le(#[trigger] entries[q], e),
        p > 0 ==> entry_le(entries[p - 1], e),
    ensures
        entry_added(entries, e) == entries.insert(p, e),
    decreases entries.len(),
{
    if p == entries.len() {
        assert(entries.insert(p, e) =~= entries.push(e));
    } else {
        let front = entries.drop_last();
        assert(!entry_le(entries[entries.len() - 1], e));
        assert forall|q: int| p <= q < front.len() implies !entry_le(#[trigger] front[q], e) by {
            assert(front[q] == entries[q]);
        }
        lemma_added_at(front, e, p);
        assert(front.insert(p, e).push(entries.last()) =~= entries.insert(p, e));
    }
}

/// Two entries, compared.
fn entry_at_most(a: &ScheduleEntry, b: &ScheduleEntry) -> (r: bool)
    ensures
        r == entry_le(a.deep_view(), b.deep_view()),
{
    b.next_fire_time.is_after(&a.next_fire_time) || (!a.next_fire_time.is_after(&b.next_fire_time)
        && text_at_most(a.schedule_id.as_str(), b.schedule_id.as_str()))
}

// ---- what is due ----------------------------------------------------------------------------

/// The IDs of the schedules whose time has come at `now`, the earliest first.
pub open spec fn due_ids(queue: Seq<EntryView>, now: Timestamp) -> Seq<Text>
    decreases queue.len(),
{
    if queue.len() == 0 || queue[0].next_fire_time.after(now) {
        Seq::empty()
    } else {
        seq![queue[0].schedule_id] + due_ids(queue.drop_first(), now)
    }
}

/// What is due stands at the front, up to the first entry whose time has not come.
pub proof fn lemma_due_ids(queue: Seq<EntryView>, now: Timestamp, n: int)
    requires
        0 <= n <= queue.len(),
        forall|i: int| 0 <= i < n ==> !(#[trigger] queue[i]).next_fire_time.after(now),
        n < queue.len() ==> queue[n].next_fire_time.after(now),
    ensures
        due_ids(queue, now) == Seq::new(n as nat, |i: int| queue[i].schedule_id),
    decreases n,
{
    let ids = Seq::new(n as nat, |i: int| queue[i].schedule_id);
    if n == 0 {
        assert(ids =~= Seq::empty());
    } else {
        let rest = queue.drop_first();
        assert forall|i: int| 0 <= i < n - 1 implies !(#[trigger] rest[i]).next_fire_time.after(
            now,
        ) by {
            assert(rest[i] == queue[i + 1]);
        }
        assert(!queue[0].next_fire_time.after(now));
        lemma_due_ids(rest, now, n - 1);
        assert(ids =~= seq![queue[0].schedule_id] + Seq::new(
            (n - 1) as nat,
            |i: int| rest[i].schedule_id,
        ));
    }
}

} // verus!
