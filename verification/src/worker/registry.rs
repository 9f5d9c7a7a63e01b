//! Activity registry: maps activity names to handler instances.

use vstd::prelude::*;
use vstd::string::*;
use crate::text::{text_eq, Text};

verus! {

/// A handler under the name of its activity.
#[derive(Debug)]
struct Registration<H> {
    name: String,
    handler: H,
}

/// The registered activity handlers, each under its own name.
#[derive(Debug)]
pub struct ActivityRegistry<H> {
    handlers: Vec<Registration<H>>,
}

/// No two entries have one name.
spec fn apart<H>(entries: Seq<Registration<H>>) -> bool {
    forall|i: int, j: int|
        0 <= i < j < entries.len() ==> (#[trigger] entries[i]).name@ != (
        #[trigger] entries[j]).name@
}

/// The handler under each name.
spec fn by_name<H>(entries: Seq<Registration<H>>) -> Map<Text, H>
    decreases entries.len(),
{
    if entries.len() == 0 {
        Map::empty()
    } else {
        by_name(entries.drop_last()).insert(entries.last().name@, entries.last().handler)
    }
}

proof fn lemma_by_name<H>(entries: Seq<Registration<H>>)
    requires
        apart(entries),
    ensures
        by_name(entries).dom().finite(),
        by_name(entries).dom().len() == entries.len(),
        forall|i: int|
            0 <= i < entries.len() ==> by_name(entries).contains_key(
                (#[trigger] entries[i]).name@,
            ) && by_name(entries)[entries[i].name@] == entries[i].handler,
        forall|name: Text| #[trigger]
            by_name(entries).contains_key(name) ==> exists|i: int|
                0 <= i < entries.len() && (#[trigger] entries[i]).name@ == name,
    decreases entries.len(),
{
    if entries.len() > 0 {
        let front = entries.drop_last();
        assert forall|i: int, j: int| 0 <= i < j < front.len() implies (
        #[trigger] front[i]).name@ != (#[trigger] front[j]).name@ by {
            assert(entries[i].name@ != entries[j].name@);
        }
        lemma_by_name(front);
        let last = entries.last().name@;
        assert(!by_name(front).contains_key(last)) by {
            if by_name(front).contains_key(last) {
                let i = choose|i: int| 0 <= i < front.len() && (#[trigger] front[i]).name@ == last;
                assert(entries[i].name@ != entries[entries.len() - 1].name@);
            }
        }
        assert(by_name(entries).dom() =~= by_name(front).dom().insert(last));
        assert forall|i: int| 0 <= i < entries.len() implies by_name(entries).contains_key(
            (#[trigger] entries[i]).name@,
        ) && by_name(entries)[entries[i].name@] == entries[i].handler by {
            if i < front.len() {
                assert(front[i] == entries[i]);
                assert(entries[i].name@ != entries[entries.len() - 1].name@);
            }
        }
        assert forall|name: Text| #[trigger] by_name(entries).contains_key(name) implies exists|
            i: int,
        |
            0 <= i < entries.len() && (#[trigger] entries[i]).name@ == name by {
            if name == last {
                assert(entries[entries.len() - 1].name@ == name);
            } else {
                assert(by_name(front).contains_key(name));
                let i = choose|i: int| 0 <= i < front.len() && (#[trigger] front[i]).name@ == name;
                assert(entries[i].name@ == name);
            }
        }
    }
}

impl<H> ActivityRegistry<H> {
    /// No two handlers have one name.
    pub closed spec fn wf(self) -> bool {
        apart(self.handlers@)
    }

    /// The handler under each registered name.
    pub closed spec fn registered(self) -> Map<Text, H> {
        by_name(self.handlers@)
    }

    /// The registered names are finitely many.
    pub proof fn law_names_are_finite(self)
        requires
            self.wf(),
        ensures
            self.registered().dom().finite(),
    {
        lemma_by_name(self.handlers@);
    }

    /// A registry without handlers.
    pub fn new() -> (r: ActivityRegistry<H>)
        ensures
            r.wf(),
            r.registered() == Map::<Text, H>::empty(),
            r.registered().dom().finite(),
    {
        ActivityRegistry { handlers: Vec::new() }
    }

    /// The place of a name.
    fn find(&self, name: &str) -> (r: Option<usize>)
        requires
            self.wf(),
        ensures
            match r {
                Some(i) => i < self.handlers@.len() && self.handlers@[i as int].name@ == name@
                    && self.registered().contains_key(name@) && self.registered()[name@]
                    == self.handlers@[i as int].handler,
                None => !self.registered().contains_key(name@) && forall|j: int|
                    0 <= j < self.handlers@.len() ==> (#[trigger] self.handlers@[j]).name@
                        != name@,
            },
    {
        let mut i: usize = 0;
        proof {
            lemma_by_name(self.handlers@);
        }
        while i < self.handlers.len()
            invariant
                i <= self.handlers@.len(),
                forall|j: int|
                    0 <= j < i ==> (#[trigger] self.handlers@[j]).name@ != name@,
                forall|i: int|
                    0 <= i < self.handlers@.len() ==> self.registered().contains_key(
                        (#[trigger] self.handlers@[i]).name@,
                    ) && self.registered()[self.handlers@[i].name@] == self.handlers@[i].handler,
            decreases self.handlers@.len() - i,
        {
            if text_eq(self.handlers[i].name.as_str(), name) {
                return Some(i);
            }
            i += 1;
        }
        None
    }

    /// Register a handler for an activity type name; one that was there under the name goes.
    pub fn register(&mut self, name: &str, handler: H)
        requires
            old(self).wf(),
        ensures
            final(self).wf(),
            final(self).registered() == old(self).registered().insert(name@, handler),
            final(self).registered().dom().finite(),
            final(self).registered().dom().len() == old(self).registered().dom().len() + if old(self).registered().contains_key(name@) {
                0nat
            } else {
                1nat
            },
    {
        let entry: Registration<H> = Registration { name: name.to_owned(), handler };
        let ghost before = self.handlers@;
        match self.find(name) {
            Some(p) => {
                self.handlers.set(p, entry);
                proof {
                    assert(self.handlers@[p as int] == entry);
                }
            },
            None => {
                self.handlers.push(entry);
                proof {
                    assert(self.handlers@[before.len() as int] == entry);
                }
            },
        }
        proof {
            assert forall|i: int, j: int| 0 <= i < j < self.handlers@.len() implies (
            #[trigger] self.handlers@[i]).name@ != (#[trigger] self.handlers@[j]).name@ by {
                if j < before.len() {
                    assert(before[i].name@ != before[j].name@);
                }
            }
            lemma_by_name(before);
            lemma_by_name(self.handlers@);
            let target = old(self).registered().insert(name@, handler);
            assert forall|key: Text| #[trigger] self.registered().contains_key(key)
                == target.contains_key(key) by {
                lemma_same_names(before, self.handlers@, key, name@);
            }
            assert forall|key: Text| #[trigger]
                self.registered().contains_key(key) implies self.registered()[key] == target[key] by {
                let i = choose|i: int|
                    0 <= i < self.handlers@.len() && (#[trigger] self.handlers@[i]).name@ == key;
                if key != name@ {
                    assert(before[i].name@ == key);
                }
            }
            assert(self.registered() =~= target);
        }
    }

    /// Look up a handler by activity type name.
    pub fn get(&self, name: &str) -> (r: Option<&H>)
        requires
            self.wf(),
        ensures
            match r {
                Some(handler) => self.registered().contains_key(name@) && *handler
                    == self.registered()[name@],
                None => !self.registered().contains_key(name@),
            },
    {
        match self.find(name) {
            Some(i) => Some(&self.handlers[i].handler),
            None => None,
        }
    }

    /// Check if an activity type is registered.
    pub fn has(&self, name: &str) -> (r: bool)
        requires
            self.wf(),
        ensures
            r == self.registered().contains_key(name@),
    {
        self.find(name).is_some()
    }

    /// Number of registered handlers.
    pub fn len(&self) -> (r: usize)
        requires
            self.wf(),
        ensures
            self.registered().dom().finite(),
            r == self.registered().dom().len(),
    {
        proof {
            lemma_by_name(self.handlers@);
        }
        self.handlers.len()
    }
}

/// After one more name was set, the names are those from before and that one.
proof fn lemma_same_names<H>(
    before: Seq<Registration<H>>,
    after: Seq<Registration<H>>,
    key: Text,
    name: Text,
)
    requires
        apart(before),
        apart(after),
        exists|i: int| 0 <= i < after.len() && (#[trigger] after[i]).name@ == name,
        after.len() >= before.len(),
        forall|i: int|
            0 <= i < before.len() ==> (#[trigger] after[i]).name@ == before[i].name@,
        forall|i: int| before.len() <= i < after.len() ==> (#[trigger] after[i]).name@ == name,
    ensures
        by_name(after).contains_key(key) == (by_name(before).contains_key(key) || key == name),
{
    lemma_by_name(before);
    lemma_by_name(after);
    if by_name(after).contains_key(key) {
        let i = choose|i: int| 0 <= i < after.len() && (#[trigger] after[i]).name@ == key;
        if i < before.len() {
            assert(before[i].name@ == key);
        }
    }
    if by_name(before).contains_key(key) {
        let i = choose|i: int| 0 <= i < before.len() && (#[trigger] before[i]).name@ == key;
        assert(after[i].name@ == key);
    }
    if key == name {
        let i = choose|i: int| 0 <= i < after.len() && (#[trigger] after[i]).name@ == name;
        assert(after[i].name@ == key);
    }
}

} // verus!
