//! Task queues: the workers that are registered with one, and what they can do.

use vstd::prelude::*;
use vstd::string::*;
use crate::clock::{clock_shows, utc_now, Timestamp};
use crate::db::rows::{changed, find_row, has_key, lemma_changed_keeps_keys, lemma_with_key, unique_keys, with_key, Keyed, Row};
use crate::text::{text_eq, Text};

verus! {

/// A registered worker and the activity types it can handle.
#[derive(Clone, Debug)]
pub struct RegisteredWorker {
    /// Unique identifier for this worker instance.
    pub worker_id: String,
    /// Activity types this worker is capable of executing.
    pub activity_types: Vec<String>,
    /// Timestamp of the last heartbeat from this worker.
    pub last_heartbeat: Timestamp,
}

/// The view of a [`RegisteredWorker`].
#[verifier::ext_equal]
pub struct WorkerView {
    pub worker_id: Text,
    pub activity_types: Seq<Text>,
    pub last_heartbeat: Timestamp,
}

impl DeepView for RegisteredWorker {
    type V = WorkerView;

    open spec fn deep_view(&self) -> WorkerView {
        WorkerView {
            worker_id: self.worker_id@,
            activity_types: self.activity_types.deep_view(),
            last_heartbeat: self.last_heartbeat,
        }
    }
}

impl Keyed for WorkerView {
    open spec fn key(self) -> Text {
        self.worker_id
    }
}

impl Row<WorkerView> for RegisteredWorker {
    fn row_key(&self) -> (r: &str) {
        self.worker_id.as_str()
    }
}

/// In-memory task queue for managing registered workers and their capabilities.
#[derive(Clone, Debug)]
pub struct TaskQueue {
    /// Name of the task queue.
    pub name: String,
    /// Registered workers, each under its own worker_id.
    pub workers: Vec<RegisteredWorker>,
}

/// A worker whose last sign of life is at `now`.
pub open spec fn worker_at(worker_id: Text, activity_types: Seq<Text>, now: Timestamp) -> WorkerView {
    WorkerView { worker_id, activity_types, last_heartbeat: now }
}

/// The workers with one registered: in the place of the one with its ID, or as one more.
pub open spec fn registered(workers: Seq<WorkerView>, worker: WorkerView) -> Seq<WorkerView> {
    if has_key(workers, worker.worker_id) {
        changed(workers, worker.worker_id, |old_worker: WorkerView| worker)
    } else {
        workers.push(worker)
    }
}

/// The workers without the one with an ID.
pub open spec fn unregistered(workers: Seq<WorkerView>, worker_id: Text) -> Seq<WorkerView> {
    workers.filter(|w: WorkerView| w.worker_id != worker_id)
}

/// The worker can handle the activity type.
pub open spec fn handles(worker: WorkerView, activity_type: Text) -> bool {
    worker.activity_types.contains(activity_type)
}

/// Removing the one row with a key leaves the rows with other keys.
proof fn lemma_remove_is_filter(rows: Seq<WorkerView>, worker_id: Text, p: int)
    requires
        unique_keys(rows),
        0 <= p < rows.len(),
        rows[p].worker_id == worker_id,
    ensures
        rows.remove(p) == unregistered(rows, worker_id),
    decreases rows.len(),
{
    reveal(Seq::filter);
    let front = rows.drop_last();
    let test = |w: WorkerView| w.worker_id != worker_id;
    assert forall|i: int, j: int| 0 <= i < j < front.len() implies (#[trigger] front[i]).key() != (
    #[trigger] front[j]).key() by {
        assert(rows[i].key() != rows[j].key());
    }
    if p == rows.len() - 1 {
        assert(rows.remove(p) =~= front);
        lemma_filter_all(front, worker_id);
        assert(front.filter(test) =~= front) by {
            assert forall|i: int| 0 <= i < front.len() implies (#[trigger] front[i]).worker_id
                != worker_id by {
                assert(rows[i].key() != rows[p].key());
            }
            lemma_filter_all(front, worker_id);
        }
    } else {
        assert(front[p] == rows[p]);
        lemma_remove_is_filter(front, worker_id, p);
        assert(rows[p].key() != rows[rows.len() - 1].key());
        assert(rows.remove(p) =~= front.remove(p).push(rows.last()));
    }
}

/// Where no row has a key, all are left.
proof fn lemma_filter_all(rows: Seq<WorkerView>, worker_id: Text)
    ensures
        (forall|i: int| 0 <= i < rows.len() ==> (#[trigger] rows[i]).worker_id != worker_id)
            ==> unregistered(rows, worker_id) == rows,
    decreases rows.len(),
{
    reveal(Seq::filter);
    if rows.len() > 0 && (forall|i: int|
        0 <= i < rows.len() ==> (#[trigger] rows[i]).worker_id != worker_id) {
        let front = rows.drop_last();
        assert forall|i: int| 0 <= i < front.len() implies (#[trigger] front[i]).worker_id
            != worker_id by {
            assert(front[i] == rows[i]);
        }
        lemma_filter_all(front, worker_id);
        assert(rows[rows.len() - 1].worker_id != worker_id);
        assert(front.push(rows.last()) =~= rows);
    }
}

impl TaskQueue {
    /// No two workers have one ID.
    pub open spec fn wf(self) -> bool {
        unique_keys(self.workers.deep_view())
    }

    /// Create a new empty task queue with the given name.
    pub fn new(name: &str) -> (r: TaskQueue)
        ensures
            r.wf(),
            r.name@ == name@,
            r.workers.deep_view() == Seq::<WorkerView>::empty(),
    {
        let r: TaskQueue = TaskQueue { name: name.to_owned(), workers: Vec::new() };
        proof {
            assert(r.workers.deep_view() =~= Seq::empty());
        }
        r
    }

    /// Register a worker at `now` with the activity types it can handle.
    pub fn register_worker_at(&mut self, worker_id: String, activity_types: Vec<String>, now: &Timestamp)
        requires
            old(self).wf(),
        ensures
            final(self).wf(),
            final(self).name == old(self).name,
            final(self).workers.deep_view() == registered(
                old(self).workers.deep_view(),
                worker_at(worker_id@, activity_types.deep_view(), *now),
            ),
    {
        let ghost before = self.workers.deep_view();
        let worker: RegisteredWorker = RegisteredWorker {
            worker_id,
            activity_types,
            last_heartbeat: *now,
        };
        let ghost view = worker.deep_view();
        proof {
            lemma_with_key(before, view.worker_id);
        }
        match find_row(&self.workers, worker.worker_id.as_str()) {
            Some(p) => {
                self.workers.set(p, worker);
                proof {
                    let change = |old_worker: WorkerView| view;
                    assert forall|i: int| 0 <= i < before.len() && i != p implies (
                    #[trigger] before[i]).key() != view.worker_id by {
                        assert(before[p as int].key() == view.worker_id);
                    }
                    assert(self.workers.deep_view() =~= changed(before, view.worker_id, change));
                    assert forall|i: int, j: int|
                        0 <= i < j < self.workers.deep_view().len() implies (
                    #[trigger] self.workers.deep_view()[i]).key() != (
                    #[trigger] self.workers.deep_view()[j]).key() by {
                        assert(before[i].key() != before[j].key());
                    }
                }
            },
            None => {
                self.workers.push(worker);
                proof {
                    assert(self.workers.deep_view() =~= before.push(view));
                    assert forall|i: int, j: int|
                        0 <= i < j < self.workers.deep_view().len() implies (
                    #[trigger] self.workers.deep_view()[i]).key() != (
                    #[trigger] self.workers.deep_view()[j]).key() by {
                        assert(before[i].key() != view.worker_id);
                    }
                }
            },
        }
    }

    /// Register a worker with the activity types it can handle.
    pub fn register_worker(&mut self, worker_id: String, activity_types: Vec<String>)
        requires
            old(self).wf(),
        ensures
            final(self).wf(),
            final(self).name == old(self).name,
            exists|now: Timestamp|
                clock_shows(now) && final(self).workers.deep_view() == registered(
                    old(self).workers.deep_view(),
                    #[trigger] worker_at(worker_id@, activity_types.deep_view(), now),
                ),
    {
        let now: Timestamp = utc_now();
        self.register_worker_at(worker_id, activity_types, &now)
    }

    /// Remove a registered worker by ID.
    pub fn unregister_worker(&mut self, worker_id: &str) -> (r: Option<RegisteredWorker>)
        requires
            old(self).wf(),
        ensures
            final(self).wf(),
            final(self).name == old(self).name,
            r.deep_view() == with_key(old(self).workers.deep_view(), worker_id@),
            final(self).workers.deep_view() == unregistered(
                old(self).workers.deep_view(),
                worker_id@,
            ),
    {
        let ghost before = self.workers.deep_view();
        match find_row(&self.workers, worker_id) {
            Some(p) => {
                proof {
                    lemma_remove_is_filter(before, worker_id@, p as int);
                }
                let worker: RegisteredWorker = self.workers.remove(p);
                proof {
                    assert(self.workers.deep_view() =~= before.remove(p as int));
                    assert forall|i: int, j: int|
                        0 <= i < j < self.workers.deep_view().len() implies (
                    #[trigger] self.workers.deep_view()[i]).key() != (
                    #[trigger] self.workers.deep_view()[j]).key() by {
                        let a = if i < p { i } else { i + 1 };
                        let b = if j < p { j } else { j + 1 };
                        assert(before[a].key() != before[b].key());
                    }
                }
                Some(worker)
            },
            None => {
                proof {
                    assert forall|i: int| 0 <= i < before.len() implies (
                    #[trigger] before[i]).worker_id != worker_id@ by {
                        if before[i].key() == worker_id@ {
                            assert(has_key(before, worker_id@));
                        }
                    }
                    lemma_filter_all(before, worker_id@);
                }
                None
            },
        }
    }

    /// Update the heartbeat timestamp for an existing worker to `now`.
    pub fn update_heartbeat_at(&mut self, worker_id: &str, now: &Timestamp) -> (r: bool)
        requires
            old(self).wf(),
        ensures
            final(self).wf(),
            final(self).name == old(self).name,
            r == has_key(old(self).workers.deep_view(), worker_id@),
            final(self).workers.deep_view() == beaten_at(
                old(self).workers.deep_view(),
                worker_id@,
                *now,
            ),
    {
        let ghost before = self.workers.deep_view();
        let ghost change = |w: WorkerView| WorkerView { last_heartbeat: *now, ..w };
        proof {
            lemma_with_key(before, worker_id@);
            lemma_changed_keeps_keys(before, worker_id@, change);
        }
        match find_row(&self.workers, worker_id) {
            Some(p) => {
                let worker: &mut RegisteredWorker = &mut self.workers[p];
                worker.last_heartbeat = *now;
                proof {
                    assert forall|i: int| 0 <= i < before.len() && i != p implies (
                    #[trigger] before[i]).key() != worker_id@ by {
                        assert(before[p as int].key() == worker_id@);
                    }
                    assert(self.workers.deep_view() =~= changed(before, worker_id@, change));
                }
                true
            },
            None => {
                proof {
                    assert forall|i: int| 0 <= i < before.len() implies (
                    #[trigger] before[i]).key() != worker_id@ by {
                        if before[i].key() == worker_id@ {
                            assert(has_key(before, worker_id@));
                        }
                    }
                    assert(changed(before, worker_id@, change) =~= before);
                }
                false
            },
        }
    }

    /// Update the heartbeat timestamp for an existing worker.
    pub fn update_heartbeat(&mut self, worker_id: &str) -> (r: bool)
        requires
            old(self).wf(),
        ensures
            final(self).wf(),
            final(self).name == old(self).name,
            r == has_key(old(self).workers.deep_view(), worker_id@),
            exists|now: Timestamp|
                clock_shows(now) && final(self).workers.deep_view() == #[trigger] beaten_at(
                    old(self).workers.deep_view(),
                    worker_id@,
                    now,
                ),
    {
        let now: Timestamp = utc_now();
        self.update_heartbeat_at(worker_id, &now)
    }

    /// Whether a worker can handle the activity type.
    fn worker_handles(worker: &RegisteredWorker, activity_type: &str) -> (r: bool)
        ensures
            r == handles(worker.deep_view(), activity_type@),
    {
        let ghost types = worker.activity_types.deep_view();
        let mut i: usize = 0;
        while i < worker.activity_types.len()
            invariant
                i <= worker.activity_types@.len(),
                types == worker.activity_types.deep_view(),
                forall|j: int| 0 <= j < i ==> #[trigger] types[j] != activity_type@,
            decreases types.len() - i,
        {
            if text_eq(worker.activity_types[i].as_str(), activity_type) {
                proof {
                    assert(types[i as int] == activity_type@);
                }
                return true;
            }
            i += 1;
        }
        false
    }

    /// Check whether any registered worker can handle the given activity type.
    pub fn has_handler(&self, activity_type: &str) -> (r: bool)
        ensures
            r == exists|i: int|
                0 <= i < self.workers@.len() && handles(
                    #[trigger] self.workers.deep_view()[i],
                    activity_type@,
                ),
    {
        let mut i: usize = 0;
        while i < self.workers.len()
            invariant
                i <= self.workers@.len(),
                forall|j: int|
                    0 <= j < i ==> !handles(
                        #[trigger] self.workers.deep_view()[j],
                        activity_type@,
                    ),
            decreases self.workers@.len() - i,
        {
            if TaskQueue::worker_handles(&self.workers[i], activity_type) {
                proof {
                    assert(handles(self.workers.deep_view()[i as int], activity_type@));
                }
                return true;
            }
            i += 1;
        }
        false
    }

    /// Get all workers that can handle a specific activity type.
    pub fn get_handlers(&self, activity_type: &str) -> (r: Vec<&RegisteredWorker>)
        ensures
            r.deep_view() == self.workers.deep_view().filter(
                |w: WorkerView| handles(w, activity_type@),
            ),
    {
        let ghost rows = self.workers.deep_view();
        let ghost test = |w: WorkerView| handles(w, activity_type@);
        let mut out: Vec<&RegisteredWorker> = Vec::new();
        let mut i: usize = 0;
        proof {
            reveal(Seq::filter);
            assert(rows.take(0) =~= Seq::empty());
            assert(out.deep_view() =~= Seq::empty());
        }
        while i < self.workers.len()
            invariant
                i <= self.workers@.len(),
                rows == self.workers.deep_view(),
                test == (|w: WorkerView| handles(w, activity_type@)),
                out.deep_view() == rows.take(i as int).filter(test),
            decreases rows.len() - i,
        {
            proof {
                reveal(Seq::filter);
                assert(rows.take(i + 1).drop_last() =~= rows.take(i as int));
                assert(rows.take(i + 1).last() == rows[i as int]);
            }
            if TaskQueue::worker_handles(&self.workers[i], activity_type) {
                let ghost done = out.deep_view();
                out.push(&self.workers[i]);
                proof {
                    assert(out.deep_view() =~= done.push(rows[i as int]));
                }
            }
            i += 1;
        }
        proof {
            assert(rows.take(i as int) =~= rows);
        }
        out
    }

    /// Get a registered worker by ID.
    pub fn get_worker(&self, worker_id: &str) -> (r: Option<&RegisteredWorker>)
        ensures
            r.deep_view() == with_key(self.workers.deep_view(), worker_id@),
    {
        match find_row(&self.workers, worker_id) {
            Some(p) => Some(&self.workers[p]),
            None => None,
        }
    }

    /// Return the number of registered workers.
    pub fn worker_count(&self) -> (r: usize)
        ensures
            r == self.workers.deep_view().len(),
    {
        self.workers.len()
    }
}

/// The workers with a heartbeat of one of them.
pub open spec fn beaten_at(workers: Seq<WorkerView>, worker_id: Text, now: Timestamp) -> Seq<WorkerView> {
    changed(workers, worker_id, |w: WorkerView| WorkerView { last_heartbeat: now, ..w })
}

/// A registered worker is found under its ID, and all others as before; the number of workers
/// grows only where the ID was new.
pub proof fn law_registered_is_found(workers: Seq<WorkerView>, worker: WorkerView, other: Text)
    ensures
        with_key(registered(workers, worker), worker.worker_id) == Some(worker),
        other != worker.worker_id ==> with_key(registered(workers, worker), other) == with_key(
            workers,
            other,
        ),
        registered(workers, worker).len() == workers.len() + if has_key(
            workers,
            worker.worker_id,
        ) {
            0int
        } else {
            1int
        },
{
    lemma_with_key(workers, worker.worker_id);
    lemma_with_key(workers, other);
    if has_key(workers, worker.worker_id) {
        lemma_replaced(workers, worker, worker.worker_id);
        lemma_replaced(workers, worker, other);
    } else {
        crate::db::rows::lemma_with_key_push(workers, worker, worker.worker_id);
        crate::db::rows::lemma_with_key_push(workers, worker, other);
    }
}

proof fn lemma_replaced(workers: Seq<WorkerView>, worker: WorkerView, other: Text)
    ensures
        with_key(changed(workers, worker.worker_id, |old_worker: WorkerView| worker), other)
            == if other == worker.worker_id && has_key(workers, other) {
            Some(worker)
        } else {
            with_key(workers, other)
        },
    decreases workers.len(),
{
    let change = |old_worker: WorkerView| worker;
    let after = changed(workers, worker.worker_id, change);
    lemma_with_key(workers, other);
    if workers.len() > 0 {
        assert(after.drop_first() =~= changed(workers.drop_first(), worker.worker_id, change));
        lemma_replaced(workers.drop_first(), worker, other);
        lemma_with_key(workers.drop_first(), other);
        assert(after[0] == if workers[0].key() == worker.worker_id {
            worker
        } else {
            workers[0]
        });
    }
}

/// A worker that was taken out is no longer found, and all others are.
pub proof fn law_unregistered_is_gone(workers: Seq<WorkerView>, worker_id: Text, other: Text)
    ensures
        with_key(unregistered(workers, worker_id), worker_id) is None,
        other != worker_id ==> with_key(unregistered(workers, worker_id), other) == with_key(
            workers,
            other,
        ),
    decreases workers.len(),
{
    reveal(Seq::filter);
    if workers.len() > 0 {
        let front = workers.drop_last();
        law_unregistered_is_gone(front, worker_id, other);
        let kept = unregistered(front, worker_id);
        assert(workers =~= front.push(workers.last()));
        crate::db::rows::lemma_with_key_push(front, workers.last(), other);
        crate::db::rows::lemma_with_key_push(kept, workers.last(), other);
        crate::db::rows::lemma_with_key_push(kept, workers.last(), worker_id);
        lemma_with_key(front, other);
        lemma_with_key(kept, other);
        lemma_with_key(kept, worker_id);
    }
}

} // verus!
