//! A session that concurrent workers share. Every step runs under a
//! reader-writer lock whose invariant is the session's well-formedness, so
//! no worker ever sees a cache with a key stored twice or half written, and
//! the results the run started with stay in the cache throughout.

use vstd::prelude::*;
use vstd::rwlock::{RwLock, RwLockPredicate};
use crate::batch::{FilePlan, FileReport, Session, is_save_point};
use crate::cache::{entries_map, keys_distinct, lemma_entries_map_same};
use crate::measure::MeasureError;

verus! {

/// The lock's invariant: the session it guards is well formed, keeps a
/// cache exactly when the run started with one, and that cache holds every
/// result it started with.
pub struct SessionWf<T> {
    pub keeps_cache: bool,
    pub loaded: Ghost<Map<Seq<char>, T>>,
}

impl<T: Copy> RwLockPredicate<Session<T>> for SessionWf<T> {
    open spec fn inv(self, s: Session<T>) -> bool {
        &&& s.wf()
        &&& (s.cached() is Some) == self.keeps_cache
        &&& s.cached() is Some ==> self.loaded@.submap_of(s.cached()->0)
    }
}

/// A session behind a lock, for workers that run at once.
pub struct SharedSession<T: Copy> {
    lock: RwLock<Session<T>, SessionWf<T>>,
}

impl<T: Copy> SharedSession<T> {
    /// Whether the run keeps a cache.
    pub closed spec fn keeps(&self) -> bool {
        self.lock.pred().keeps_cache
    }

    /// The results the cache held when the session was shared.
    pub closed spec fn loaded(&self) -> Map<Seq<char>, T> {
        self.lock.pred().loaded@
    }

    pub fn new(session: Session<T>) -> (r: Self)
        requires
            session.wf(),
        ensures
            r.keeps() == (session.cached() is Some),
            session.cached() is Some ==> r.loaded() == session.cached()->0,
    {
        let ghost loaded = match session.cached() {
            Some(m) => m,
            None => Map::empty(),
        };
        let ghost pred = SessionWf { keeps_cache: session.cached() is Some, loaded: Ghost(loaded) };
        SharedSession { lock: RwLock::new(session, Ghost(pred)) }
    }

    /// `Session::plan`, under the read lock. A run without a cache measures
    /// every file.
    pub fn plan(&self, key: &String) -> (r: FilePlan)
        ensures
            !self.keeps() ==> r == FilePlan::Measure,
            self.keeps() && self.loaded().dom().contains(key@) ==> r == FilePlan::Skip,
    {
        let handle = self.lock.acquire_read();
        let r = handle.borrow().plan(key);
        handle.release_read();
        r
    }

    /// `Session::finish`, under the write lock: a failure is reported as
    /// such, and a new result is the one handed in.
    pub fn finish(&self, index: usize, key: String, outcome: Result<T, MeasureError>) -> (r:
        FileReport<T>)
        ensures
            outcome is Err ==> r == FileReport::<T>::Failed(outcome->Err_0),
            r is Measured ==> outcome is Ok && r->Measured_value == outcome->Ok_0,
            self.keeps() && r is Measured ==> r->Measured_save == is_save_point(index as int),
            self.keeps() && outcome is Ok ==> r is Measured || r is Skipped,
            self.keeps() && self.loaded().dom().contains(key@) ==> !(r is Measured),
            !self.keeps() ==> r == match outcome {
                Ok(v) => FileReport::Measured { value: v, save: false },
                Err(e) => FileReport::Failed(e),
            },
    {
        let (mut session, handle) = self.lock.acquire_write();
        let ghost before = session.cached();
        let r = session.finish(index, key, outcome);
        proof {
            if before is Some {
                let m = before->0;
                assert(m.submap_of(session.cached()->0));
            }
        }
        handle.release_write(session);
        r
    }

    /// Whether the shared run keeps a cache.
    pub fn keeps_cache(&self) -> (r: bool)
        ensures
            r == self.keeps(),
    {
        let handle = self.lock.acquire_read();
        let r = handle.borrow().keeps_cache();
        handle.release_read();
        r
    }

    /// A copy of the entries as they stand, each key once, taken under the
    /// read lock; `None` for a run that keeps no cache. The copy is the
    /// whole cache at one moment, so it holds every result the run started
    /// with.
    pub fn snapshot(&self) -> (r: Option<Vec<(String, T)>>)
        ensures
            r is Some == self.keeps(),
            r is Some ==> keys_distinct(r->0@),
            r is Some ==> self.loaded().submap_of(entries_map(r->0@)),
    {
        let handle = self.lock.acquire_read();
        let r = match handle.borrow().snapshot() {
            Some(entries) => {
                let mut copy: Vec<(String, T)> = Vec::new();
                let mut i: usize = 0;
                while i < entries.len()
                    invariant
                        i <= entries@.len(),
                        keys_distinct(entries@),
                        copy@.len() == i,
                        forall|j: int|
                            0 <= j < i ==> (#[trigger] copy@[j]).0@ == entries@[j].0@ && copy@[j].1
                                == entries@[j].1,
                    decreases entries@.len() - i,
                {
                    copy.push((entries[i].0.clone(), entries[i].1));
                    i = i + 1;
                }
                proof {
                    lemma_entries_map_same(copy@, entries@);
                }
                Some(copy)
            },
            None => None,
        };
        handle.release_read();
        r
    }
}

} // verus!
