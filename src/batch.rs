//! The decisions of a batch run: how a session starts from a snapshot, which
//! files are targets, whether a file is measured, what each finished file
//! reports, and when the cache is saved.

use vstd::prelude::*;
use crate::cache::{ResultCache, entries_map, keys_distinct};
use crate::measure::MeasureError;
use crate::naming::{audio_extension, extension, has_audio_extension};

verus! {

/// A save is due after every this many target indices.
pub const SAVE_STRIDE: usize = 10;

/// Why a run stops before measuring anything.
#[derive(PartialEq, Eq, Structural, Debug, Clone, Copy)]
pub enum RunError {
    PathNotFound,
    MalformedSnapshot,
}

/// What was found where the snapshot of an earlier run is kept.
pub enum SnapshotSource<T> {
    /// No snapshot path was given: results are reported, never stored.
    NotRequested,
    /// A path was given and nothing is there yet.
    Missing,
    /// The snapshot was read; its entries.
    Loaded(Vec<(String, T)>),
    /// The snapshot exists but could not be read as a mapping.
    Malformed,
}

/// Whether a target file is measured.
#[derive(PartialEq, Eq, Structural, Debug, Clone, Copy)]
pub enum FilePlan {
    Skip,
    Measure,
}

/// The one line of outcome that each target file reports.
#[derive(PartialEq, Eq, Debug, Clone, Copy)]
pub enum FileReport<T> {
    /// A result for the key was already there; nothing new is reported.
    Skipped,
    /// A new result; `save` tells whether the cache is to be saved now.
    Measured { value: T, save: bool },
    /// The measurement failed.
    Failed(MeasureError),
}

/// How the target path of a run is read.
#[derive(PartialEq, Eq, Structural, Debug, Clone, Copy)]
pub enum TargetShape {
    /// The path is the one file to measure.
    SingleFile,
    /// The path is a directory whose audio files are measured.
    Directory,
}

/// Reads the target path: a directory is scanned, anything else that exists
/// is measured itself, and a missing path stops the run.
pub fn target_shape(present: bool, is_dir: bool) -> (r: Result<TargetShape, RunError>)
    ensures
        !present ==> r == Err::<TargetShape, RunError>(RunError::PathNotFound),
        present && is_dir ==> r == Ok::<TargetShape, RunError>(TargetShape::Directory),
        present && !is_dir ==> r == Ok::<TargetShape, RunError>(TargetShape::SingleFile),
{
    if !present {
        Err(RunError::PathNotFound)
    } else if is_dir {
        Ok(TargetShape::Directory)
    } else {
        Ok(TargetShape::SingleFile)
    }
}

/// A directory entry: its file name and whether it is a regular file.
pub struct Candidate {
    pub name: String,
    pub is_file: bool,
}

/// Whether a directory entry is measured by a directory scan.
pub open spec fn is_target(c: Candidate) -> bool {
    c.is_file && extension(c.name@) == Some(audio_extension())
}

/// The indices, in order, of the entries of a directory that are measured.
pub fn directory_targets(entries: &Vec<Candidate>) -> (r: Vec<usize>)
    ensures
        forall|a: int, b: int| 0 <= a < b < r@.len() ==> r@[a] < r@[b],
        forall|a: int| 0 <= a < r@.len() ==> r@[a] < entries@.len() && is_target(entries@[r@[a] as int]),
        forall|j: int| 0 <= j < entries@.len() && is_target(#[trigger] entries@[j]) ==> r@.contains(j as usize),
{
    let mut r: Vec<usize> = Vec::new();
    let mut i: usize = 0;
    while i < entries.len()
        invariant
            i <= entries@.len(),
            forall|a: int, b: int| 0 <= a < b < r@.len() ==> r@[a] < r@[b],
            forall|a: int| 0 <= a < r@.len() ==> r@[a] < i && is_target(entries@[r@[a] as int]),
            forall|j: int| 0 <= j < i && is_target(#[trigger] entries@[j]) ==> r@.contains(j as usize),
        decreases entries@.len() - i,
    {
        let e = &entries[i];
        if e.is_file && has_audio_extension(e.name.as_str()) {
            let ghost old_r = r@;
            r.push(i);
            proof {
                assert forall|j: int| 0 <= j < i + 1 && is_target(#[trigger] entries@[j]) implies r@.contains(j as usize) by {
                    if j < i {
                        let k = choose|k: int| 0 <= k < old_r.len() && old_r[k] == j as usize;
                        assert(r@[k] == j as usize);
                    } else {
                        assert(r@[old_r.len() as int] == j as usize);
                    }
                }
            }
        }
        i = i + 1;
    }
    r
}

/// Whether a save is due once the target at `index` has stored a result.
pub open spec fn is_save_point(index: int) -> bool {
    index % (SAVE_STRIDE as int) == 0
}

/// The cache after a finished file: a successful result is stored unless its
/// key already holds one.
pub open spec fn after_file<T>(m: Map<Seq<char>, T>, key: Seq<char>, outcome: Result<T, MeasureError>) -> Map<Seq<char>, T> {
    match outcome {
        Ok(v) => if m.dom().contains(key) {
            m
        } else {
            m.insert(key, v)
        },
        Err(_) => m,
    }
}

/// The report of a finished file, given the cache it finished against.
pub open spec fn report_for<T>(
    m: Map<Seq<char>, T>,
    index: int,
    key: Seq<char>,
    outcome: Result<T, MeasureError>,
) -> FileReport<T> {
    match outcome {
        Ok(v) => if m.dom().contains(key) {
            FileReport::Skipped
        } else {
            FileReport::Measured { value: v, save: is_save_point(index) }
        },
        Err(e) => FileReport::Failed(e),
    }
}

/// The cache after the first `n` files of a run have finished, file `i`
/// under `keys[i]` with `outcomes[i]`.
pub open spec fn run_map<T>(
    m: Map<Seq<char>, T>,
    keys: Seq<Seq<char>>,
    outcomes: Seq<Result<T, MeasureError>>,
    n: int,
) -> Map<Seq<char>, T>
    decreases n,
{
    if n <= 0 {
        m
    } else {
        after_file(run_map(m, keys, outcomes, n - 1), keys[n - 1], outcomes[n - 1])
    }
}

/// The state of one run: the cache, when a snapshot path was given.
pub struct Session<T> {
    cache: Option<ResultCache<T>>,
}

impl<T: Copy> Session<T> {
    pub closed spec fn wf(&self) -> bool {
        match self.cache {
            Some(c) => c.wf(),
            None => true,
        }
    }

    /// The cached results, or `None` for a run that keeps no cache.
    pub closed spec fn cached(&self) -> Option<Map<Seq<char>, T>> {
        match self.cache {
            Some(c) => Some(c@),
            None => None,
        }
    }

    /// Starts a run from what was found at the snapshot path. A malformed
    /// snapshot stops the run before any file is looked at.
    pub fn open(source: SnapshotSource<T>) -> (r: Result<Self, RunError>)
        ensures
            r is Ok ==> r->Ok_0.wf(),
            match source {
                SnapshotSource::NotRequested => r is Ok && r->Ok_0.cached() is None,
                SnapshotSource::Missing => r is Ok && r->Ok_0.cached() == Some(
                    Map::<Seq<char>, T>::empty(),
                ),
                SnapshotSource::Loaded(entries) => r is Ok && r->Ok_0.cached() == Some(
                    entries_map(entries@),
                ),
                SnapshotSource::Malformed => r is Err && r->Err_0 == RunError::MalformedSnapshot,
            },
    {
        match source {
            SnapshotSource::NotRequested => Ok(Session { cache: None }),
            SnapshotSource::Missing => Ok(Session { cache: Some(ResultCache::new()) }),
            SnapshotSource::Loaded(entries) => Ok(
                Session { cache: Some(ResultCache::from_entries(entries)) },
            ),
            SnapshotSource::Malformed => Err(RunError::MalformedSnapshot),
        }
    }

    /// Whether the run keeps a cache.
    pub fn keeps_cache(&self) -> (r: bool)
        ensures
            r == (self.cached() is Some),
    {
        self.cache.is_some()
    }

    /// Whether the file under `key` is measured: it is skipped only when the
    /// cache already holds a result for it.
    pub fn plan(&self, key: &String) -> (r: FilePlan)
        requires
            self.wf(),
        ensures
            r == if self.cached() is Some && self.cached()->0.dom().contains(key@) {
                FilePlan::Skip
            } else {
                FilePlan::Measure
            },
    {
        match &self.cache {
            Some(c) => if c.contains(key) {
                FilePlan::Skip
            } else {
                FilePlan::Measure
            },
            None => FilePlan::Measure,
        }
    }

    /// Records the outcome of the target at `index`, whose key is `key`, and
    /// says what it reports. Without a cache every success is reported and
    /// no save is due.
    pub fn finish(&mut self, index: usize, key: String, outcome: Result<T, MeasureError>) -> (r:
        FileReport<T>)
        requires
            old(self).wf(),
        ensures
            final(self).wf(),
            match old(self).cached() {
                Some(m) => {
                    &&& final(self).cached() == Some(after_file(m, key@, outcome))
                    &&& r == report_for(m, index as int, key@, outcome)
                },
                None => {
                    &&& final(self).cached() is None
                    &&& r == match outcome {
                        Ok(v) => FileReport::Measured { value: v, save: false },
                        Err(e) => FileReport::Failed(e),
                    }
                },
            },
    {
        match outcome {
            Err(e) => FileReport::Failed(e),
            Ok(v) => match &mut self.cache {
                Some(c) => {
                    if c.try_insert(key, v) {
                        FileReport::Measured { value: v, save: index % SAVE_STRIDE == 0 }
                    } else {
                        FileReport::Skipped
                    }
                },
                None => FileReport::Measured { value: v, save: false },
            },
        }
    }

    /// The entries to write to the snapshot, or `None` for a run that keeps
    /// no cache.
    pub fn snapshot(&self) -> (r: Option<&[(String, T)]>)
        requires
            self.wf(),
        ensures
            r is Some == self.cached() is Some,
            r is Some ==> keys_distinct(r->0@) && entries_map(r->0@) == self.cached()->0,
    {
        match &self.cache {
            Some(c) => Some(c.entries()),
            None => None,
        }
    }
}

} // verus!
