//! The job store: the authoritative mapping from job key to job record.
//!
//! The store owns every record; callers receive deep copies, never
//! references. It keeps records in insertion order and holds two
//! invariants: no key occurs twice, and a record carries an output only in
//! the `Success` state.
//!
//! Contracts speak of the store through its view, a sequence of
//! [`JobModel`] values in insertion order.

use vstd::prelude::*;

use crate::compresser;
use crate::compresser::{CompressError, OutputModel, Status};
use crate::format_meta::{detected_format, readable_spec, writable_list, ImageFormat};

verus! {

/// What is known of a job's input file, computed once at creation and
/// never recomputed.
#[derive(Debug)]
pub struct InputMetadata {
    pub path: String,
    pub size_bytes: u64,
    pub detected_format: ImageFormat,
    /// The formats this file can be turned into.
    pub writable_formats: Vec<ImageFormat>,
}

/// The mathematical value of an `InputMetadata` record.
pub ghost struct InputModel {
    pub path: Seq<char>,
    pub size_bytes: u64,
    pub detected_format: ImageFormat,
    pub writable_formats: Seq<ImageFormat>,
}

impl View for InputMetadata {
    type V = InputModel;

    open spec fn view(&self) -> InputModel {
        InputModel {
            path: self.path@,
            size_bytes: self.size_bytes,
            detected_format: self.detected_format,
            writable_formats: self.writable_formats@,
        }
    }
}

impl Clone for InputMetadata {
    fn clone(&self) -> (r: Self)
        ensures
            r@ == self@,
    {
        InputMetadata {
            path: self.path.clone(),
            size_bytes: self.size_bytes,
            detected_format: self.detected_format,
            writable_formats: clone_formats(&self.writable_formats),
        }
    }
}

/// One file's conversion task and its tracked state.
#[derive(Debug)]
pub struct Job {
    pub key: String,
    pub status: Status,
    pub input: InputMetadata,
    pub output: Option<compresser::Result>,
}

/// The mathematical value of a `Job` record.
pub ghost struct JobModel {
    pub key: Seq<char>,
    pub status: Status,
    pub input: InputModel,
    pub output: Option<OutputModel>,
}

/// The model of an optional output record.
pub open spec fn output_model(output: Option<compresser::Result>) -> Option<OutputModel> {
    match output {
        Some(o) => Some(o@),
        None => None,
    }
}

impl View for Job {
    type V = JobModel;

    open spec fn view(&self) -> JobModel {
        JobModel {
            key: self.key@,
            status: self.status,
            input: self.input@,
            output: output_model(self.output),
        }
    }
}

impl Clone for Job {
    fn clone(&self) -> (r: Self)
        ensures
            r@ == self@,
    {
        Job {
            key: self.key.clone(),
            status: self.status,
            input: self.input.clone(),
            output: match &self.output {
                Some(o) => Some(o.clone()),
                None => None,
            },
        }
    }
}

fn clone_formats(v: &Vec<ImageFormat>) -> (r: Vec<ImageFormat>)
    ensures
        r@ == v@,
{
    let mut r: Vec<ImageFormat> = Vec::new();
    let mut i: usize = 0;
    while i < v.len()
        invariant
            i <= v.len(),
            r@ == v@.take(i as int),
        decreases v.len() - i,
    {
        r.push(v[i]);
        proof {
            assert(r@ =~= v@.take(i + 1));
        }
        i = i + 1;
    }
    proof {
        assert(r@ =~= v@);
    }
    r
}

/// The models of a sequence of records, in the same order.
pub open spec fn models_of(jobs: Seq<Job>) -> Seq<JobModel> {
    jobs.map_values(|j: Job| j@)
}

/// No key occurs twice.
pub open spec fn keys_unique(jobs: Seq<JobModel>) -> bool {
    forall|i: int, j: int|
        0 <= i < j < jobs.len() ==> #[trigger] jobs[i].key != #[trigger] jobs[j].key
}

/// Some record carries `key`.
pub open spec fn contains_key(jobs: Seq<JobModel>, key: Seq<char>) -> bool {
    exists|i: int| 0 <= i < jobs.len() && #[trigger] jobs[i].key == key
}

/// The position of the record that carries `key` (meaningful only when
/// `contains_key` holds and keys are unique).
pub open spec fn key_index(jobs: Seq<JobModel>, key: Seq<char>) -> int {
    choose|i: int| 0 <= i < jobs.len() && #[trigger] jobs[i].key == key
}

/// The record that carries `key`.
pub open spec fn job_for(jobs: Seq<JobModel>, key: Seq<char>) -> JobModel {
    jobs[key_index(jobs, key)]
}

/// A record carries an output only in the `Success` state.
pub open spec fn output_consistent(job: JobModel) -> bool {
    job.output is Some ==> job.status == Status::Success
}

/// The store's invariant over its sequence of records.
pub open spec fn store_wf(jobs: Seq<JobModel>) -> bool {
    &&& keys_unique(jobs)
    &&& forall|i: int| 0 <= i < jobs.len() ==> output_consistent(#[trigger] jobs[i])
}

/// A record at a known position is the one `job_for` names.
pub proof fn lemma_key_index(jobs: Seq<JobModel>, key: Seq<char>, i: int)
    requires
        keys_unique(jobs),
        0 <= i < jobs.len(),
        jobs[i].key == key,
    ensures
        contains_key(jobs, key),
        key_index(jobs, key) == i,
        job_for(jobs, key) == jobs[i],
{
    assert(contains_key(jobs, key));
    let j = key_index(jobs, key);
    if j < i {
        assert(jobs[j].key != jobs[i].key);
    } else if j > i {
        assert(jobs[i].key != jobs[j].key);
    }
}

/// The mutex-guarded job map's verified core: a keyed collection of job
/// records in insertion order. Callers wrap it in whatever lock their
/// execution model needs; no operation here blocks.
pub struct JobStore {
    jobs: Vec<Job>,
}

impl View for JobStore {
    type V = Seq<JobModel>;

    closed spec fn view(&self) -> Seq<JobModel> {
        models_of(self.jobs@)
    }
}

impl JobStore {
    /// The store's invariant: unique keys, and outputs only on `Success`.
    pub open spec fn wf(&self) -> bool {
        store_wf(self@)
    }

    /// An empty store.
    pub fn new() -> (r: JobStore)
        ensures
            r@ == Seq::<JobModel>::empty(),
            r.wf(),
    {
        let r = JobStore { jobs: Vec::new() };
        proof {
            assert(r@ =~= Seq::<JobModel>::empty());
        }
        r
    }

    fn find(&self, key: &String) -> (r: Option<usize>)
        ensures
            match r {
                Some(i) => i < self@.len() && self@[i as int].key == key@,
                None => !contains_key(self@, key@),
            },
    {
        let mut i: usize = 0;
        while i < self.jobs.len()
            invariant
                i <= self@.len(),
                self@.len() == self.jobs@.len(),
                forall|j: int| 0 <= j < i ==> #[trigger] self@[j].key != key@,
            decreases self@.len() - i,
        {
            if self.jobs[i].key.eq(key) {
                return Some(i);
            }
            i = i + 1;
        }
        None
    }

    /// Inserts a record for `key` if none exists, computing its input
    /// metadata from the reported file size and the format catalog;
    /// returns a copy of the existing record, unchanged, otherwise.
    /// `stat` carries the file's size in bytes, or `None` when the file
    /// could not be read.
    pub fn create(&mut self, key: String, stat: Option<u64>) -> (r: core::result::Result<
        Job,
        CompressError,
    >)
        requires
            old(self).wf(),
        ensures
            final(self).wf(),
            match r {
                Ok(job) => {
                    if contains_key(old(self)@, key@) {
                        &&& final(self)@ == old(self)@
                        &&& job@ == job_for(old(self)@, key@)
                    } else {
                        &&& stat is Some
                        &&& detected_format(key@) is Some
                        &&& job@.key == key@
                        &&& job@.status == (if readable_spec(job@.input.detected_format) {
                            Status::Initialized
                        } else {
                            Status::Unsupported
                        })
                        &&& job@.input.path == key@
                        &&& job@.input.size_bytes == stat.unwrap()
                        &&& detected_format(key@) == Some(job@.input.detected_format)
                        &&& job@.input.writable_formats == writable_list(
                            job@.input.detected_format,
                        )
                        &&& job@.output is None
                        &&& final(self)@ == old(self)@.push(job@)
                    }
                },
                Err(e) => {
                    &&& final(self)@ == old(self)@
                    &&& !contains_key(old(self)@, key@)
                    &&& match e {
                        CompressError::FilesystemError => stat is None,
                        CompressError::FormatDetectionFailed => stat is Some
                            && detected_format(key@) is None,
                        _ => false,
                    }
                },
            },
    {
        match self.find(&key) {
            Some(i) => {
                proof {
                    lemma_key_index(self@, key@, i as int);
                }
                Ok(self.jobs[i].clone())
            },
            None => {
                let size = match stat {
                    Some(s) => s,
                    None => {
                        return Err(CompressError::FilesystemError);
                    },
                };
                let format = match ImageFormat::from_path(key.as_str()) {
                    Ok(f) => f,
                    Err(_) => {
                        return Err(CompressError::FormatDetectionFailed);
                    },
                };
                let status = if format.readable() {
                    Status::Initialized
                } else {
                    Status::Unsupported
                };
                let input = InputMetadata {
                    path: key.clone(),
                    size_bytes: size,
                    detected_format: format,
                    writable_formats: format.writable_formats(),
                };
                let job = Job { key, status, input, output: None };
                let snapshot = job.clone();
                let ghost before = self@;
                let ghost model = job@;
                self.jobs.push(job);
                proof {
                    assert(self@ =~= before.push(model));
                    assert forall|a: int, b: int| 0 <= a < b < self@.len() implies #[trigger] self@[a].key
                        != #[trigger] self@[b].key by {
                        if b < before.len() {
                            assert(before[a].key != before[b].key);
                        } else {
                            assert(before[a].key != model.key);
                        }
                    }
                }
                Ok(snapshot)
            },
        }
    }

    /// Stores the given record for `key`, replacing an existing record or
    /// appending a new one, and returns a copy of what was stored. This is
    /// an unconditional overwrite: the latest record always wins.
    pub fn update(
        &mut self,
        key: String,
        status: Status,
        input: InputMetadata,
        output: Option<compresser::Result>,
    ) -> (r: Job)
        requires
            old(self).wf(),
            output is Some ==> status == Status::Success,
        ensures
            final(self).wf(),
            r@ == (JobModel {
                key: key@,
                status,
                input: input@,
                output: output_model(output),
            }),
            contains_key(old(self)@, key@) ==> final(self)@ == old(self)@.update(
                key_index(old(self)@, key@),
                r@,
            ),
            !contains_key(old(self)@, key@) ==> final(self)@ == old(self)@.push(r@),
            contains_key(final(self)@, key@),
            job_for(final(self)@, key@) == r@,
    {
        let job = Job { key, status, input, output };
        let snapshot = job.clone();
        let ghost model = job@;
        let ghost before = self@;
        match self.find(&job.key) {
            Some(i) => {
                proof {
                    lemma_key_index(before, model.key, i as int);
                }
                let slot = vstd::std_specs::vec::vec_index_mut(&mut self.jobs, i);
                *slot = job;
                proof {
                    assert(self@ =~= before.update(i as int, model));
                    assert forall|a: int, b: int| 0 <= a < b < self@.len() implies #[trigger] self@[a].key
                        != #[trigger] self@[b].key by {
                        assert(before[a].key != before[b].key);
                    }
                    lemma_key_index(self@, model.key, i as int);
                }
            },
            None => {
                self.jobs.push(job);
                proof {
                    assert(self@ =~= before.push(model));
                    assert forall|a: int, b: int| 0 <= a < b < self@.len() implies #[trigger] self@[a].key
                        != #[trigger] self@[b].key by {
                        if b < before.len() {
                            assert(before[a].key != before[b].key);
                        } else {
                            assert(before[a].key != model.key);
                        }
                    }
                    lemma_key_index(self@, model.key, before.len() as int);
                }
            },
        }
        snapshot
    }

    /// A copy of the record for `key`, when one exists.
    pub fn get(&self, key: &String) -> (r: Option<Job>)
        requires
            self.wf(),
        ensures
            match r {
                Some(job) => contains_key(self@, key@) && job@ == job_for(self@, key@),
                None => !contains_key(self@, key@),
            },
    {
        match self.find(key) {
            Some(i) => {
                proof {
                    lemma_key_index(self@, key@, i as int);
                }
                Some(self.jobs[i].clone())
            },
            None => None,
        }
    }

    /// A deep copy of every record, in insertion order.
    pub fn get_all(&self) -> (r: Vec<Job>)
        ensures
            models_of(r@) == self@,
    {
        let mut r: Vec<Job> = Vec::new();
        let mut i: usize = 0;
        while i < self.jobs.len()
            invariant
                i <= self.jobs@.len(),
                self@.len() == self.jobs@.len(),
                models_of(r@) == self@.take(i as int),
            decreases self.jobs@.len() - i,
        {
            let job = self.jobs[i].clone();
            let ghost prev = models_of(r@);
            let ghost model = job@;
            r.push(job);
            proof {
                assert(models_of(r@) =~= prev.push(model));
                assert(models_of(r@) =~= self@.take(i + 1));
            }
            i = i + 1;
        }
        proof {
            assert(models_of(r@) =~= self@);
        }
        r
    }

    /// Removes every record.
    pub fn clear(&mut self)
        ensures
            final(self)@ == Seq::<JobModel>::empty(),
            final(self).wf(),
    {
        self.jobs.clear();
        proof {
            assert(self@ =~= Seq::<JobModel>::empty());
        }
    }

    /// Removes the record for `key` if one exists; does nothing otherwise.
    pub fn remove(&mut self, key: &String)
        requires
            old(self).wf(),
        ensures
            final(self).wf(),
            contains_key(old(self)@, key@) ==> final(self)@ == old(self)@.remove(
                key_index(old(self)@, key@),
            ),
            !contains_key(old(self)@, key@) ==> final(self)@ == old(self)@,
            !contains_key(final(self)@, key@),
    {
        let ghost before = self@;
        match self.find(key) {
            Some(i) => {
                proof {
                    lemma_key_index(before, key@, i as int);
                }
                self.jobs.remove(i);
                proof {
                    assert(self@ =~= before.remove(i as int));
                    assert forall|a: int, b: int| 0 <= a < b < self@.len() implies #[trigger] self@[a].key
                        != #[trigger] self@[b].key by {
                        let a0 = if a < i { a } else { a + 1 };
                        let b0 = if b < i { b } else { b + 1 };
                        assert(self@[a] == before[a0]);
                        assert(self@[b] == before[b0]);
                        assert(before[a0].key != before[b0].key);
                    }
                    assert forall|a: int| 0 <= a < self@.len() implies #[trigger] self@[a].key
                        != key@ by {
                        let a0 = if a < i { a } else { a + 1 };
                        assert(self@[a] == before[a0]);
                        if a0 < i {
                            assert(before[a0].key != before[i as int].key);
                        } else {
                            assert(before[i as int].key != before[a0].key);
                        }
                    }
                }
            },
            None => {},
        }
    }
}

} // verus!
