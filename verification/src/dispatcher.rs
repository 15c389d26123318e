//! The dispatcher: translates `Create` / `Compress` / `Update` / `Clear`
//! requests into store operations and drives each job through its status
//! transitions.
//!
//! The orchestrator holds the job store and the process-wide compression
//! options. Everything that touches the outside world — reading file
//! sizes, invoking a codec, publishing a notification — is a caller's
//! task: the caller hands results in as plain values (a stat outcome, a
//! codec outcome) and receives the job snapshots to publish. One job's
//! run is the pair `begin_job` (persists `Pending`) / `finish_job`
//! (persists `Success` or `Failed`), with the codec invoked in between.

use vstd::prelude::*;

use crate::compresser;
use crate::compresser::{CompressError, OptionsModel, CompressOptions, Status};
use crate::format_meta::{detected_format, readable_spec, writable_list, ImageFormat, ProcessStrategy};
use crate::store::{
    contains_key, job_for, key_index, keys_unique, models_of, store_wf, InputModel, Job, JobModel,
    JobStore,
};
use crate::strategy::{all_parallel, select_strategy};

verus! {

/// One entry of a `Create` batch: the job key (the source path) and the
/// file's size in bytes as the caller's filesystem reported it, or `None`
/// when the file could not be read.
#[derive(Debug)]
pub struct CreateRequest {
    pub key: String,
    pub stat: Option<u64>,
}

/// One entry of a `Compress` batch: the job key and the format the job
/// is asked to produce.
#[derive(Debug)]
pub struct CompressRequest {
    pub key: String,
    pub target: ImageFormat,
}

/// The mathematical value of a `CompressRequest`.
pub ghost struct RequestModel {
    pub key: Seq<char>,
    pub target: ImageFormat,
}

impl View for CompressRequest {
    type V = RequestModel;

    open spec fn view(&self) -> RequestModel {
        RequestModel { key: self.key@, target: self.target }
    }
}

impl Clone for CompressRequest {
    fn clone(&self) -> (r: Self)
        ensures
            r@ == self@,
    {
        CompressRequest { key: self.key.clone(), target: self.target }
    }
}

/// One inbound request, already parsed from the transport: the tagged
/// union over the four operations, matched exhaustively. A payload whose
/// operation tag is none of these is a parse error at the boundary and
/// never reaches the dispatcher.
#[derive(Debug)]
pub enum Request {
    Create(Vec<CreateRequest>),
    Compress(Vec<CompressRequest>),
    Update(CompressOptions),
    Clear,
}

/// The record a successful `Create` stores for `key`: `Initialized`
/// (or `Unsupported`, were the format unreadable), input metadata
/// computed from the reported size and the catalog, no output.
pub open spec fn created_job_model(key: Seq<char>, size: u64) -> JobModel {
    JobModel {
        key,
        status: if readable_spec(detected_format(key).unwrap()) {
            Status::Initialized
        } else {
            Status::Unsupported
        },
        input: InputModel {
            path: key,
            size_bytes: size,
            detected_format: detected_format(key).unwrap(),
            writable_formats: writable_list(detected_format(key).unwrap()),
        },
        output: None,
    }
}

/// What one `Create` entry does to the store: nothing when the key is
/// already present (insert-if-absent), nothing when the file could not
/// be read or its format is unknown, a new record otherwise.
pub open spec fn create_one_model(
    jobs: Seq<JobModel>,
    key: Seq<char>,
    stat: Option<u64>,
) -> Seq<JobModel> {
    if contains_key(jobs, key) {
        jobs
    } else if stat is None || detected_format(key) is None {
        jobs
    } else {
        jobs.push(created_job_model(key, stat.unwrap()))
    }
}

/// Whether one `Create` entry yields a job record to notify about.
pub open spec fn create_one_ok(jobs: Seq<JobModel>, key: Seq<char>, stat: Option<u64>) -> bool {
    contains_key(jobs, key) || (stat is Some && detected_format(key) is Some)
}

/// The record one successful `Create` entry reports: the existing record
/// when the key is present, the newly created one otherwise.
pub open spec fn create_one_note(
    jobs: Seq<JobModel>,
    key: Seq<char>,
    stat: Option<u64>,
) -> JobModel {
    if contains_key(jobs, key) {
        job_for(jobs, key)
    } else {
        created_job_model(key, stat.unwrap())
    }
}

/// The store after a whole `Create` batch, applied in batch order.
pub open spec fn create_all_model(jobs: Seq<JobModel>, batch: Seq<CreateRequest>) -> Seq<JobModel>
    decreases batch.len(),
{
    if batch.len() == 0 {
        jobs
    } else {
        let prev = create_all_model(jobs, batch.drop_last());
        create_one_model(prev, batch.last().key@, batch.last().stat)
    }
}

/// The notifications a whole `Create` batch emits, in batch order: one
/// per entry that has a record, none for an entry whose creation failed.
pub open spec fn create_notes_model(jobs: Seq<JobModel>, batch: Seq<CreateRequest>) -> Seq<
    JobModel,
>
    decreases batch.len(),
{
    if batch.len() == 0 {
        Seq::empty()
    } else {
        let prev = create_all_model(jobs, batch.drop_last());
        let notes = create_notes_model(jobs, batch.drop_last());
        let key = batch.last().key@;
        let stat = batch.last().stat;
        if create_one_ok(prev, key, stat) {
            notes.push(create_one_note(prev, key, stat))
        } else {
            notes
        }
    }
}

/// The entries of a `Compress` batch that actually run: those whose key
/// has a stored record whose status is not `Success`, in batch order.
/// Dropping `Success` keys makes a repeated `Compress` idempotent;
/// keeping `Failed` keys makes resubmission retry them.
pub open spec fn runnable_model(jobs: Seq<JobModel>, batch: Seq<CompressRequest>) -> Seq<
    RequestModel,
>
    decreases batch.len(),
{
    if batch.len() == 0 {
        Seq::empty()
    } else {
        let prefix = runnable_model(jobs, batch.drop_last());
        let r = batch.last()@;
        if contains_key(jobs, r.key) && job_for(jobs, r.key).status != Status::Success {
            prefix.push(r)
        } else {
            prefix
        }
    }
}

/// The target formats of a run list, in order.
pub open spec fn targets_of(requests: Seq<RequestModel>) -> Seq<ImageFormat> {
    requests.map_values(|r: RequestModel| r.target)
}

/// The models of a sequence of compress requests, in the same order.
pub open spec fn request_models(requests: Seq<CompressRequest>) -> Seq<RequestModel> {
    requests.map_values(|r: CompressRequest| r@)
}

/// The job store and the process-wide compression options, behind one
/// handle. Requests mutate it through the handler methods; a caller that
/// runs jobs from several threads wraps the handle in a lock and holds
/// it only across single calls, never across a codec invocation.
pub struct Orchestrator {
    store: JobStore,
    options: CompressOptions,
}

impl Orchestrator {
    /// The stored job records, in insertion order.
    pub closed spec fn jobs(&self) -> Seq<JobModel> {
        self.store@
    }

    /// The current process-wide compression options.
    pub closed spec fn options_model(&self) -> OptionsModel {
        self.options@
    }

    /// The store's invariant.
    pub open spec fn wf(&self) -> bool {
        store_wf(self.jobs())
    }

    /// A fresh orchestrator with an empty store and the given options.
    pub fn new(options: CompressOptions) -> (r: Orchestrator)
        ensures
            r.jobs() == Seq::<JobModel>::empty(),
            r.options_model() == options@,
            r.wf(),
    {
        Orchestrator { store: JobStore::new(), options }
    }

    /// Handles a `Create` request: creates a record per batch entry where
    /// none exists, and returns the records to publish — one per entry,
    /// whether it was created now or already existed, and none for an
    /// entry whose file could not be read or whose format is unknown (a
    /// failure for one entry never aborts the others).
    pub fn handle_create(&mut self, batch: &Vec<CreateRequest>) -> (notes: Vec<Job>)
        requires
            old(self).wf(),
        ensures
            final(self).wf(),
            final(self).jobs() == create_all_model(old(self).jobs(), batch@),
            models_of(notes@) == create_notes_model(old(self).jobs(), batch@),
            final(self).options_model() == old(self).options_model(),
    {
        let ghost jobs0 = self.jobs();
        let mut notes: Vec<Job> = Vec::new();
        let mut i: usize = 0;
        while i < batch.len()
            invariant
                i <= batch@.len(),
                self.wf(),
                self.jobs() == create_all_model(jobs0, batch@.take(i as int)),
                models_of(notes@) == create_notes_model(jobs0, batch@.take(i as int)),
                self.options_model() == old(self).options_model(),
                old(self).jobs() == jobs0,
            decreases batch@.len() - i,
        {
            let ghost prev = self.jobs();
            let ghost prev_notes = models_of(notes@);
            let key = batch[i].key.clone();
            let stat = batch[i].stat;
            match self.store.create(key, stat) {
                Ok(job) => {
                    let ghost model = job@;
                    notes.push(job);
                    proof {
                        assert(models_of(notes@) =~= prev_notes.push(model));
                        if !contains_key(prev, batch@[i as int].key@) {
                            assert(model =~~= created_job_model(
                                batch@[i as int].key@,
                                batch@[i as int].stat.unwrap(),
                            ));
                        }
                    }
                },
                Err(_) => {},
            }
            proof {
                assert(batch@.take(i + 1).drop_last() =~= batch@.take(i as int));
                assert(batch@.take(i + 1).last() == batch@[i as int]);
            }
            i = i + 1;
        }
        proof {
            assert(batch@.take(batch@.len() as int) =~= batch@);
        }
        notes
    }

    /// Applies the idempotency filter and picks the batch strategy for a
    /// `Compress` request: drops every entry whose stored status is
    /// `Success` or whose key has no record, and chooses `Parallel`
    /// exactly when every remaining entry's target format is
    /// parallel-safe.
    pub fn plan_compress(&self, batch: &Vec<CompressRequest>) -> (r: (
        ProcessStrategy,
        Vec<CompressRequest>,
    ))
        requires
            self.wf(),
        ensures
            request_models(r.1@) == runnable_model(self.jobs(), batch@),
            r.0 == (if all_parallel(targets_of(runnable_model(self.jobs(), batch@))) {
                ProcessStrategy::Parallel
            } else {
                ProcessStrategy::Serial
            }),
    {
        let mut kept: Vec<CompressRequest> = Vec::new();
        let mut targets: Vec<ImageFormat> = Vec::new();
        let mut i: usize = 0;
        while i < batch.len()
            invariant
                i <= batch@.len(),
                self.wf(),
                request_models(kept@) == runnable_model(self.jobs(), batch@.take(i as int)),
                targets@ == targets_of(runnable_model(self.jobs(), batch@.take(i as int))),
            decreases batch@.len() - i,
        {
            let ghost prev = request_models(kept@);
            let run = match self.store.get(&batch[i].key) {
                Some(job) => !matches!(job.status, Status::Success),
                None => false,
            };
            if run {
                kept.push(batch[i].clone());
                targets.push(batch[i].target);
                proof {
                    assert(request_models(kept@) =~= prev.push(batch@[i as int]@));
                    assert(targets@ =~= targets_of(prev.push(batch@[i as int]@)));
                }
            }
            proof {
                assert(batch@.take(i + 1).drop_last() =~= batch@.take(i as int));
                assert(batch@.take(i + 1).last() == batch@[i as int]);
            }
            i = i + 1;
        }
        proof {
            assert(batch@.take(batch@.len() as int) =~= batch@);
        }
        let strategy = select_strategy(&targets);
        (strategy, kept)
    }

    /// Starts one job's run: persists `Pending` with no output and hands
    /// back the record to publish together with the options snapshot the
    /// codec is to use. Returns `None`, changing nothing, when the key
    /// has no record.
    pub fn begin_job(&mut self, key: &String) -> (r: Option<(Job, CompressOptions)>)
        requires
            old(self).wf(),
        ensures
            final(self).wf(),
            final(self).options_model() == old(self).options_model(),
            match r {
                Some((job, opts)) => {
                    &&& contains_key(old(self).jobs(), key@)
                    &&& opts@ == old(self).options_model()
                    &&& job@ == (JobModel {
                        status: Status::Pending,
                        output: None,
                        ..job_for(old(self).jobs(), key@)
                    })
                    &&& final(self).jobs() == old(self).jobs().update(
                        key_index(old(self).jobs(), key@),
                        job@,
                    )
                },
                None => {
                    &&& !contains_key(old(self).jobs(), key@)
                    &&& final(self).jobs() == old(self).jobs()
                },
            },
    {
        match self.store.get(key) {
            Some(job) => {
                let stored = self.store.update(job.key, Status::Pending, job.input, None);
                Some((stored, self.options.clone()))
            },
            None => None,
        }
    }

    /// Finishes one job's run with the codec's outcome: persists
    /// `Success` carrying the output record, or `Failed` with no output,
    /// and hands back the record to publish. Returns `None`, changing
    /// nothing, when the key has no record.
    pub fn finish_job(&mut self, key: &String, outcome: core::result::Result<
        compresser::Result,
        CompressError,
    >) -> (r: Option<Job>)
        requires
            old(self).wf(),
        ensures
            final(self).wf(),
            final(self).options_model() == old(self).options_model(),
            match r {
                Some(job) => {
                    &&& contains_key(old(self).jobs(), key@)
                    &&& job@ == (match outcome {
                        Ok(out) => JobModel {
                            status: Status::Success,
                            output: Some(out@),
                            ..job_for(old(self).jobs(), key@)
                        },
                        Err(_) => JobModel {
                            status: Status::Failed,
                            output: None,
                            ..job_for(old(self).jobs(), key@)
                        },
                    })
                    &&& final(self).jobs() == old(self).jobs().update(
                        key_index(old(self).jobs(), key@),
                        job@,
                    )
                },
                None => {
                    &&& !contains_key(old(self).jobs(), key@)
                    &&& final(self).jobs() == old(self).jobs()
                },
            },
    {
        match self.store.get(key) {
            Some(job) => match outcome {
                Ok(out) => Some(
                    self.store.update(job.key, Status::Success, job.input, Some(out)),
                ),
                Err(_) => Some(self.store.update(job.key, Status::Failed, job.input, None)),
            },
            None => None,
        }
    }

    /// Handles an `Update` request: replaces the process-wide options.
    /// No job is touched; the new value is read by the next `begin_job`.
    pub fn handle_update_options(&mut self, options: CompressOptions)
        ensures
            final(self).options_model() == options@,
            final(self).jobs() == old(self).jobs(),
    {
        self.options = options;
    }

    /// Handles a `Clear` request: removes every record. The caller
    /// publishes the single "cleared" notification on its own channel.
    pub fn handle_clear(&mut self)
        ensures
            final(self).wf(),
            final(self).jobs() == Seq::<JobModel>::empty(),
            final(self).options_model() == old(self).options_model(),
    {
        self.store.clear();
    }

    /// A deep copy of every record, in insertion order.
    pub fn get_all(&self) -> (r: Vec<Job>)
        ensures
            models_of(r@) == self.jobs(),
    {
        self.store.get_all()
    }

    /// A copy of the record for `key`, when one exists.
    pub fn get_job(&self, key: &String) -> (r: Option<Job>)
        requires
            self.wf(),
        ensures
            match r {
                Some(job) => contains_key(self.jobs(), key@) && job@ == job_for(
                    self.jobs(),
                    key@,
                ),
                None => !contains_key(self.jobs(), key@),
            },
    {
        self.store.get(key)
    }

    /// A copy of the current process-wide options.
    pub fn current_options(&self) -> (r: CompressOptions)
        ensures
            r@ == self.options_model(),
    {
        self.options.clone()
    }
}

/// Creating a key that already has a record changes nothing: the second
/// `Create` leaves the whole store — in particular the stored input
/// metadata, which is never recomputed — exactly as the first left it.
pub proof fn lemma_create_idempotent(
    jobs: Seq<JobModel>,
    key: Seq<char>,
    stat1: Option<u64>,
    stat2: Option<u64>,
)
    requires
        contains_key(create_one_model(jobs, key, stat1), key),
    ensures
        create_one_model(create_one_model(jobs, key, stat1), key, stat2) == create_one_model(
            jobs,
            key,
            stat1,
        ),
        job_for(create_one_model(create_one_model(jobs, key, stat1), key, stat2), key).input
            == job_for(create_one_model(jobs, key, stat1), key).input,
{
}

/// Success is sticky: once the record for `key` is `Success`, no
/// `Compress` batch runs an entry for `key` again — its key is absent
/// from every run list.
pub proof fn lemma_success_sticky(jobs: Seq<JobModel>, batch: Seq<CompressRequest>, key: Seq<char>)
    requires
        keys_unique(jobs),
        contains_key(jobs, key),
        job_for(jobs, key).status == Status::Success,
    ensures
        forall|i: int|
            0 <= i < runnable_model(jobs, batch).len() ==> (#[trigger] runnable_model(
                jobs,
                batch,
            )[i]).key != key,
    decreases batch.len(),
{
    if batch.len() > 0 {
        lemma_success_sticky(jobs, batch.drop_last(), key);
    }
}

/// Failed is not sticky: an entry for a key whose record is `Failed`
/// stays in the run list of any `Compress` batch that names it.
pub proof fn lemma_failed_retried(jobs: Seq<JobModel>, batch: Seq<CompressRequest>, i: int)
    requires
        keys_unique(jobs),
        0 <= i < batch.len(),
        contains_key(jobs, batch[i]@.key),
        job_for(jobs, batch[i]@.key).status == Status::Failed,
    ensures
        runnable_model(jobs, batch).contains(batch[i]@),
    decreases batch.len(),
{
    if i == batch.len() - 1 {
        let prefix = runnable_model(jobs, batch.drop_last());
        assert(runnable_model(jobs, batch) == prefix.push(batch[i]@));
        assert(prefix.push(batch[i]@)[prefix.len() as int] == batch[i]@);
    } else {
        lemma_failed_retried(jobs, batch.drop_last(), i);
        let prefix = runnable_model(jobs, batch.drop_last());
        let k = choose|k: int| 0 <= k < prefix.len() && prefix[k] == batch.drop_last()[i]@;
        assert(batch.drop_last()[i] == batch[i]);
        if contains_key(jobs, batch.last()@.key) && job_for(jobs, batch.last()@.key).status
            != Status::Success {
            assert(prefix.push(batch.last()@)[k] == batch[i]@);
        }
    }
}

} // verus!
