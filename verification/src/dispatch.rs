//! The archive dispatcher: a bounded-concurrency fan-out over the crawled
//! cache identifiers, kept as a verified state machine.
//!
//! The download itself — one invocation of the external capability per
//! identifier — runs outside the library; what lives here are the decisions:
//! deriving each job's URL and target directory, skipping a job whose
//! directory already exists without invoking the capability, starting a job
//! only while fewer than the limit are running, recording each job's
//! terminal state exactly once, and summing the outcomes into a run-level
//! report. Jobs are independent: finishing one changes no other.

use vstd::prelude::*;
use crate::service::{
    cached_prefix, spec_cached_prefix, spec_target_url, target_url,
};
use crate::text::{concat_bytes, copy_bytes, spec_strip_repeated_prefix, str_to_bytes,
    strip_repeated_prefix};
use vstd::string::StringSliceAdditionalSpecFns;

verus! {

/// The fixed per-job timeout, in seconds, under which the external download
/// capability is invoked.
pub const JOB_TIMEOUT_SECS: u64 = 60;

/// One archivable page: the service's cache identifier, and the bookmark
/// identifier derived from it by stripping the fixed prefix.
pub struct CacheEntry {
    pub cache_id: Vec<u8>,
    pub bookmark_id: Vec<u8>,
}

impl CacheEntry {
    /// The bookmark identifier is the cache identifier with every leading
    /// occurrence of the fixed prefix stripped.
    pub open spec fn wf(&self) -> bool {
        self.bookmark_id@ == spec_strip_repeated_prefix(self.cache_id@, spec_cached_prefix())
    }
}

/// Derive a cache entry from one crawled cache identifier.
pub fn make_entry(cache_id: Vec<u8>) -> (e: CacheEntry)
    ensures
        e.wf(),
        e.cache_id@ == cache_id@,
{
    let prefix = cached_prefix();
    let bookmark_id = strip_repeated_prefix(&cache_id, &prefix);
    CacheEntry { cache_id, bookmark_id }
}

/// The local directory one job writes into: the output directory, a
/// separator, and the bookmark identifier.
pub open spec fn spec_job_directory(output_directory: Seq<u8>, bookmark_id: Seq<u8>) -> Seq<u8> {
    output_directory + "/".spec_bytes() + bookmark_id
}

pub fn job_directory(output_directory: &Vec<u8>, bookmark_id: &Vec<u8>) -> (v: Vec<u8>)
    ensures
        v@ == spec_job_directory(output_directory@, bookmark_id@),
{
    let sep = str_to_bytes("/");
    let head = concat_bytes(output_directory, &sep);
    concat_bytes(&head, bookmark_id)
}

/// What the external download capability reported for one invocation.
pub enum DownloadOutcome {
    /// The capability completed and reported success.
    Succeeded,
    /// The capability completed and reported failure, with its reason.
    Failed(Vec<u8>),
    /// The invocation exceeded the per-job timeout and was cut off.
    TimedOut,
}

/// The state of one download job. A terminal state is set exactly once.
pub enum JobState {
    /// Not yet handed to a worker.
    Pending,
    /// Occupying one of the bounded pool's workers.
    Running,
    /// The target directory already existed: the capability was never
    /// invoked for this job.
    SkippedExisting,
    /// The capability reported success.
    Succeeded,
    /// The capability reported failure, with its reason.
    Failed(Vec<u8>),
    /// The job exceeded its timeout.
    TimedOut,
}

/// The bare kind of a job state, for counting.
#[derive(Clone, Copy, PartialEq, Eq, Structural, Debug)]
pub enum StateKind {
    Pending,
    Running,
    SkippedExisting,
    Succeeded,
    Failed,
    TimedOut,
}

pub open spec fn kind_of(s: JobState) -> StateKind {
    match s {
        JobState::Pending => StateKind::Pending,
        JobState::Running => StateKind::Running,
        JobState::SkippedExisting => StateKind::SkippedExisting,
        JobState::Succeeded => StateKind::Succeeded,
        JobState::Failed(_) => StateKind::Failed,
        JobState::TimedOut => StateKind::TimedOut,
    }
}

/// A job no longer pending and no longer running keeps its state forever.
pub open spec fn is_terminal(s: JobState) -> bool {
    !(s is Pending) && !(s is Running)
}

/// The terminal state a download outcome maps to.
pub open spec fn state_matches_outcome(s: JobState, o: DownloadOutcome) -> bool {
    match (s, o) {
        (JobState::Succeeded, DownloadOutcome::Succeeded) => true,
        (JobState::TimedOut, DownloadOutcome::TimedOut) => true,
        (JobState::Failed(a), DownloadOutcome::Failed(b)) => a@ == b@,
        _ => false,
    }
}

/// One unit of work: a cache entry, the URL and directory derived from it,
/// and its state.
pub struct Job {
    pub entry: CacheEntry,
    pub url: Vec<u8>,
    pub directory: Vec<u8>,
    pub state: JobState,
}

/// A job's derived fields agree with its entry and the output directory.
pub open spec fn job_wf(j: Job, output_directory: Seq<u8>) -> bool {
    &&& j.entry.wf()
    &&& j.url@ == spec_target_url(j.entry.cache_id@)
    &&& j.directory@ == spec_job_directory(output_directory, j.entry.bookmark_id@)
}

/// How many jobs of `jobs` are in a state of kind `k`.
pub open spec fn count_kind(jobs: Seq<Job>, k: StateKind) -> int
    decreases jobs.len(),
{
    if jobs.len() == 0 {
        0
    } else {
        (if kind_of(jobs[0].state) == k {
            1int
        } else {
            0int
        }) + count_kind(jobs.skip(1), k)
    }
}

proof fn lemma_count_kind_bounds(jobs: Seq<Job>, k: StateKind)
    ensures
        0 <= count_kind(jobs, k) <= jobs.len(),
    decreases jobs.len(),
{
    if jobs.len() > 0 {
        lemma_count_kind_bounds(jobs.skip(1), k);
    }
}

proof fn lemma_count_kind_push(jobs: Seq<Job>, j: Job, k: StateKind)
    ensures
        count_kind(jobs.push(j), k) == count_kind(jobs, k) + (if kind_of(j.state) == k {
            1int
        } else {
            0int
        }),
    decreases jobs.len(),
{
    let t = jobs.push(j);
    if jobs.len() == 0 {
        assert(t.skip(1) =~= Seq::<Job>::empty());
        assert(count_kind(Seq::<Job>::empty(), k) == 0);
    } else {
        assert(t[0] == jobs[0]);
        assert(t.skip(1) =~= jobs.skip(1).push(j));
        lemma_count_kind_push(jobs.skip(1), j, k);
    }
}

proof fn lemma_count_kind_update(jobs: Seq<Job>, i: int, j: Job, k: StateKind)
    requires
        0 <= i < jobs.len(),
    ensures
        count_kind(jobs.update(i, j), k) == count_kind(jobs, k) - (if kind_of(jobs[i].state)
            == k {
            1int
        } else {
            0int
        }) + (if kind_of(j.state) == k {
            1int
        } else {
            0int
        }),
    decreases jobs.len(),
{
    let t = jobs.update(i, j);
    if i == 0 {
        assert(t[0] == j);
        assert(t.skip(1) =~= jobs.skip(1));
    } else {
        assert(t[0] == jobs[0]);
        assert(t.skip(1) =~= jobs.skip(1).update(i - 1, j));
        lemma_count_kind_update(jobs.skip(1), i - 1, j, k);
    }
}

proof fn lemma_count_kind_member(jobs: Seq<Job>, i: int, k: StateKind)
    requires
        0 <= i < jobs.len(),
        kind_of(jobs[i].state) == k,
    ensures
        count_kind(jobs, k) >= 1,
    decreases jobs.len(),
{
    lemma_count_kind_bounds(jobs.skip(1), k);
    if i > 0 {
        lemma_count_kind_member(jobs.skip(1), i - 1, k);
    }
}

/// The dispatcher: every job with its state, the output directory the run
/// writes under, the concurrency limit, and how many jobs are running.
pub struct Dispatcher {
    jobs: Vec<Job>,
    output_directory: Vec<u8>,
    limit: usize,
    running: usize,
}

impl Dispatcher {
    pub closed spec fn spec_jobs(&self) -> Seq<Job> {
        self.jobs@
    }

    pub closed spec fn spec_limit(&self) -> int {
        self.limit as int
    }

    pub closed spec fn spec_running(&self) -> int {
        self.running as int
    }

    pub closed spec fn spec_outdir(&self) -> Seq<u8> {
        self.output_directory@
    }

    pub open spec fn n_jobs(&self) -> int {
        self.spec_jobs().len() as int
    }

    pub open spec fn job_state(&self, i: int) -> JobState {
        self.spec_jobs()[i].state
    }

    /// The dispatcher's invariant. Among its clauses is the concurrency
    /// bound: at no reachable state are more jobs running than the limit.
    pub open spec fn wf(&self) -> bool {
        &&& self.spec_limit() >= 1
        &&& self.spec_running() == count_kind(self.spec_jobs(), StateKind::Running)
        &&& self.spec_running() <= self.spec_limit()
        &&& forall|i: int|
            0 <= i < self.n_jobs() ==> job_wf(#[trigger] self.spec_jobs()[i], self.spec_outdir())
    }

    /// Lay out one pending job per cache entry, with its URL and target
    /// directory derived, none of them running.
    pub fn new(entries: &Vec<CacheEntry>, output_directory: &Vec<u8>, limit: usize) -> (d:
        Dispatcher)
        requires
            limit >= 1,
            forall|i: int| 0 <= i < entries@.len() ==> (#[trigger] entries@[i]).wf(),
        ensures
            d.wf(),
            d.n_jobs() == entries@.len(),
            d.spec_running() == 0,
            d.spec_limit() == limit as int,
            d.spec_outdir() == output_directory@,
            forall|i: int|
                0 <= i < entries@.len() ==> (#[trigger] d.spec_jobs()[i]).state is Pending
                    && d.spec_jobs()[i].entry.cache_id@ == entries@[i].cache_id@
                    && d.spec_jobs()[i].entry.bookmark_id@ == entries@[i].bookmark_id@,
    {
        let mut jobs: Vec<Job> = Vec::new();
        let mut i: usize = 0;
        while i < entries.len()
            invariant
                i <= entries@.len(),
                jobs@.len() == i,
                forall|k: int| 0 <= k < entries@.len() ==> (#[trigger] entries@[k]).wf(),
                count_kind(jobs@, StateKind::Running) == 0,
                forall|k: int|
                    0 <= k < i ==> (#[trigger] jobs@[k]).state is Pending && job_wf(
                        jobs@[k],
                        output_directory@,
                    ) && jobs@[k].entry.cache_id@ == entries@[k].cache_id@
                        && jobs@[k].entry.bookmark_id@ == entries@[k].bookmark_id@,
            decreases entries@.len() - i,
        {
            let e = &entries[i];
            let entry = CacheEntry {
                cache_id: copy_bytes(&e.cache_id),
                bookmark_id: copy_bytes(&e.bookmark_id),
            };
            let url = target_url(&entry.cache_id);
            let directory = job_directory(output_directory, &entry.bookmark_id);
            let job = Job { entry, url, directory, state: JobState::Pending };
            proof {
                lemma_count_kind_push(jobs@, job, StateKind::Running);
            }
            jobs.push(job);
            i = i + 1;
        }
        Dispatcher {
            jobs,
            output_directory: copy_bytes(output_directory),
            limit,
            running: 0,
        }
    }

    pub fn job_count(&self) -> (n: usize)
        ensures
            n as int == self.n_jobs(),
    {
        self.jobs.len()
    }

    /// One job, with its derived URL, directory and state.
    pub fn job(&self, i: usize) -> (j: &Job)
        requires
            i < self.n_jobs(),
        ensures
            *j == self.spec_jobs()[i as int],
    {
        &self.jobs[i]
    }

    pub fn running_count(&self) -> (n: usize)
        ensures
            n as int == self.spec_running(),
    {
        self.running
    }

    pub fn concurrency_limit(&self) -> (n: usize)
        ensures
            n as int == self.spec_limit(),
    {
        self.limit
    }

    /// Whether the bounded pool has a free worker.
    pub fn can_start(&self) -> (r: bool)
        ensures
            r == (self.spec_running() < self.spec_limit()),
    {
        self.running < self.limit
    }

    /// The lowest-numbered job still pending, if any.
    pub fn next_pending(&self) -> (r: Option<usize>)
        ensures
            match r {
                Some(i) => i < self.n_jobs() && self.job_state(i as int) is Pending && forall|k:
                    int| 0 <= k < i ==> !(self.job_state(k) is Pending),
                None => forall|i: int| 0 <= i < self.n_jobs() ==> !(self.job_state(i) is Pending),
            },
    {
        let mut i: usize = 0;
        while i < self.jobs.len()
            invariant
                i <= self.n_jobs(),
                forall|k: int| 0 <= k < i ==> !(self.job_state(k) is Pending),
            decreases self.n_jobs() - i,
        {
            match &self.jobs[i].state {
                JobState::Pending => {
                    return Some(i);
                },
                _ => {},
            }
            i = i + 1;
        }
        None
    }

    /// Take one pending job up. A job whose target directory already exists
    /// is marked skipped without occupying a worker and without the
    /// capability ever being invoked — the run's idempotency guard. Any
    /// other job takes a worker, of which fewer than the limit were busy.
    pub fn start_job(&mut self, i: usize, directory_exists: bool) -> (started: bool)
        requires
            old(self).wf(),
            i < old(self).n_jobs(),
            old(self).job_state(i as int) is Pending,
            !directory_exists ==> old(self).spec_running() < old(self).spec_limit(),
        ensures
            final(self).wf(),
            final(self).n_jobs() == old(self).n_jobs(),
            final(self).spec_limit() == old(self).spec_limit(),
            final(self).spec_outdir() == old(self).spec_outdir(),
            forall|k: int|
                0 <= k < old(self).n_jobs() && k != i ==> #[trigger] final(self).spec_jobs()[k]
                    == old(self).spec_jobs()[k],
            final(self).spec_jobs()[i as int].entry == old(self).spec_jobs()[i as int].entry,
            final(self).spec_jobs()[i as int].url == old(self).spec_jobs()[i as int].url,
            final(self).spec_jobs()[i as int].directory == old(
                self,
            ).spec_jobs()[i as int].directory,
            started == !directory_exists,
            directory_exists ==> final(self).job_state(i as int) is SkippedExisting
                && final(self).spec_running() == old(self).spec_running(),
            !directory_exists ==> final(self).job_state(i as int) is Running
                && final(self).spec_running() == old(self).spec_running() + 1,
    {
        let ghost old_jobs = self.jobs@;
        if directory_exists {
            self.jobs[i].state = JobState::SkippedExisting;
            proof {
                lemma_count_kind_update(
                    old_jobs,
                    i as int,
                    self.jobs@[i as int],
                    StateKind::Running,
                );
            }
            false
        } else {
            self.jobs[i].state = JobState::Running;
            proof {
                lemma_count_kind_update(
                    old_jobs,
                    i as int,
                    self.jobs@[i as int],
                    StateKind::Running,
                );
            }
            self.running = self.running + 1;
            true
        }
    }

    /// Record what the capability reported for a running job. Only that
    /// job's state changes, and its worker is given back: one job timing
    /// out or failing neither blocks nor cancels any other.
    pub fn finish_job(&mut self, i: usize, outcome: &DownloadOutcome)
        requires
            old(self).wf(),
            i < old(self).n_jobs(),
            old(self).job_state(i as int) is Running,
        ensures
            final(self).wf(),
            final(self).n_jobs() == old(self).n_jobs(),
            final(self).spec_limit() == old(self).spec_limit(),
            final(self).spec_outdir() == old(self).spec_outdir(),
            forall|k: int|
                0 <= k < old(self).n_jobs() && k != i ==> #[trigger] final(self).spec_jobs()[k]
                    == old(self).spec_jobs()[k],
            final(self).spec_jobs()[i as int].entry == old(self).spec_jobs()[i as int].entry,
            final(self).spec_jobs()[i as int].url == old(self).spec_jobs()[i as int].url,
            final(self).spec_jobs()[i as int].directory == old(
                self,
            ).spec_jobs()[i as int].directory,
            state_matches_outcome(final(self).job_state(i as int), *outcome),
            is_terminal(final(self).job_state(i as int)),
            final(self).spec_running() == old(self).spec_running() - 1,
    {
        let new_state = match outcome {
            DownloadOutcome::Succeeded => JobState::Succeeded,
            DownloadOutcome::TimedOut => JobState::TimedOut,
            DownloadOutcome::Failed(reason) => JobState::Failed(copy_bytes(reason)),
        };
        let ghost old_jobs = self.jobs@;
        proof {
            lemma_count_kind_member(old_jobs, i as int, StateKind::Running);
        }
        self.jobs[i].state = new_state;
        proof {
            lemma_count_kind_update(old_jobs, i as int, self.jobs@[i as int], StateKind::Running);
        }
        self.running = self.running - 1;
    }
}

/// The concurrency bound, stated on its own: in every well-formed dispatcher
/// state — and every constructor and method keeps the dispatcher well-formed
/// — no more jobs are running than the limit allows.
pub proof fn lemma_concurrency_bound(d: &Dispatcher)
    requires
        d.wf(),
    ensures
        count_kind(d.spec_jobs(), StateKind::Running) <= d.spec_limit(),
{
}

proof fn lemma_count_kind_take_succ(jobs: Seq<Job>, i: int, k: StateKind)
    requires
        0 <= i < jobs.len(),
    ensures
        count_kind(jobs.take(i + 1), k) == count_kind(jobs.take(i), k) + (if kind_of(
            jobs[i].state,
        ) == k {
            1int
        } else {
            0int
        }),
{
    assert(jobs.take(i + 1) =~= jobs.take(i).push(jobs[i]));
    lemma_count_kind_push(jobs.take(i), jobs[i], k);
}

/// The run-level report: how many jobs ended in each state.
#[derive(Clone, Copy, PartialEq, Eq, Structural, Debug)]
pub struct RunSummary {
    pub succeeded: usize,
    pub failed: usize,
    pub timed_out: usize,
    pub skipped: usize,
    pub pending: usize,
    pub running: usize,
}

impl Dispatcher {
    /// Count the jobs in each state, so that partial failure is visible to
    /// the operator instead of being discarded.
    pub fn summarize(&self) -> (s: RunSummary)
        ensures
            s.succeeded as int == count_kind(self.spec_jobs(), StateKind::Succeeded),
            s.failed as int == count_kind(self.spec_jobs(), StateKind::Failed),
            s.timed_out as int == count_kind(self.spec_jobs(), StateKind::TimedOut),
            s.skipped as int == count_kind(self.spec_jobs(), StateKind::SkippedExisting),
            s.pending as int == count_kind(self.spec_jobs(), StateKind::Pending),
            s.running as int == count_kind(self.spec_jobs(), StateKind::Running),
    {
        let mut s = RunSummary {
            succeeded: 0,
            failed: 0,
            timed_out: 0,
            skipped: 0,
            pending: 0,
            running: 0,
        };
        proof {
            assert(self.spec_jobs().take(0) =~= Seq::<Job>::empty());
        }
        let mut i: usize = 0;
        while i < self.jobs.len()
            invariant
                i <= self.n_jobs(),
                s.succeeded as int == count_kind(self.spec_jobs().take(i as int), StateKind::Succeeded),
                s.failed as int == count_kind(self.spec_jobs().take(i as int), StateKind::Failed),
                s.timed_out as int == count_kind(self.spec_jobs().take(i as int), StateKind::TimedOut),
                s.skipped as int == count_kind(
                    self.spec_jobs().take(i as int),
                    StateKind::SkippedExisting,
                ),
                s.pending as int == count_kind(self.spec_jobs().take(i as int), StateKind::Pending),
                s.running as int == count_kind(self.spec_jobs().take(i as int), StateKind::Running),
            decreases self.n_jobs() - i,
        {
            proof {
                lemma_count_kind_take_succ(self.spec_jobs(), i as int, StateKind::Succeeded);
                lemma_count_kind_take_succ(self.spec_jobs(), i as int, StateKind::Failed);
                lemma_count_kind_take_succ(self.spec_jobs(), i as int, StateKind::TimedOut);
                lemma_count_kind_take_succ(self.spec_jobs(), i as int, StateKind::SkippedExisting);
                lemma_count_kind_take_succ(self.spec_jobs(), i as int, StateKind::Pending);
                lemma_count_kind_take_succ(self.spec_jobs(), i as int, StateKind::Running);
                lemma_count_kind_bounds(self.spec_jobs().take(i as int), StateKind::Succeeded);
                lemma_count_kind_bounds(self.spec_jobs().take(i as int), StateKind::Failed);
                lemma_count_kind_bounds(self.spec_jobs().take(i as int), StateKind::TimedOut);
                lemma_count_kind_bounds(self.spec_jobs().take(i as int), StateKind::SkippedExisting);
                lemma_count_kind_bounds(self.spec_jobs().take(i as int), StateKind::Pending);
                lemma_count_kind_bounds(self.spec_jobs().take(i as int), StateKind::Running);
            }
            match &self.jobs[i].state {
                JobState::Succeeded => {
                    s.succeeded = s.succeeded + 1;
                },
                JobState::Failed(_) => {
                    s.failed = s.failed + 1;
                },
                JobState::TimedOut => {
                    s.timed_out = s.timed_out + 1;
                },
                JobState::SkippedExisting => {
                    s.skipped = s.skipped + 1;
                },
                JobState::Pending => {
                    s.pending = s.pending + 1;
                },
                JobState::Running => {
                    s.running = s.running + 1;
                },
            }
            i = i + 1;
        }
        proof {
            assert(self.spec_jobs().take(self.n_jobs()) =~= self.spec_jobs());
        }
        s
    }

    /// Whether the run should carry a failure signal: some job failed or
    /// timed out.
    pub fn run_failed(&self) -> (r: bool)
        ensures
            r == (count_kind(self.spec_jobs(), StateKind::Failed) > 0 || count_kind(
                self.spec_jobs(),
                StateKind::TimedOut,
            ) > 0),
    {
        let s = self.summarize();
        s.failed > 0 || s.timed_out > 0
    }
}

/// Run the whole archive phase over a fixed script of events: for each
/// entry, whether its target directory already exists, and what the
/// capability would report for it. Every entry whose directory exists is
/// skipped and never started; every other entry ends in exactly the terminal
/// state its own outcome maps to, whatever happened to its siblings.
pub fn run_dispatch(
    entries: &Vec<CacheEntry>,
    output_directory: &Vec<u8>,
    limit: usize,
    existing: &Vec<bool>,
    outcomes: &Vec<DownloadOutcome>,
) -> (d: Dispatcher)
    requires
        limit >= 1,
        forall|i: int| 0 <= i < entries@.len() ==> (#[trigger] entries@[i]).wf(),
        existing@.len() == entries@.len(),
        outcomes@.len() == entries@.len(),
    ensures
        d.wf(),
        d.n_jobs() == entries@.len(),
        d.spec_running() == 0,
        forall|i: int|
            0 <= i < entries@.len() && existing@[i] ==> #[trigger] d.job_state(i)
                is SkippedExisting,
        forall|i: int|
            0 <= i < entries@.len() && !existing@[i] ==> state_matches_outcome(
                #[trigger] d.job_state(i),
                outcomes@[i],
            ),
        forall|i: int| 0 <= i < entries@.len() ==> is_terminal(#[trigger] d.job_state(i)),
{
    let mut d = Dispatcher::new(entries, output_directory, limit);
    let n = d.job_count();
    let mut i: usize = 0;
    while i < n
        invariant
            n as int == d.n_jobs(),
            n as int == entries@.len(),
            existing@.len() == entries@.len(),
            outcomes@.len() == entries@.len(),
            i <= n,
            d.wf(),
            d.spec_running() == 0,
            forall|k: int| i <= k < n ==> #[trigger] d.job_state(k) is Pending,
            forall|k: int|
                0 <= k < i && existing@[k] ==> #[trigger] d.job_state(k) is SkippedExisting,
            forall|k: int|
                0 <= k < i && !existing@[k] ==> state_matches_outcome(
                    #[trigger] d.job_state(k),
                    outcomes@[k],
                ),
            forall|k: int| 0 <= k < i ==> is_terminal(#[trigger] d.job_state(k)),
        decreases n - i,
    {
        let ghost d0 = d;
        if existing[i] {
            d.start_job(i, true);
        } else {
            d.start_job(i, false);
            d.finish_job(i, &outcomes[i]);
        }
        proof {
            assert forall|k: int| 0 <= k < n && k != i implies #[trigger] d.spec_jobs()[k]
                == d0.spec_jobs()[k] by {};
            assert forall|k: int| i + 1 <= k < n implies #[trigger] d.job_state(k)
                is Pending by {
                assert(d0.job_state(k) is Pending);
                assert(d.spec_jobs()[k] == d0.spec_jobs()[k]);
            };
            assert forall|k: int| 0 <= k < i + 1 && existing@[k] implies #[trigger] d.job_state(
                k,
            ) is SkippedExisting by {
                if k != i {
                    assert(d0.job_state(k) is SkippedExisting);
                    assert(d.spec_jobs()[k] == d0.spec_jobs()[k]);
                }
            };
            assert forall|k: int|
                0 <= k < i + 1 && !existing@[k] implies state_matches_outcome(
                #[trigger] d.job_state(k),
                outcomes@[k],
            ) by {
                if k != i {
                    assert(state_matches_outcome(d0.job_state(k), outcomes@[k]));
                    assert(d.spec_jobs()[k] == d0.spec_jobs()[k]);
                }
            };
            assert forall|k: int| 0 <= k < i + 1 implies is_terminal(
                #[trigger] d.job_state(k),
            ) by {
                if k != i {
                    assert(is_terminal(d0.job_state(k)));
                    assert(d.spec_jobs()[k] == d0.spec_jobs()[k]);
                }
            };
        }
        i = i + 1;
    }
    d
}

} // verus!
