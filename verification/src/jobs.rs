//! Scan jobs: their states, progress snapshots, cancellation and the registry
//! that tracks them.
use vstd::prelude::*;

use std::sync::atomic::AtomicBool;
use std::sync::atomic::Ordering;
use std::sync::Arc;

use crate::lexical::{path_eq, path_eq_spec, path_starts_with, path_starts_with_spec};
use crate::text::{decimal, lemma_decimal_injective, push_decimal, str_equal};

verus! {

/// The lifecycle state of a scan job.
#[derive(Debug, Clone, Copy, PartialEq, Eq, Structural)]
pub enum JobState {
    Queued,
    Running,
    Completed,
    Failed,
    Canceled,
    Superseded,
}

/// A job that has not ended: queued or running.
pub open spec fn is_active_state(state: JobState) -> bool {
    state == JobState::Queued || state == JobState::Running
}

/// The state a job takes when it is canceled: a queued or running job is
/// canceled; a job that has ended keeps its state.
pub open spec fn canceled_state(state: JobState) -> JobState {
    if is_active_state(state) {
        JobState::Canceled
    } else {
        state
    }
}

/// The state a job takes when its worker starts it: a queued job runs; a
/// job that runs already, or has ended (canceled or superseded before its
/// worker started it), keeps its state.
pub open spec fn started_state(state: JobState) -> JobState {
    if state == JobState::Queued {
        JobState::Running
    } else {
        state
    }
}

/// A job that has ended.
pub open spec fn is_terminal_state(state: JobState) -> bool {
    state == JobState::Completed || state == JobState::Failed || state == JobState::Canceled
        || state == JobState::Superseded
}

/// Where a scan job stands.
#[derive(Debug, Clone, PartialEq, Eq)]
pub struct ProgressSnapshot {
    pub job_id: String,
    pub request_id: String,
    pub state: JobState,
    pub estimated_total_bytes: Option<u64>,
    pub scheduled_units: u64,
    pub discovered_units: u64,
    pub completed_units: u64,
    pub active_units: u64,
    pub skipped_units: u64,
    pub failed_units: u64,
    pub canceled_units: u64,
    pub bytes_measured: u64,
    pub active_paths: Vec<String>,
}

impl ProgressSnapshot {
    /// The snapshot of a job that has only been queued.
    pub open spec fn is_fresh(self, job_id: Seq<char>, request_id: Seq<char>) -> bool {
        &&& self.job_id@ == job_id
        &&& self.request_id@ == request_id
        &&& self.state == JobState::Queued
        &&& self.estimated_total_bytes is None
        &&& self.scheduled_units == 0
        &&& self.discovered_units == 0
        &&& self.completed_units == 0
        &&& self.active_units == 0
        &&& self.skipped_units == 0
        &&& self.failed_units == 0
        &&& self.canceled_units == 0
        &&& self.bytes_measured == 0
        &&& self.active_paths@.len() == 0
    }

    /// Progress is terminal when the job has ended, no unit is active and
    /// every scheduled unit has an outcome (completed, skipped, failed or
    /// canceled).
    pub open spec fn is_terminal_spec(self) -> bool {
        &&& is_terminal_state(self.state)
        &&& self.active_units == 0
        &&& self.completed_units + self.skipped_units + self.failed_units + self.canceled_units
            >= self.scheduled_units
    }

    /// The snapshot of a newly queued job: nothing scheduled, nothing done.
    pub fn new(job_id: String, request_id: String) -> (r: Self)
        ensures
            r.is_fresh(job_id@, request_id@),
    {
        ProgressSnapshot {
            job_id,
            request_id,
            state: JobState::Queued,
            estimated_total_bytes: None,
            scheduled_units: 0,
            discovered_units: 0,
            completed_units: 0,
            active_units: 0,
            skipped_units: 0,
            failed_units: 0,
            canceled_units: 0,
            bytes_measured: 0,
            active_paths: Vec::new(),
        }
    }

    /// Whether the job has ended, no unit is still active and every scheduled
    /// unit has an outcome.
    pub fn is_terminal(&self) -> (r: bool)
        ensures
            r == self.is_terminal_spec(),
    {
        let ended = match self.state {
            JobState::Completed | JobState::Failed | JobState::Canceled | JobState::Superseded => true,
            _ => false,
        };
        let outcomes: u128 = self.completed_units as u128 + self.skipped_units as u128
            + self.failed_units as u128 + self.canceled_units as u128;
        ended && self.active_units == 0 && outcomes >= self.scheduled_units as u128
    }
}

/// Progress that is terminal has no active unit left, its job has ended and
/// every scheduled unit has an outcome.
pub proof fn terminal_progress_has_no_active_units(snapshot: ProgressSnapshot)
    requires
        snapshot.is_terminal_spec(),
    ensures
        snapshot.active_units == 0,
        !is_active_state(snapshot.state),
        snapshot.completed_units + snapshot.skipped_units + snapshot.failed_units
            + snapshot.canceled_units >= snapshot.scheduled_units,
{
}

/// A shared flag that asks a running scan to stop. Its value is set and read
/// across threads, so nothing is stated of what a read returns.
#[derive(Debug)]
pub struct CancelToken {
    canceled: Arc<AtomicBool>,
}

/// Another handle on the same flag (std `Arc::clone`): the copy shares the
/// flag, so it is equal to the original.
#[verifier::external_body]
fn share_flag(flag: &Arc<AtomicBool>) -> (r: Arc<AtomicBool>)
    ensures
        r == *flag,
{
    Arc::clone(flag)
}

impl CancelToken {
    /// A flag that is not set.
    pub fn new() -> (r: Self) {
        CancelToken { canceled: Arc::new(AtomicBool::new(false)) }
    }

    /// Sets the flag.
    pub fn cancel(&self) {
        self.canceled.store(true, Ordering::Release);
    }

    /// Reads the flag.
    pub fn is_canceled(&self) -> bool {
        self.canceled.load(Ordering::Acquire)
    }

    /// Another token on the same flag.
    pub fn share(&self) -> (r: Self)
        ensures
            r == *self,
    {
        CancelToken { canceled: share_flag(&self.canceled) }
    }
}

impl Default for CancelToken {
    fn default() -> (r: Self) {
        CancelToken::new()
    }
}

/// A scan job as the registry knows it.
#[derive(Debug)]
pub struct ScanJobHandle {
    pub job_id: String,
    pub request_id: String,
    pub root_path: String,
    pub config_fingerprint: String,
    pub state: JobState,
    pub cancel_token: CancelToken,
}

impl ScanJobHandle {
    /// Two handles of the same job in the same state.
    pub open spec fn same(self, other: ScanJobHandle) -> bool {
        &&& self.job_id@ == other.job_id@
        &&& self.request_id@ == other.request_id@
        &&& self.root_path@ == other.root_path@
        &&& self.config_fingerprint@ == other.config_fingerprint@
        &&& self.state == other.state
        &&& self.cancel_token == other.cancel_token
    }

    /// A copy of this handle, sharing its cancel flag.
    pub fn copy(&self) -> (r: Self)
        ensures
            r.same(*self),
    {
        ScanJobHandle {
            job_id: self.job_id.clone(),
            request_id: self.request_id.clone(),
            root_path: self.root_path.clone(),
            config_fingerprint: self.config_fingerprint.clone(),
            state: self.state,
            cancel_token: self.cancel_token.share(),
        }
    }
}

/// The identifier of the `n`-th job: `scan-n`.
pub open spec fn job_id_spec(n: nat) -> Seq<char> {
    seq!['s', 'c', 'a', 'n', '-'] + decimal(n)
}

/// The request identifier of the `n`-th job: `req-n`.
pub open spec fn request_id_spec(n: nat) -> Seq<char> {
    seq!['r', 'e', 'q', '-'] + decimal(n)
}

/// Every scan job created so far.
#[derive(Debug, Default)]
pub struct JobRegistry {
    counter: u64,
    jobs: Vec<ScanJobHandle>,
}

impl JobRegistry {
    /// The jobs, in the order they were created.
    pub closed spec fn jobs_view(&self) -> Seq<ScanJobHandle> {
        self.jobs@
    }

    /// The number of jobs created so far.
    pub closed spec fn count(&self) -> nat {
        self.counter as nat
    }

    /// The `i`-th job is number `i + 1`, so no two jobs share an identifier.
    pub closed spec fn wf(&self) -> bool {
        &&& self.counter as nat == self.jobs@.len()
        &&& forall|i: int|
            0 <= i < self.jobs@.len() ==> #[trigger] self.jobs@[i].job_id@ == job_id_spec(
                (i + 1) as nat,
            )
    }

    /// Whether another job can be numbered.
    pub open spec fn has_room(&self) -> bool {
        self.count() < u64::MAX
    }

    /// Whether another job can be numbered (`has_room`).
    pub fn can_create(&self) -> (r: bool)
        ensures
            r == self.has_room(),
    {
        self.counter < u64::MAX
    }

    /// An empty registry.
    pub fn new() -> (r: Self)
        ensures
            r.wf(),
            r.jobs_view().len() == 0,
            r.count() == 0,
    {
        JobRegistry { counter: 0, jobs: Vec::new() }
    }

    /// Registers a new queued job for `root_path` and returns it. The job is
    /// number `count + 1`, named `scan-N` with request `req-N`.
    pub fn create(&mut self, root_path: String, config_fingerprint: String) -> (r: ScanJobHandle)
        requires
            old(self).wf(),
            old(self).has_room(),
        ensures
            final(self).wf(),
            final(self).count() == old(self).count() + 1,
            r.job_id@ == job_id_spec(final(self).count()),
            r.request_id@ == request_id_spec(final(self).count()),
            r.root_path@ == root_path@,
            r.config_fingerprint@ == config_fingerprint@,
            r.state == JobState::Queued,
            final(self).jobs_view().len() == old(self).jobs_view().len() + 1,
            forall|i: int|
                0 <= i < old(self).jobs_view().len() ==> final(self).jobs_view()[i] == old(
                    self,
                ).jobs_view()[i],
            final(self).jobs_view().last().same(r),
    {
        let next = self.counter + 1;
        let mut job_id = String::new();
        let prefix: Vec<char> = vec!['s', 'c', 'a', 'n', '-'];
        crate::text::push_chars(&mut job_id, &prefix);
        push_decimal(&mut job_id, next);
        let mut request_id = String::new();
        let req_prefix: Vec<char> = vec!['r', 'e', 'q', '-'];
        crate::text::push_chars(&mut request_id, &req_prefix);
        push_decimal(&mut request_id, next);
        assert(job_id@ =~= job_id_spec(next as nat));
        assert(request_id@ =~= request_id_spec(next as nat));
        let handle = ScanJobHandle {
            job_id,
            request_id,
            root_path,
            config_fingerprint,
            state: JobState::Queued,
            cancel_token: CancelToken::new(),
        };
        let stored = handle.copy();
        self.jobs.push(stored);
        self.counter = next;
        handle
    }

    /// The position of the job called `job_id`, if any.
    fn find(&self, job_id: &str) -> (r: Option<usize>)
        requires
            self.wf(),
        ensures
            match r {
                Some(i) => i < self.jobs@.len() && self.jobs@[i as int].job_id@ == job_id@,
                None => forall|i: int|
                    0 <= i < self.jobs@.len() ==> self.jobs@[i].job_id@ != job_id@,
            },
    {
        let mut i: usize = 0;
        while i < self.jobs.len()
            invariant
                i <= self.jobs.len(),
                forall|j: int| 0 <= j < i ==> self.jobs@[j].job_id@ != job_id@,
            decreases self.jobs.len() - i,
        {
            if str_equal(&self.jobs[i].job_id, job_id) {
                return Some(i);
            }
            i = i + 1;
        }
        None
    }

    /// The job called `id`: at most one job has a given identifier.
    pub open spec fn job_named(&self, id: Seq<char>) -> Option<int> {
        if exists|i: int| 0 <= i < self.jobs_view().len() && self.jobs_view()[i].job_id@ == id {
            Some(
                choose|i: int| 0 <= i < self.jobs_view().len() && self.jobs_view()[i].job_id@ == id,
            )
        } else {
            None
        }
    }

    /// No two jobs share an identifier.
    pub proof fn lemma_unique_ids(&self, i: int, j: int)
        requires
            self.wf(),
            0 <= i < self.jobs_view().len(),
            0 <= j < self.jobs_view().len(),
            self.jobs_view()[i].job_id@ == self.jobs_view()[j].job_id@,
        ensures
            i == j,
    {
        self.lemma_ids_unique(i, j);
    }

    proof fn lemma_ids_unique(&self, i: int, j: int)
        requires
            self.wf(),
            0 <= i < self.jobs@.len(),
            0 <= j < self.jobs@.len(),
            self.jobs@[i].job_id@ == self.jobs@[j].job_id@,
        ensures
            i == j,
    {
        let a = self.jobs@[i].job_id@;
        let b = self.jobs@[j].job_id@;
        assert(a == job_id_spec((i + 1) as nat));
        assert(b == job_id_spec((j + 1) as nat));
        assert(decimal((i + 1) as nat) =~= a.skip(5));
        assert(decimal((j + 1) as nat) =~= b.skip(5));
        lemma_decimal_injective((i + 1) as nat, (j + 1) as nat);
    }

    /// Sets the state of the job called `job_id`; does nothing when there is none.
    pub fn set_state(&mut self, job_id: &str, state: JobState)
        requires
            old(self).wf(),
        ensures
            final(self).wf(),
            final(self).count() == old(self).count(),
            final(self).jobs_view().len() == old(self).jobs_view().len(),
            forall|i: int|
                0 <= i < old(self).jobs_view().len() ==> {
                    let before = old(self).jobs_view()[i];
                    let after = #[trigger] final(self).jobs_view()[i];
                    if before.job_id@ == job_id@ {
                        after.same(ScanJobHandle { state, ..before })
                    } else {
                        after == before
                    }
                },
    {
        match self.find(job_id) {
            Some(i) => {
                proof {
                    assert forall|k: int|
                        0 <= k < self.jobs@.len() && self.jobs@[k].job_id@ == job_id@ implies k
                        == i by {
                        self.lemma_ids_unique(k, i as int);
                    }
                }
                let mut job = self.jobs[i].copy();
                job.state = state;
                self.jobs.set(i, job);
            },
            None => {},
        }
    }

    /// The state of the job called `job_id`.
    pub fn state(&self, job_id: &str) -> (r: Option<JobState>)
        requires
            self.wf(),
        ensures
            match r {
                Some(s) => exists|i: int|
                    0 <= i < self.jobs_view().len() && self.jobs_view()[i].job_id@ == job_id@
                        && self.jobs_view()[i].state == s,
                None => forall|i: int|
                    0 <= i < self.jobs_view().len() ==> self.jobs_view()[i].job_id@ != job_id@,
            },
            r == state_of(self.jobs_view(), job_id@),
    {
        match self.find(job_id) {
            Some(i) => {
                proof {
                    let k = choose|k: int|
                        0 <= k < self.jobs@.len() && self.jobs@[k].job_id@ == job_id@;
                    self.lemma_ids_unique(k, i as int);
                }
                Some(self.jobs[i].state)
            },
            None => None,
        }
    }

    /// A queued or running job of `path` under the same configuration, if any.
    pub fn active_exact(&self, path: &str, config_fingerprint: &str) -> (r: Option<ScanJobHandle>)
        ensures
            match r {
                Some(h) => exists|i: int|
                    0 <= i < self.jobs_view().len() && #[trigger] self.jobs_view()[i].same(h)
                        && matches_exact(self.jobs_view()[i], path@, config_fingerprint@),
                None => forall|i: int|
                    0 <= i < self.jobs_view().len() ==> !matches_exact(
                        #[trigger] self.jobs_view()[i],
                        path@,
                        config_fingerprint@,
                    ),
            },
    {
        let mut i: usize = 0;
        while i < self.jobs.len()
            invariant
                i <= self.jobs.len(),
                forall|j: int| 0 <= j < i ==> !matches_exact(#[trigger] self.jobs@[j], path@, config_fingerprint@),
            decreases self.jobs.len() - i,
        {
            let job = &self.jobs[i];
            let active = match job.state {
                JobState::Queued | JobState::Running => true,
                _ => false,
            };
            if path_eq(&job.root_path, path) && str_equal(&job.config_fingerprint, config_fingerprint)
                && active {
                let h = job.copy();
                assert(self.jobs_view()[i as int].same(h));
                return Some(h);
            }
            i = i + 1;
        }
        None
    }

    /// Starts the job called `job_id`: a queued job becomes `Running`; any
    /// other keeps its state (`started_state`). Does nothing when there is
    /// no such job.
    pub fn start(&mut self, job_id: &str)
        requires
            old(self).wf(),
        ensures
            final(self).wf(),
            final(self).count() == old(self).count(),
            started_in(old(self).jobs_view(), final(self).jobs_view(), job_id@),
    {
        match self.find(job_id) {
            Some(i) => {
                proof {
                    assert forall|k: int|
                        0 <= k < self.jobs@.len() && self.jobs@[k].job_id@ == job_id@ implies k
                        == i by {
                        self.lemma_ids_unique(k, i as int);
                    }
                }
                let mut job = self.jobs[i].copy();
                job.state = match job.state {
                    JobState::Queued => JobState::Running,
                    other => other,
                };
                self.jobs.set(i, job);
            },
            None => {},
        }
    }

    /// Cancels the job called `job_id`: its flag is set and, when it is queued
    /// or running, its state becomes `Canceled`; a job that has ended keeps
    /// its state. Returns whether such a job exists.
    pub fn cancel(&mut self, job_id: &str) -> (r: bool)
        requires
            old(self).wf(),
        ensures
            final(self).wf(),
            final(self).count() == old(self).count(),
            r == exists|i: int|
                0 <= i < old(self).jobs_view().len() && old(self).jobs_view()[i].job_id@
                    == job_id@,
            final(self).jobs_view().len() == old(self).jobs_view().len(),
            forall|i: int|
                0 <= i < old(self).jobs_view().len() ==> {
                    let before = old(self).jobs_view()[i];
                    let after = #[trigger] final(self).jobs_view()[i];
                    if before.job_id@ == job_id@ {
                        after.same(ScanJobHandle { state: canceled_state(before.state), ..before })
                    } else {
                        after == before
                    }
                },
    {
        match self.find(job_id) {
            Some(i) => {
                proof {
                    assert forall|k: int|
                        0 <= k < self.jobs@.len() && self.jobs@[k].job_id@ == job_id@ implies k
                        == i by {
                        self.lemma_ids_unique(k, i as int);
                    }
                }
                let mut job = self.jobs[i].copy();
                job.cancel_token.cancel();
                job.state = match job.state {
                    JobState::Queued | JobState::Running => JobState::Canceled,
                    other => other,
                };
                self.jobs.set(i, job);
                true
            },
            None => false,
        }
    }

    /// Supersedes every queued or running job whose root lies at or under
    /// `path`: its flag is set and its state becomes `Superseded`. Returns their
    /// identifiers, in the order the jobs were created.
    pub fn supersede_path(&mut self, path: &str) -> (r: Vec<String>)
        requires
            old(self).wf(),
        ensures
            final(self).wf(),
            final(self).count() == old(self).count(),
            final(self).jobs_view().len() == old(self).jobs_view().len(),
            forall|i: int|
                0 <= i < old(self).jobs_view().len() ==> {
                    let before = old(self).jobs_view()[i];
                    let after = #[trigger] final(self).jobs_view()[i];
                    if supersedes(before, path@) {
                        after.same(ScanJobHandle { state: JobState::Superseded, ..before })
                    } else {
                        after == before
                    }
                },
            r@.len() == superseded_ids(old(self).jobs_view(), path@).len(),
            forall|k: int| 0 <= k < r@.len() ==> #[trigger] r@[k]@ == superseded_ids(
                old(self).jobs_view(),
                path@,
            )[k],
    {
        let mut ids: Vec<String> = Vec::new();
        let mut i: usize = 0;
        let ghost start = self.jobs@;
        while i < self.jobs.len()
            invariant
                i <= self.jobs.len(),
                self.jobs@.len() == start.len(),
                self.counter as nat == start.len(),
                forall|k: int| 0 <= k < start.len() ==> #[trigger] self.jobs@[k].job_id@ == start[k].job_id@,
                forall|k: int|
                    0 <= k < i ==> {
                        let before = start[k];
                        let after = #[trigger] self.jobs@[k];
                        if supersedes(before, path@) {
                            after.same(ScanJobHandle { state: JobState::Superseded, ..before })
                        } else {
                            after == before
                        }
                    },
                forall|k: int| i <= k < start.len() ==> #[trigger] self.jobs@[k] == start[k],
                ids@.len() == superseded_ids(start.take(i as int), path@).len(),
                forall|k: int| 0 <= k < ids@.len() ==> #[trigger] ids@[k]@ == superseded_ids(
                    start.take(i as int),
                    path@,
                )[k],
                forall|k: int| 0 <= k < start.len() ==> start[k].job_id@ == job_id_spec((k + 1) as nat),
            decreases self.jobs.len() - i,
        {
            let active = match self.jobs[i].state {
                JobState::Queued | JobState::Running => true,
                _ => false,
            };
            let under = path_starts_with(&self.jobs[i].root_path, path);
            assert(start.take(i + 1).drop_last() =~= start.take(i as int));
            if under && active {
                let mut job = self.jobs[i].copy();
                job.cancel_token.cancel();
                job.state = JobState::Superseded;
                let id = job.job_id.clone();
                self.jobs.set(i, job);
                ids.push(id);
            }
            i = i + 1;
        }
        assert(start.take(start.len() as int) =~= start);
        ids
    }

    /// The roots of all queued or running jobs, each path once.
    pub fn active_paths(&self) -> (r: Vec<String>)
        ensures
            forall|k: int|
                0 <= k < r@.len() ==> is_active_root(self.jobs_view(), #[trigger] r@[k]@),
            forall|i: int|
                0 <= i < self.jobs_view().len() && is_active_state(
                    #[trigger] self.jobs_view()[i].state,
                ) ==> paths_contain(r@, self.jobs_view()[i].root_path@),
            forall|a: int, b: int| 0 <= a < b < r@.len() ==> !path_eq_spec(r@[a]@, r@[b]@),
    {
        let mut out: Vec<String> = Vec::new();
        let mut i: usize = 0;
        while i < self.jobs.len()
            invariant
                i <= self.jobs.len(),
                forall|k: int|
                    0 <= k < out@.len() ==> is_active_root(self.jobs_view(), #[trigger] out@[k]@),
                forall|j: int|
                    0 <= j < i && is_active_state(#[trigger] self.jobs_view()[j].state)
                        ==> paths_contain(out@, self.jobs_view()[j].root_path@),
                forall|a: int, b: int| 0 <= a < b < out@.len() ==> !path_eq_spec(out@[a]@, out@[b]@),
            decreases self.jobs.len() - i,
        {
            let active = match self.jobs[i].state {
                JobState::Queued | JobState::Running => true,
                _ => false,
            };
            if active {
                let mut seen = false;
                let mut k: usize = 0;
                while k < out.len()
                    invariant
                        k <= out.len(),
                        i < self.jobs.len(),
                        !seen ==> forall|m: int|
                            0 <= m < k ==> !path_eq_spec(out@[m]@, self.jobs_view()[i as int].root_path@),
                        seen ==> paths_contain(out@, self.jobs_view()[i as int].root_path@),
                    decreases out.len() - k,
                {
                    if !seen && path_eq(&out[k], &self.jobs[i].root_path) {
                        seen = true;
                    }
                    k = k + 1;
                }
                if !seen {
                    let ghost before = out@;
                    out.push(self.jobs[i].root_path.clone());
                    assert(is_active_root(self.jobs_view(), out@[before.len() as int]@)) by {
                        assert(self.jobs_view()[i as int].root_path@ == out@[before.len() as int]@);
                    }
                    assert forall|a: int, b: int| 0 <= a < b < out@.len() implies !path_eq_spec(
                        out@[a]@,
                        out@[b]@,
                    ) by {
                        if b == before.len() {
                            assert(!path_eq_spec(before[a]@, self.jobs_view()[i as int].root_path@));
                        } else {
                            assert(out@[a] == before[a] && out@[b] == before[b]);
                        }
                    }
                    assert forall|k2: int| 0 <= k2 < out@.len() implies is_active_root(
                        self.jobs_view(),
                        #[trigger] out@[k2]@,
                    ) by {
                        if k2 < before.len() {
                            assert(out@[k2] == before[k2]);
                        }
                    }
                    assert forall|j: int|
                        0 <= j <= i && is_active_state(
                            #[trigger] self.jobs_view()[j].state,
                        ) implies paths_contain(out@, self.jobs_view()[j].root_path@) by {
                        if j < i {
                            let k2 = choose|k2: int|
                                0 <= k2 < before.len() && path_eq_spec(
                                    before[k2]@,
                                    self.jobs_view()[j].root_path@,
                                );
                            assert(out@[k2] == before[k2]);
                        } else {
                            assert(path_eq_spec(
                                out@[before.len() as int]@,
                                self.jobs_view()[j].root_path@,
                            ));
                        }
                    }
                }
            }
            i = i + 1;
        }
        out
    }
}

/// Some active job has root `p`.
pub open spec fn is_active_root(jobs: Seq<ScanJobHandle>, p: Seq<char>) -> bool {
    exists|i: int| 0 <= i < jobs.len() && is_active_state(jobs[i].state) && jobs[i].root_path@ == p
}

/// One of the paths is `p`, as a path.
pub open spec fn paths_contain(paths: Seq<String>, p: Seq<char>) -> bool {
    exists|k: int| 0 <= k < paths.len() && path_eq_spec(paths[k]@, p)
}

/// The job is active, for `path` (as a path) and under the fingerprint.
pub open spec fn matches_exact(job: ScanJobHandle, path: Seq<char>, fingerprint: Seq<char>) -> bool {
    path_eq_spec(job.root_path@, path) && job.config_fingerprint@ == fingerprint && is_active_state(
        job.state,
    )
}

/// `after` is `before` with the job called `id` in `state` (its cancel flag and
/// the other jobs unchanged).
pub open spec fn state_set(before: Seq<ScanJobHandle>, after: Seq<ScanJobHandle>, id: Seq<char>, state: JobState) -> bool {
    &&& after.len() == before.len()
    &&& forall|i: int|
        0 <= i < before.len() ==> if before[i].job_id@ == id {
            (#[trigger] after[i]).same(ScanJobHandle { state, ..before[i] })
        } else {
            after[i] == before[i]
        }
}

/// `after` is `before` with the job called `id` canceled: a queued or
/// running job becomes `Canceled`, an ended one keeps its state
/// (`canceled_state`); every other job is as it was.
pub open spec fn canceled_in(before: Seq<ScanJobHandle>, after: Seq<ScanJobHandle>, id: Seq<char>) -> bool {
    &&& after.len() == before.len()
    &&& forall|i: int|
        0 <= i < before.len() ==> if before[i].job_id@ == id {
            (#[trigger] after[i]).same(ScanJobHandle { state: canceled_state(before[i].state), ..before[i] })
        } else {
            after[i] == before[i]
        }
}

/// `after` is `before` with the job called `id` started: a queued job runs,
/// any other keeps its state (`started_state`); every other job is as it was.
pub open spec fn started_in(before: Seq<ScanJobHandle>, after: Seq<ScanJobHandle>, id: Seq<char>) -> bool {
    &&& after.len() == before.len()
    &&& forall|i: int|
        0 <= i < before.len() ==> if before[i].job_id@ == id {
            (#[trigger] after[i]).same(ScanJobHandle { state: started_state(before[i].state), ..before[i] })
        } else {
            after[i] == before[i]
        }
}

/// The state of the job called `id`, if there is one.
pub open spec fn state_of(jobs: Seq<ScanJobHandle>, id: Seq<char>) -> Option<JobState> {
    if exists|i: int| 0 <= i < jobs.len() && jobs[i].job_id@ == id {
        Some(jobs[choose|i: int| 0 <= i < jobs.len() && jobs[i].job_id@ == id].state)
    } else {
        None
    }
}

/// Superseding `path` reaches this job: it is active and its root lies at or under `path`.
pub open spec fn supersedes(job: ScanJobHandle, path: Seq<char>) -> bool {
    is_active_state(job.state) && path_starts_with_spec(job.root_path@, path)
}

/// The identifiers of the jobs that superseding `path` reaches, in order.
pub open spec fn superseded_ids(jobs: Seq<ScanJobHandle>, path: Seq<char>) -> Seq<Seq<char>>
    decreases jobs.len(),
{
    if jobs.len() == 0 {
        seq![]
    } else {
        let prev = superseded_ids(jobs.drop_last(), path);
        if supersedes(jobs.last(), path) {
            prev.push(jobs.last().job_id@)
        } else {
            prev
        }
    }
}

/// Job identifiers are unique: no two jobs in a registry share one.
pub proof fn job_ids_are_unique(registry: &JobRegistry, i: int, j: int)
    requires
        registry.wf(),
        0 <= i < j < registry.jobs_view().len(),
    ensures
        registry.jobs_view()[i].job_id@ != registry.jobs_view()[j].job_id@,
{
    let a = registry.jobs_view()[i].job_id@;
    let b = registry.jobs_view()[j].job_id@;
    assert(a == job_id_spec((i + 1) as nat));
    assert(b == job_id_spec((j + 1) as nat));
    if a == b {
        assert(a.subrange(5, a.len() as int) =~= decimal((i + 1) as nat));
        assert(b.subrange(5, b.len() as int) =~= decimal((j + 1) as nat));
        lemma_decimal_injective((i + 1) as nat, (j + 1) as nat);
    }
}

} // verus!

