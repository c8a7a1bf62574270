//! Export jobs: the status state machine and the registry of jobs.
//!
//! Every status change goes through [`transition`], the one authority on
//! the state machine: terminal states are final, so a cancelled job stays
//! cancelled whatever its process does afterwards. The registry is generic
//! over the handle of a job's live process, which the caller supplies.

use crate::ids::new_id;
use vstd::prelude::*;

verus! {

/// Status of an export job.
#[derive(Debug, Clone, Copy, PartialEq, Eq, Structural)]
pub enum ExportStatus {
    Preparing,
    Rendering,
    Complete,
    Cancelled,
    Failed,
}

/// Something that happens to a job.
#[derive(Debug, Clone, Copy, PartialEq, Eq, Structural)]
pub enum JobEvent {
    /// The encoder process started.
    Spawned,
    /// The encoder process could not be started.
    SpawnFailed,
    /// The encoder process ended, successfully or not.
    Exited { success: bool },
    /// The caller asked to cancel the job.
    CancelRequested,
}

/// A job's record.
#[derive(Debug, Clone)]
pub struct ExportJob {
    pub id: String,
    pub output_path: String,
    pub status: ExportStatus,
}

/// Why a registry operation failed.
#[derive(Debug, Clone, PartialEq, Eq)]
pub enum JobError {
    /// No job has this id.
    JobNotFound(String),
}

pub open spec fn is_terminal(s: ExportStatus) -> bool {
    s == ExportStatus::Complete || s == ExportStatus::Cancelled || s == ExportStatus::Failed
}

/// The state machine. A job not yet terminal becomes `Rendering` when its
/// process starts, `Failed` when the process cannot start or exits
/// unsuccessfully, `Complete` when it exits successfully, and `Cancelled`
/// when cancelled. Nothing leaves a terminal state.
pub open spec fn next_status(s: ExportStatus, e: JobEvent) -> ExportStatus {
    if is_terminal(s) {
        s
    } else {
        match e {
            JobEvent::Spawned => ExportStatus::Rendering,
            JobEvent::SpawnFailed => ExportStatus::Failed,
            JobEvent::Exited { success } => if success {
                ExportStatus::Complete
            } else {
                ExportStatus::Failed
            },
            JobEvent::CancelRequested => ExportStatus::Cancelled,
        }
    }
}

/// The status after a sequence of events.
pub open spec fn run_events(s: ExportStatus, events: Seq<JobEvent>) -> ExportStatus
    decreases events.len(),
{
    if events.len() == 0 {
        s
    } else {
        next_status(run_events(s, events.drop_last()), events.last())
    }
}

/// The next status of a job after an event.
pub fn transition(s: ExportStatus, e: JobEvent) -> (r: ExportStatus)
    ensures
        r == next_status(s, e),
{
    if s == ExportStatus::Complete || s == ExportStatus::Cancelled || s == ExportStatus::Failed {
        s
    } else {
        match e {
            JobEvent::Spawned => ExportStatus::Rendering,
            JobEvent::SpawnFailed => ExportStatus::Failed,
            JobEvent::Exited { success } => if success {
                ExportStatus::Complete
            } else {
                ExportStatus::Failed
            },
            JobEvent::CancelRequested => ExportStatus::Cancelled,
        }
    }
}

/// Once a job is in a terminal state, no sequence of events moves it.
pub proof fn lemma_terminal_is_final(s: ExportStatus, events: Seq<JobEvent>)
    requires
        is_terminal(s),
    ensures
        run_events(s, events) == s,
    decreases events.len(),
{
    if events.len() > 0 {
        lemma_terminal_is_final(s, events.drop_last());
    }
}

/// A cancelled job stays cancelled: whatever its process does afterwards,
/// it never becomes `Complete` (nor `Failed`).
pub proof fn lemma_cancelled_job_never_completes(events: Seq<JobEvent>)
    ensures
        run_events(ExportStatus::Cancelled, events) == ExportStatus::Cancelled,
        run_events(ExportStatus::Cancelled, events) != ExportStatus::Complete,
{
    lemma_terminal_is_final(ExportStatus::Cancelled, events);
}

/// What a cancellation did.
pub enum CancelOutcome<P> {
    /// The job is now `Cancelled`; the handle of its live process, if it
    /// had one, is handed over to be stopped.
    Cancelled(Option<P>),
    /// The job had already reached a terminal state and keeps it.
    AlreadyFinished,
}

/// A job in the registry, with the handle of its live process if any.
pub struct JobEntry<P> {
    pub job: ExportJob,
    pub process: Option<P>,
}

/// What the registry knows of a job.
pub struct JobView<P> {
    pub output_path: Seq<char>,
    pub status: ExportStatus,
    pub process: Option<P>,
}

pub open spec fn entry_view<P>(e: JobEntry<P>) -> JobView<P> {
    JobView { output_path: e.job.output_path@, status: e.job.status, process: e.process }
}

pub open spec fn ids_unique<P>(entries: Seq<JobEntry<P>>) -> bool {
    forall|i: int, j: int|
        0 <= i < entries.len() && 0 <= j < entries.len() && #[trigger] entries[i].job.id@ == #[trigger] entries[j].job.id@
            ==> i == j
}

pub open spec fn holds_id<P>(entries: Seq<JobEntry<P>>, k: Seq<char>) -> bool {
    exists|i: int| 0 <= i < entries.len() && #[trigger] entries[i].job.id@ == k
}

pub open spec fn jobs_view<P>(entries: Seq<JobEntry<P>>) -> Map<Seq<char>, JobView<P>> {
    Map::new(
        |k: Seq<char>| holds_id(entries, k),
        |k: Seq<char>| entry_view(entries[choose|i: int| 0 <= i < entries.len() && #[trigger] entries[i].job.id@ == k]),
    )
}

proof fn lemma_view_at<P>(entries: Seq<JobEntry<P>>, i: int)
    requires
        ids_unique(entries),
        0 <= i < entries.len(),
    ensures
        jobs_view(entries).contains_key(entries[i].job.id@),
        jobs_view(entries)[entries[i].job.id@] == entry_view(entries[i]),
{
    let k = entries[i].job.id@;
    assert(holds_id(entries, k));
    let j = choose|j: int| 0 <= j < entries.len() && #[trigger] entries[j].job.id@ == k;
    assert(entries[j].job.id@ == entries[i].job.id@);
}

proof fn lemma_view_update<P>(old: Seq<JobEntry<P>>, i: int, e: JobEntry<P>)
    requires
        ids_unique(old),
        0 <= i < old.len(),
        e.job.id@ == old[i].job.id@,
    ensures
        ids_unique(old.update(i, e)),
        jobs_view(old.update(i, e)) == jobs_view(old).insert(e.job.id@, entry_view(e)),
{
    let new = old.update(i, e);
    assert forall|a: int, b: int|
        0 <= a < new.len() && 0 <= b < new.len() && #[trigger] new[a].job.id@ == #[trigger] new[b].job.id@ implies a == b by {
        assert(old[a].job.id@ == new[a].job.id@);
        assert(old[b].job.id@ == new[b].job.id@);
    }
    let lhs = jobs_view(new);
    let rhs = jobs_view(old).insert(e.job.id@, entry_view(e));
    assert forall|k: Seq<char>| lhs.contains_key(k) <==> rhs.contains_key(k) by {
        if holds_id(new, k) {
            let j = choose|j: int| 0 <= j < new.len() && #[trigger] new[j].job.id@ == k;
            if j != i {
                assert(old[j].job.id@ == k);
            }
        }
        if holds_id(old, k) {
            let j = choose|j: int| 0 <= j < old.len() && #[trigger] old[j].job.id@ == k;
            assert(new[j].job.id@ == k);
        }
        if k == e.job.id@ {
            assert(new[i].job.id@ == k);
        }
    }
    assert forall|k: Seq<char>| #[trigger] lhs.contains_key(k) implies lhs[k] == rhs[k] by {
        let j = choose|j: int| 0 <= j < new.len() && #[trigger] new[j].job.id@ == k;
        if j == i {
            assert(lhs[k] == entry_view(e));
        } else {
            assert(old[j].job.id@ == k);
            lemma_view_at(old, j);
            lemma_view_at(new, j);
        }
    }
    assert(lhs =~= rhs);
}

proof fn lemma_view_push<P>(old: Seq<JobEntry<P>>, e: JobEntry<P>)
    requires
        ids_unique(old),
        !holds_id(old, e.job.id@),
    ensures
        ids_unique(old.push(e)),
        jobs_view(old.push(e)) == jobs_view(old).insert(e.job.id@, entry_view(e)),
{
    let new = old.push(e);
    let n = old.len() as int;
    assert forall|a: int, b: int|
        0 <= a < new.len() && 0 <= b < new.len() && #[trigger] new[a].job.id@ == #[trigger] new[b].job.id@ implies a == b by {
        if a < n && b < n {
            assert(old[a].job.id@ == new[a].job.id@);
            assert(old[b].job.id@ == new[b].job.id@);
        } else if a < n {
            assert(old[a].job.id@ == e.job.id@);
        } else if b < n {
            assert(old[b].job.id@ == e.job.id@);
        }
    }
    let lhs = jobs_view(new);
    let rhs = jobs_view(old).insert(e.job.id@, entry_view(e));
    assert forall|k: Seq<char>| lhs.contains_key(k) <==> rhs.contains_key(k) by {
        if holds_id(new, k) {
            let j = choose|j: int| 0 <= j < new.len() && #[trigger] new[j].job.id@ == k;
            if j < n {
                assert(old[j].job.id@ == k);
            }
        }
        if holds_id(old, k) {
            let j = choose|j: int| 0 <= j < old.len() && #[trigger] old[j].job.id@ == k;
            assert(new[j].job.id@ == k);
        }
        if k == e.job.id@ {
            assert(new[n].job.id@ == k);
        }
    }
    assert forall|k: Seq<char>| #[trigger] lhs.contains_key(k) implies lhs[k] == rhs[k] by {
        let j = choose|j: int| 0 <= j < new.len() && #[trigger] new[j].job.id@ == k;
        lemma_view_at(new, j);
        if j < n {
            assert(old[j].job.id@ == k);
            lemma_view_at(old, j);
        }
    }
    assert(lhs =~= rhs);
}

/// The registry of export jobs, keyed by job id.
pub struct JobRegistry<P> {
    entries: Vec<JobEntry<P>>,
}

impl<P> View for JobRegistry<P> {
    type V = Map<Seq<char>, JobView<P>>;

    closed spec fn view(&self) -> Map<Seq<char>, JobView<P>> {
        jobs_view(self.entries@)
    }
}

impl<P> JobRegistry<P> {
    /// Job ids are unique.
    pub closed spec fn wf(&self) -> bool {
        ids_unique(self.entries@)
    }

    /// An empty registry.
    pub fn new() -> (r: JobRegistry<P>)
        ensures
            r.wf(),
            r@ == Map::<Seq<char>, JobView<P>>::empty(),
    {
        let r = JobRegistry { entries: Vec::new() };
        assert(r@ =~= Map::<Seq<char>, JobView<P>>::empty());
        r
    }

    fn index_of(&self, id: &String) -> (r: Option<usize>)
        requires
            self.wf(),
        ensures
            r is None <==> !self@.contains_key(id@),
            r matches Some(i) ==> i < self.entries@.len() && self.entries@[i as int].job.id@ == id@,
    {
        let mut i: usize = 0;
        while i < self.entries.len()
            invariant
                i <= self.entries@.len(),
                ids_unique(self.entries@),
                forall|j: int| 0 <= j < i ==> self.entries@[j].job.id@ != id@,
            decreases self.entries@.len() - i,
        {
            if self.entries[i].job.id == *id {
                proof {
                    lemma_view_at(self.entries@, i as int);
                }
                return Some(i);
            }
            i = i + 1;
        }
        None
    }

    /// Adds a job in state `Preparing` without a process; a job with the
    /// same id is replaced.
    pub fn insert_job(&mut self, id: String, output_path: String)
        requires
            old(self).wf(),
        ensures
            final(self).wf(),
            final(self)@ == old(self)@.insert(id@, JobView { output_path: output_path@, status: ExportStatus::Preparing, process: None }),
    {
        let ghost key = id@;
        let ghost path = output_path@;
        let e = JobEntry { job: ExportJob { id: id.clone(), output_path, status: ExportStatus::Preparing }, process: None };
        match self.index_of(&id) {
            Some(i) => {
                proof {
                    lemma_view_update(self.entries@, i as int, e);
                }
                self.entries.set(i, e);
            },
            None => {
                proof {
                    lemma_view_push(self.entries@, e);
                }
                self.entries.push(e);
            },
        }
    }

    /// The length of the longest job id held.
    fn longest_id(&self) -> (r: usize)
        requires
            self.wf(),
        ensures
            forall|k: Seq<char>| self@.contains_key(k) ==> k.len() <= r,
    {
        let mut m: usize = 0;
        let mut i: usize = 0;
        while i < self.entries.len()
            invariant
                i <= self.entries@.len(),
                forall|j: int| 0 <= j < i ==> (#[trigger] self.entries@[j]).job.id@.len() <= m,
            decreases self.entries@.len() - i,
        {
            let len = self.entries[i].job.id.as_str().unicode_len();
            if len > m {
                m = len;
            }
            i = i + 1;
        }
        proof {
            assert forall|k: Seq<char>| self@.contains_key(k) implies k.len() <= m by {
                let j = choose|j: int| 0 <= j < self.entries@.len() && #[trigger] self.entries@[j].job.id@ == k;
                assert(self.entries@[j].job.id@.len() <= m);
            }
        }
        m
    }

    /// Registers a new job for `output_path` under an id the registry does
    /// not hold yet, which it returns: a fresh random id, lengthened with
    /// zeros past every held id in the unlikely case that it is taken.
    pub fn create_job(&mut self, output_path: String) -> (id: String)
        requires
            old(self).wf(),
        ensures
            final(self).wf(),
            !old(self)@.contains_key(id@),
            final(self)@ == old(self)@.insert(id@, JobView { output_path: output_path@, status: ExportStatus::Preparing, process: None }),
            id@.len() >= 36,
    {
        let mut id = new_id();
        if self.index_of(&id).is_some() {
            let m = self.longest_id();
            let mut len: u128 = id.as_str().unicode_len() as u128;
            while len <= m as u128
                invariant
                    id@.len() == len,
                    len >= 36,
                    len <= m + 1,
                decreases m + 1 - len,
            {
                proof {
                    reveal_strlit("0");
                }
                id.append("0");
                len = len + 1;
            }
            assert(!self@.contains_key(id@));
        }
        self.insert_job(id.clone(), output_path);
        id
    }

    /// The status of a job, if the registry holds it.
    pub fn status(&self, id: &String) -> (r: Option<ExportStatus>)
        requires
            self.wf(),
        ensures
            r is None <==> !self@.contains_key(id@),
            r matches Some(s) ==> s == self@[id@].status,
    {
        match self.index_of(id) {
            Some(i) => {
                proof {
                    lemma_view_at(self.entries@, i as int);
                }
                Some(self.entries[i].job.status)
            },
            None => None,
        }
    }

    /// Applies an event to a job and stores `process` as its handle. Returns
    /// the job's previous status and the handle it held before.
    fn apply(&mut self, i: usize, e: JobEvent, process: Option<P>) -> (r: (ExportStatus, Option<P>))
        requires
            old(self).wf(),
            i < old(self).entries@.len(),
        ensures
            final(self).wf(),
            r.0 == old(self).entries@[i as int].job.status,
            r.1 == old(self).entries@[i as int].process,
            final(self)@ == old(self)@.insert(
                old(self).entries@[i as int].job.id@,
                JobView {
                    output_path: old(self).entries@[i as int].job.output_path@,
                    status: next_status(r.0, e),
                    process,
                },
            ),
            final(self).entries@.len() == old(self).entries@.len(),
            final(self).entries@[i as int].job.id@ == old(self).entries@[i as int].job.id@,
    {
        let mut entry = self.entries.remove(i);
        let ghost removed = self.entries@;
        let before = entry.job.status;
        let held = entry.process;
        entry.job.status = transition(before, e);
        entry.process = process;
        self.entries.insert(i, entry);
        proof {
            assert(self.entries@ =~= old(self).entries@.update(i as int, entry));
            lemma_view_update(old(self).entries@, i as int, entry);
        }
        (before, held)
    }

    /// The process of a job started. A job still `Preparing` becomes
    /// `Rendering` and keeps the handle. Otherwise (a job cancelled in the
    /// meantime, or unknown) nothing changes and the handle is handed back,
    /// for the caller to stop the process.
    pub fn attach_process(&mut self, id: &String, process: P) -> (r: Result<(), P>)
        requires
            old(self).wf(),
        ensures
            final(self).wf(),
            old(self)@.contains_key(id@) && old(self)@[id@].status == ExportStatus::Preparing ==> r is Ok && final(self)@
                == old(self)@.insert(id@, JobView { output_path: old(self)@[id@].output_path, status: ExportStatus::Rendering, process: Some(process) }),
            !(old(self)@.contains_key(id@) && old(self)@[id@].status == ExportStatus::Preparing) ==> r == Err::<(), P>(process)
                && final(self)@ == old(self)@,
    {
        match self.index_of(id) {
            None => Err(process),
            Some(i) => {
                proof {
                    lemma_view_at(self.entries@, i as int);
                }
                if self.entries[i].job.status != ExportStatus::Preparing {
                    return Err(process);
                }
                let _ = self.apply(i, JobEvent::Spawned, Some(process));
                Ok(())
            },
        }
    }

    /// The job ends with `e` (a failed start or the process's exit). A job
    /// not yet in a terminal state takes its next status and drops its
    /// handle, and the result is that status; a job already terminal (in
    /// particular one cancelled meanwhile) or unknown is left as it is, and
    /// the result is `None`: nothing is to be announced.
    pub fn finish(&mut self, id: &String, e: JobEvent) -> (r: Option<ExportStatus>)
        requires
            old(self).wf(),
            e == JobEvent::SpawnFailed || e is Exited,
        ensures
            final(self).wf(),
            old(self)@.contains_key(id@) && !is_terminal(old(self)@[id@].status) ==> r == Some(next_status(old(self)@[id@].status, e))
                && final(self)@ == old(self)@.insert(
                id@,
                JobView { output_path: old(self)@[id@].output_path, status: next_status(old(self)@[id@].status, e), process: None },
            ),
            !(old(self)@.contains_key(id@) && !is_terminal(old(self)@[id@].status)) ==> r is None && final(self)@ == old(self)@,
    {
        match self.index_of(id) {
            None => None,
            Some(i) => {
                proof {
                    lemma_view_at(self.entries@, i as int);
                }
                let s = self.entries[i].job.status;
                if s == ExportStatus::Complete || s == ExportStatus::Cancelled || s == ExportStatus::Failed {
                    return None;
                }
                let _ = self.apply(i, e, None);
                Some(transition(s, e))
            },
        }
    }

    /// Cancels a job. An unknown id is an error. A job not yet terminal
    /// becomes `Cancelled` and its process handle, if any, is taken out and
    /// returned for the caller to stop. A job already terminal is left as
    /// it is (`AlreadyFinished`).
    pub fn cancel(&mut self, id: &String) -> (r: Result<CancelOutcome<P>, JobError>)
        requires
            old(self).wf(),
        ensures
            final(self).wf(),
            !old(self)@.contains_key(id@) ==> (r matches Err(JobError::JobNotFound(x)) && x@ == id@),
            !old(self)@.contains_key(id@) ==> final(self)@ == old(self)@,
            old(self)@.contains_key(id@) && is_terminal(old(self)@[id@].status) ==> r == Ok::<CancelOutcome<P>, JobError>(CancelOutcome::AlreadyFinished)
                && final(self)@ == old(self)@,
            old(self)@.contains_key(id@) && !is_terminal(old(self)@[id@].status) ==> r == Ok::<CancelOutcome<P>, JobError>(CancelOutcome::Cancelled(old(self)@[id@].process))
                && final(self)@ == old(self)@.insert(
                id@,
                JobView { output_path: old(self)@[id@].output_path, status: ExportStatus::Cancelled, process: None },
            ),
    {
        match self.index_of(id) {
            None => Err(JobError::JobNotFound(id.clone())),
            Some(i) => {
                proof {
                    lemma_view_at(self.entries@, i as int);
                }
                let s = self.entries[i].job.status;
                if s == ExportStatus::Complete || s == ExportStatus::Cancelled || s == ExportStatus::Failed {
                    return Ok(CancelOutcome::AlreadyFinished);
                }
                let (_, held) = self.apply(i, JobEvent::CancelRequested, None);
                Ok(CancelOutcome::Cancelled(held))
            },
        }
    }

    /// The output path of a job, if the registry holds it.
    pub fn output_path(&self, id: &String) -> (r: Option<String>)
        requires
            self.wf(),
        ensures
            r is None <==> !self@.contains_key(id@),
            r matches Some(p) ==> p@ == self@[id@].output_path,
    {
        match self.index_of(id) {
            Some(i) => {
                proof {
                    lemma_view_at(self.entries@, i as int);
                }
                Some(self.entries[i].job.output_path.clone())
            },
            None => None,
        }
    }
}

} // verus!
