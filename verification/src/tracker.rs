//! The table of analysis jobs: a job is tracked from the moment its bundle is
//! accepted until its terminal status has been handed out once.

use vstd::prelude::*;
use crate::scan::{ScanOutcome, verdict_for, verdict_of};
use crate::table::{Entry, Table, as_map, distinct_keys};

verus! {

/// What the analysis says of one file.
#[derive(Clone, Copy, Debug, PartialEq, Eq, Structural)]
pub enum Verdict {
    Clean,
    Dirty,
}

/// Where a job stands.
#[derive(Clone, Copy, Debug, PartialEq, Eq, Structural)]
pub enum JobStatus {
    Processing,
    Scanned,
    Error,
}

/// How an analysis ended.
#[derive(Clone, Copy, Debug, PartialEq, Eq, Structural)]
pub enum Outcome {
    Scanned,
    Error,
}

impl Verdict {
    /// The word that a report shows.
    pub open spec fn word(self) -> Seq<char> {
        match self {
            Verdict::Clean => "CLEAN"@,
            Verdict::Dirty => "DIRTY"@,
        }
    }

    /// The word that a report shows.
    pub fn label(&self) -> (s: &'static str)
        ensures
            s@ == self.word(),
    {
        match self {
            Verdict::Clean => "CLEAN",
            Verdict::Dirty => "DIRTY",
        }
    }
}

/// The status that the answer to a submission shows.
pub open spec fn accepted_word() -> Seq<char> {
    "uploaded"@
}

/// The status that the answer to a submission shows.
pub fn accepted_label() -> (s: &'static str)
    ensures
        s@ == accepted_word(),
{
    "uploaded"
}

/// The format version that a terminal report carries.
pub const REPORT_VERSION: u32 = 2;

impl JobStatus {
    /// A job that is scanned or in error will not change any more.
    pub open spec fn terminal(self) -> bool {
        self != JobStatus::Processing
    }

    /// The word that a report shows.
    pub open spec fn word(self) -> Seq<char> {
        match self {
            JobStatus::Processing => "processing"@,
            JobStatus::Scanned => "scanned"@,
            JobStatus::Error => "error"@,
        }
    }

    /// The word that a report shows.
    pub fn label(&self) -> (s: &'static str)
        ensures
            s@ == self.word(),
    {
        match self {
            JobStatus::Processing => "processing",
            JobStatus::Scanned => "scanned",
            JobStatus::Error => "error",
        }
    }

    /// Whether the status is terminal.
    pub fn is_terminal(&self) -> (b: bool)
        ensures
            b == self.terminal(),
    {
        match self {
            JobStatus::Processing => false,
            _ => true,
        }
    }
}

impl Outcome {
    /// The terminal status that records this outcome.
    pub open spec fn status(self) -> JobStatus {
        match self {
            Outcome::Scanned => JobStatus::Scanned,
            Outcome::Error => JobStatus::Error,
        }
    }

    /// The terminal status that records this outcome.
    pub fn to_status(&self) -> (s: JobStatus)
        ensures
            s == self.status(),
            s.terminal(),
    {
        match self {
            Outcome::Scanned => JobStatus::Scanned,
            Outcome::Error => JobStatus::Error,
        }
    }
}

/// A job as the contracts see it: its status and the verdict of each file, by
/// the file's path relative to the scan root.
pub struct JobState {
    pub status: JobStatus,
    pub files: Map<Seq<char>, Verdict>,
}

/// The state of a job that has just been accepted.
pub open spec fn fresh_job() -> JobState {
    JobState { status: JobStatus::Processing, files: Map::empty() }
}

struct Job {
    status: JobStatus,
    files: Table<Verdict>,
}

impl Job {
    spec fn view(&self) -> JobState {
        JobState { status: self.status, files: self.files@ }
    }
}

/// What a poll hands out.
#[derive(Debug, PartialEq, Eq)]
pub enum PollReply {
    /// No job has this id: it was never accepted, or its report was taken.
    NotFound,
    /// The job is still being analysed; nothing is said of its files.
    Pending { id: String, status: JobStatus },
    /// The job has ended; this is its one and only report.
    Report { id: String, status: JobStatus, version: u32, files: Vec<Entry<Verdict>> },
}

/// The table after the verdict of one file of job `id` has been recorded:
/// the file is bound to the verdict, everything else is as before.
pub open spec fn recorded(
    jobs: Map<Seq<char>, JobState>,
    id: Seq<char>,
    path: Seq<char>,
    verdict: Verdict,
) -> Map<Seq<char>, JobState> {
    jobs.insert(
        id,
        JobState { status: jobs[id].status, files: jobs[id].files.insert(path, verdict) },
    )
}

/// The table after the analysis of job `id` has ended.
pub open spec fn finished(jobs: Map<Seq<char>, JobState>, id: Seq<char>, outcome: Outcome) -> Map<
    Seq<char>,
    JobState,
> {
    jobs.insert(id, JobState { status: outcome.status(), files: jobs[id].files })
}

/// What `poll` answers for `id` on the table `jobs`, up to the order in which
/// a report lists its files.
pub open spec fn poll_answer(jobs: Map<Seq<char>, JobState>, id: Seq<char>, r: PollReply) -> bool {
    if !jobs.contains_key(id) {
        r is NotFound
    } else if !jobs[id].status.terminal() {
        &&& r matches PollReply::Pending { id: rid, status }
        &&& rid@ == id
        &&& status == JobStatus::Processing
    } else {
        &&& r matches PollReply::Report { id: rid, status, version, files }
        &&& rid@ == id
        &&& status == jobs[id].status
        &&& version == REPORT_VERSION
        &&& distinct_keys(files@)
        &&& as_map(files@) == jobs[id].files
    }
}

/// The table that `poll` leaves behind: a job in a terminal status is gone,
/// everything else stays.
pub open spec fn poll_rest(jobs: Map<Seq<char>, JobState>, id: Seq<char>) -> Map<
    Seq<char>,
    JobState,
> {
    if jobs.contains_key(id) && jobs[id].status.terminal() {
        jobs.remove(id)
    } else {
        jobs
    }
}

/// The jobs in flight.
pub struct JobTracker {
    jobs: Table<Job>,
}

impl JobTracker {
    /// No id is tracked twice, and no job lists a file twice.
    pub closed spec fn wf(&self) -> bool {
        &&& self.jobs.wf()
        &&& forall|k: Seq<char>| #[trigger]
            self.jobs@.contains_key(k) ==> self.jobs@[k].files.wf()
    }

    /// The tracked jobs by id.
    pub closed spec fn view(&self) -> Map<Seq<char>, JobState> {
        Map::new(|k: Seq<char>| self.jobs@.contains_key(k), |k: Seq<char>| self.jobs@[k]@)
    }

    /// A tracker without jobs.
    pub fn new() -> (t: JobTracker)
        ensures
            t.wf(),
            t@ == Map::<Seq<char>, JobState>::empty(),
    {
        let t = JobTracker { jobs: Table::new() };
        assert(t@ =~= Map::<Seq<char>, JobState>::empty());
        t
    }

    /// Whether a job with this id is tracked.
    pub fn contains(&self, id: &String) -> (b: bool)
        requires
            self.wf(),
        ensures
            b == self@.contains_key(id@),
    {
        self.jobs.find(id).is_some()
    }

    /// The status of the job with this id, if it is tracked. Nothing changes.
    pub fn status(&self, id: &String) -> (r: Option<JobStatus>)
        requires
            self.wf(),
        ensures
            match r {
                Some(s) => self@.contains_key(id@) && s == self@[id@].status,
                None => !self@.contains_key(id@),
            },
    {
        match self.jobs.get(id) {
            Some(job) => Some(job.status),
            None => None,
        }
    }

    /// Accepts a job: it is tracked from now on, in processing, without files.
    /// A job that was tracked under the same id is replaced.
    pub fn submit(&mut self, id: String)
        requires
            old(self).wf(),
        ensures
            final(self).wf(),
            final(self)@ == old(self)@.insert(id@, fresh_job()),
    {
        let job = Job { status: JobStatus::Processing, files: Table::new() };
        self.jobs.insert(id, job);
        assert(self@ =~= old(self)@.insert(id@, fresh_job()));
    }

    /// Records the verdict of one file of a job, which must be tracked. A
    /// verdict recorded earlier for the same path is replaced; the status
    /// stays.
    pub fn record(&mut self, id: &String, path: String, verdict: Verdict)
        requires
            old(self).wf(),
            old(self)@.contains_key(id@),
        ensures
            final(self).wf(),
            final(self)@ == recorded(old(self)@, id@, path@, verdict),
    {
        match self.jobs.find(id) {
            Some(i) => {
                let job = self.jobs.value_mut(i);
                job.files.insert(path, verdict);
                assert(self@ =~= recorded(old(self)@, id@, path@, verdict));
            },
            None => {},
        }
    }

    /// Records what the scanner said of one file of a job, which must be
    /// tracked: clean where it said clean or whitelisted, dirty where it found
    /// something or could not scan.
    pub fn record_scan(&mut self, id: &String, path: String, outcome: ScanOutcome)
        requires
            old(self).wf(),
            old(self)@.contains_key(id@),
        ensures
            final(self).wf(),
            final(self)@ == recorded(old(self)@, id@, path@, verdict_for(outcome)),
    {
        self.record(id, path, verdict_of(outcome));
    }

    /// Ends the analysis of a job, which must be tracked: its status becomes
    /// the terminal status of `outcome`, its files stay.
    pub fn finish(&mut self, id: &String, outcome: Outcome)
        requires
            old(self).wf(),
            old(self)@.contains_key(id@),
        ensures
            final(self).wf(),
            final(self)@ == finished(old(self)@, id@, outcome),
    {
        match self.jobs.find(id) {
            Some(i) => {
                let job = self.jobs.value_mut(i);
                job.status = outcome.to_status();
                assert(self@ =~= finished(old(self)@, id@, outcome));
            },
            None => {},
        }
    }

    /// Answers a poll. An unknown id is not found. A job in processing is
    /// reported by id and status alone and stays tracked. A job in a terminal
    /// status is taken out of the table in the same step and reported in full,
    /// so that a later poll for its id finds nothing.
    pub fn poll(&mut self, id: &String) -> (r: PollReply)
        requires
            old(self).wf(),
        ensures
            final(self).wf(),
            poll_answer(old(self)@, id@, r),
            final(self)@ == poll_rest(old(self)@, id@),
    {
        match self.jobs.find(id) {
            None => PollReply::NotFound,
            Some(i) => {
                let status = self.jobs.entry(i).value.status;
                if status.is_terminal() {
                    match self.jobs.remove(id) {
                        Some(job) => {
                            assert(self@ =~= old(self)@.remove(id@));
                            PollReply::Report {
                                id: id.clone(),
                                status,
                                version: REPORT_VERSION,
                                files: job.files.into_entries(),
                            }
                        },
                        None => PollReply::NotFound,
                    }
                } else {
                    PollReply::Pending { id: id.clone(), status }
                }
            },
        }
    }
}

/// Before a job has ended, a poll answers with id and status only and leaves
/// the table as it is.
pub proof fn lemma_poll_before_completion(jobs: Map<Seq<char>, JobState>, id: Seq<char>, r: PollReply)
    requires
        jobs.contains_key(id),
        !jobs[id].status.terminal(),
        poll_answer(jobs, id, r),
    ensures
        r is Pending,
        poll_rest(jobs, id) == jobs,
{
}

/// Once a poll has handed out a report, every later poll for that id is
/// answered with not-found, until a job is accepted under that id again.
pub proof fn lemma_report_taken_once(
    jobs: Map<Seq<char>, JobState>,
    id: Seq<char>,
    first: PollReply,
    second: PollReply,
)
    requires
        poll_answer(jobs, id, first),
        first is Report,
        poll_answer(poll_rest(jobs, id), id, second),
    ensures
        second is NotFound,
        poll_rest(poll_rest(jobs, id), id) == poll_rest(jobs, id),
        !poll_rest(jobs, id).contains_key(id),
{
}

/// A poll for one id leaves every other job as it was.
pub proof fn lemma_poll_keeps_others(jobs: Map<Seq<char>, JobState>, id: Seq<char>, other: Seq<char>)
    requires
        other != id,
    ensures
        poll_rest(jobs, id).contains_key(other) == jobs.contains_key(other),
        jobs.contains_key(other) ==> poll_rest(jobs, id)[other] == jobs[other],
{
}

/// A file that the scanner could not scan is dirty, whatever was recorded
/// or is recorded of any other file, and recording it changes no other file's
/// verdict and no other job.
pub proof fn lemma_failed_scan_is_dirty(
    jobs: Map<Seq<char>, JobState>,
    id: Seq<char>,
    path: Seq<char>,
    other: Seq<char>,
)
    requires
        jobs.contains_key(id),
        other != path,
    ensures
        ({
            let after = recorded(jobs, id, path, verdict_for(ScanOutcome::Failed));
            &&& after[id].files.contains_key(path)
            &&& after[id].files[path] == Verdict::Dirty
            &&& after[id].status == jobs[id].status
            &&& after[id].files.contains_key(other) == jobs[id].files.contains_key(other)
            &&& jobs[id].files.contains_key(other) ==> after[id].files[other] == jobs[id].files[other]
            &&& after.remove(id) == jobs.remove(id)
        }),
{
    let after = recorded(jobs, id, path, verdict_for(ScanOutcome::Failed));
    assert(after.remove(id) =~= jobs.remove(id));
}

/// The status of a job goes one way: recording a verdict keeps it, ending
/// the analysis makes it terminal, and only a new submission under the same
/// id starts over.
pub proof fn lemma_status_monotonic(
    jobs: Map<Seq<char>, JobState>,
    id: Seq<char>,
    path: Seq<char>,
    verdict: Verdict,
    outcome: Outcome,
)
    requires
        jobs.contains_key(id),
    ensures
        recorded(jobs, id, path, verdict)[id].status == jobs[id].status,
        finished(jobs, id, outcome)[id].status.terminal(),
        finished(jobs, id, outcome)[id].files == jobs[id].files,
{
}

} // verus!
