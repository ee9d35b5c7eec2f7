use vstd::prelude::*;

use crate::config::ConfigError;

verus! {

/// Where one job stands in a run.
#[derive(Clone, Copy, Debug, PartialEq, Eq, Structural)]
pub enum JobState {
    /// Not admitted yet: it holds no ticket.
    Waiting,
    /// Admitted: it holds a ticket and its work is in flight.
    Running,
    /// Its work finished without error; its ticket was given back.
    Succeeded,
    /// Its work failed; its ticket was given back all the same.
    Failed,
}

/// Number of jobs in `s` that are in flight.
pub open spec fn count_running(s: Seq<JobState>) -> nat
    decreases s.len(),
{
    if s.len() == 0 {
        0
    } else {
        count_running(s.drop_last()) + if s.last() == JobState::Running {
            1nat
        } else {
            0nat
        }
    }
}

/// A job that has been through its work, well or badly.
pub open spec fn is_settled(st: JobState) -> bool {
    st == JobState::Succeeded || st == JobState::Failed
}

/// The abstract state of a run: one state per job, in input order, the
/// concurrency limit, and how many tickets were taken and given back.
pub struct PoolView {
    pub limit: nat,
    pub states: Seq<JobState>,
    pub acquired: nat,
    pub released: nat,
}

impl PoolView {
    /// Tickets held at this moment.
    pub open spec fn in_flight(self) -> int {
        self.acquired - self.released
    }

    /// The invariant of every run: jobs are admitted in input order, each
    /// admission takes one ticket and each completion gives one back, and
    /// the tickets held are exactly the running jobs, never above the limit.
    pub open spec fn valid(self) -> bool {
        &&& self.limit > 0
        &&& self.acquired <= self.states.len()
        &&& self.released <= self.acquired
        &&& self.in_flight() <= self.limit
        &&& count_running(self.states) == self.in_flight()
        &&& forall|i: int| 0 <= i < self.acquired ==> self.states[i] != JobState::Waiting
        &&& forall|i: int|
            self.acquired <= i < self.states.len() ==> self.states[i] == JobState::Waiting
    }

    /// A further job may be admitted now.
    pub open spec fn can_admit(self) -> bool {
        self.acquired < self.states.len() && self.in_flight() < self.limit
    }

    /// Every job was admitted and every ticket has come back.
    pub open spec fn is_finished(self) -> bool {
        self.acquired == self.states.len() && self.in_flight() == 0
    }

    /// The run after admitting the next job in input order.
    pub open spec fn admit_next(self) -> PoolView {
        PoolView {
            limit: self.limit,
            states: self.states.update(self.acquired as int, JobState::Running),
            acquired: self.acquired + 1,
            released: self.released,
        }
    }

    /// The run after job `job` finished, well or not.
    pub open spec fn complete_job(self, job: int, succeeded: bool) -> PoolView {
        PoolView {
            limit: self.limit,
            states: self.states.update(
                job,
                if succeeded {
                    JobState::Succeeded
                } else {
                    JobState::Failed
                },
            ),
            acquired: self.acquired,
            released: self.released + 1,
        }
    }
}

/// A fresh run over `jobs` jobs with at most `limit` in flight.
pub open spec fn fresh_run(jobs: nat, limit: nat) -> PoolView {
    PoolView { limit, states: Seq::new(jobs, |i: int| JobState::Waiting), acquired: 0, released: 0 }
}

/// Changing one entry of `s` changes the running count by what that entry
/// contributed before and after.
pub proof fn lemma_count_running_update(s: Seq<JobState>, i: int, st: JobState)
    requires
        0 <= i < s.len(),
    ensures
        count_running(s.update(i, st)) + (if s[i] == JobState::Running {
            1int
        } else {
            0int
        }) == count_running(s) + (if st == JobState::Running {
            1int
        } else {
            0int
        }),
    decreases s.len(),
{
    let t = s.update(i, st);
    assert(t.drop_last() =~= if i == s.len() - 1 {
        s.drop_last()
    } else {
        s.drop_last().update(i, st)
    });
    if i < s.len() - 1 {
        lemma_count_running_update(s.drop_last(), i, st);
    }
}

/// A sequence with no running job has a running count of zero, and one
/// with a running count of zero has no running job.
pub proof fn lemma_count_running_zero(s: Seq<JobState>)
    ensures
        count_running(s) == 0 <==> forall|i: int| 0 <= i < s.len() ==> s[i] != JobState::Running,
    decreases s.len(),
{
    if s.len() > 0 {
        lemma_count_running_zero(s.drop_last());
        if count_running(s) == 0 {
            assert forall|i: int| 0 <= i < s.len() implies s[i] != JobState::Running by {
                if i < s.len() - 1 {
                    assert(s[i] == s.drop_last()[i]);
                }
            }
        }
        if forall|i: int| 0 <= i < s.len() ==> s[i] != JobState::Running {
            assert forall|i: int| 0 <= i < s.drop_last().len() implies s.drop_last()[i]
                != JobState::Running by {
                assert(s.drop_last()[i] == s[i]);
            }
        }
    }
}

/// A sequence of waiting jobs has no running job.
pub proof fn lemma_count_running_all_waiting(jobs: nat)
    ensures
        count_running(Seq::new(jobs, |i: int| JobState::Waiting)) == 0,
{
    lemma_count_running_zero(Seq::new(jobs, |i: int| JobState::Waiting));
}


/// In every run, whatever order the steps take, the tickets out never exceed
/// the limit: a fresh run keeps the invariant, and so does each admission
/// and each completion, successful or not. The tickets out are exactly the
/// running jobs.
pub proof fn lemma_in_flight_within_limit(v: PoolView, jobs: nat, limit: nat, job: int, ok: bool)
    ensures
        limit > 0 ==> fresh_run(jobs, limit).valid(),
        v.valid() ==> 0 <= v.in_flight() <= v.limit,
        v.valid() ==> count_running(v.states) == v.in_flight(),
        v.valid() && v.can_admit() ==> v.admit_next().valid(),
        v.valid() && 0 <= job < v.states.len() && v.states[job] == JobState::Running
            ==> v.complete_job(job, ok).valid(),
{
    lemma_count_running_all_waiting(jobs);
    if v.valid() && v.can_admit() {
        lemma_count_running_update(v.states, v.acquired as int, JobState::Running);
    }
    if v.valid() && 0 <= job < v.states.len() && v.states[job] == JobState::Running {
        let st = if ok {
            JobState::Succeeded
        } else {
            JobState::Failed
        };
        lemma_count_running_update(v.states, job, st);
    }
}

/// At the end of a run every ticket taken has been given back, one per job,
/// and every job has been through its work, even where all of them failed.
pub proof fn lemma_finished_run_releases_all(v: PoolView)
    requires
        v.valid(),
        v.is_finished(),
    ensures
        v.acquired == v.released,
        v.released == v.states.len(),
        forall|i: int| 0 <= i < v.states.len() ==> is_settled(#[trigger] v.states[i]),
{
    lemma_count_running_zero(v.states);
    assert forall|i: int| 0 <= i < v.states.len() implies is_settled(#[trigger] v.states[i]) by {
        assert(v.states[i] != JobState::Waiting);
        assert(v.states[i] != JobState::Running);
    }
}

/// A run that has not finished can always move on: a job can be admitted,
/// or a running job is left whose completion gives a ticket back. Each step
/// raises `acquired + released`, which cannot pass twice the job count, so
/// every run reaches its end whatever the jobs' outcomes.
pub proof fn lemma_unfinished_run_progresses(v: PoolView)
    requires
        v.valid(),
        !v.is_finished(),
    ensures
        v.can_admit() || exists|i: int|
            0 <= i < v.states.len() && #[trigger] v.states[i] == JobState::Running,
        v.acquired + v.released < 2 * v.states.len(),
{
    if !v.can_admit() {
        if v.in_flight() == 0 {
            assert(v.acquired == v.states.len());
        }
        assert(v.in_flight() > 0);
        lemma_count_running_zero(v.states);
    }
}

/// A job that fails gives its ticket back like any other, leaves every other
/// job as it was, and the run can still go on to its end.
pub proof fn lemma_failure_isolated(v: PoolView, job: int)
    requires
        v.valid(),
        0 <= job < v.states.len(),
        v.states[job] == JobState::Running,
    ensures
        v.complete_job(job, false).valid(),
        v.complete_job(job, false).states[job] == JobState::Failed,
        v.complete_job(job, false).in_flight() == v.in_flight() - 1,
        forall|i: int|
            0 <= i < v.states.len() && i != job ==> #[trigger] v.complete_job(job, false).states[i]
                == v.states[i],
        v.complete_job(job, false).is_finished() || v.complete_job(job, false).can_admit()
            || exists|i: int|
            0 <= i < v.states.len() && #[trigger] v.complete_job(job, false).states[i]
                == JobState::Running,
{
    lemma_in_flight_within_limit(v, 0, 1, job, false);
    let w = v.complete_job(job, false);
    if !w.is_finished() {
        lemma_unfinished_run_progresses(w);
    }
}

/// The admission bookkeeping of a run: which jobs hold a ticket, in input
/// order, with at most `limit` tickets out at once. The caller performs the
/// work of each admitted job and reports back when it ends.
pub struct Pool {
    limit: usize,
    states: Vec<JobState>,
    acquired: usize,
    released: usize,
}

impl View for Pool {
    type V = PoolView;

    closed spec fn view(&self) -> PoolView {
        PoolView {
            limit: self.limit as nat,
            states: self.states@,
            acquired: self.acquired as nat,
            released: self.released as nat,
        }
    }
}

impl Pool {
    /// The pool keeps the invariant of every run.
    pub open spec fn wf(&self) -> bool {
        self@.valid()
    }

    /// Sets up a run of `jobs` jobs with at most `limit` in flight. A limit
    /// of zero is refused before any job is admitted.
    pub fn new(jobs: usize, limit: usize) -> (r: Result<Pool, ConfigError>)
        ensures
            limit == 0 <==> r is Err,
            r is Err ==> r->Err_0 == ConfigError::ZeroConcurrency,
            r is Ok ==> r->Ok_0.wf() && r->Ok_0@ == fresh_run(jobs as nat, limit as nat),
    {
        if limit == 0 {
            return Err(ConfigError::ZeroConcurrency);
        }
        let mut states: Vec<JobState> = Vec::new();
        let mut k: usize = 0;
        while k < jobs
            invariant
                k <= jobs,
                states@ =~= Seq::new(k as nat, |i: int| JobState::Waiting),
            decreases jobs - k,
        {
            states.push(JobState::Waiting);
            k = k + 1;
        }
        proof {
            lemma_count_running_all_waiting(jobs as nat);
        }
        let pool = Pool { limit, states, acquired: 0, released: 0 };
        assert(pool@ =~= fresh_run(jobs as nat, limit as nat));
        Ok(pool)
    }

    /// Admits the next job in input order if a ticket is free and a job is
    /// left, and returns its index; otherwise changes nothing.
    pub fn try_admit(&mut self) -> (r: Option<usize>)
        requires
            old(self).wf(),
        ensures
            final(self).wf(),
            old(self)@.can_admit() ==> r == Some(old(self)@.acquired as usize) && final(self)@
                == old(self)@.admit_next(),
            !old(self)@.can_admit() ==> r is None && final(self)@ == old(self)@,
    {
        if self.acquired < self.states.len() && self.acquired - self.released < self.limit {
            let job = self.acquired;
            proof {
                lemma_count_running_update(self.states@, job as int, JobState::Running);
            }
            self.states.set(job, JobState::Running);
            self.acquired = self.acquired + 1;
            assert(self@ =~= old(self)@.admit_next());
            Some(job)
        } else {
            None
        }
    }

    /// Records that job `job`, which was running, has ended, and gives its
    /// ticket back. A failure is recorded like a success: it touches no
    /// other job.
    pub fn complete(&mut self, job: usize, succeeded: bool)
        requires
            old(self).wf(),
            job < old(self)@.states.len(),
            old(self)@.states[job as int] == JobState::Running,
        ensures
            final(self).wf(),
            final(self)@ == old(self)@.complete_job(job as int, succeeded),
    {
        let st = if succeeded {
            JobState::Succeeded
        } else {
            JobState::Failed
        };
        proof {
            lemma_count_running_update(self.states@, job as int, st);
        }
        self.states.set(job, st);
        self.released = self.released + 1;
        assert(self@ =~= old(self)@.complete_job(job as int, succeeded));
    }

    /// Every job was admitted and every ticket has come back.
    pub fn is_finished(&self) -> (r: bool)
        requires
            self.wf(),
        ensures
            r == self@.is_finished(),
    {
        self.acquired == self.states.len() && self.acquired == self.released
    }
    /// Tickets held at this moment: the number of running jobs.
    pub fn in_flight(&self) -> (r: usize)
        requires
            self.wf(),
        ensures
            r == self@.in_flight(),
    {
        self.acquired - self.released
    }

    /// The concurrency limit of the run.
    pub fn limit(&self) -> (r: usize)
        ensures
            r == self@.limit,
    {
        self.limit
    }

    /// The number of jobs in the run.
    pub fn job_count(&self) -> (r: usize)
        ensures
            r == self@.states.len(),
    {
        self.states.len()
    }

    /// Tickets taken so far, one per admitted job.
    pub fn acquired(&self) -> (r: usize)
        ensures
            r == self@.acquired,
    {
        self.acquired
    }

    /// Tickets given back so far, one per ended job.
    pub fn released(&self) -> (r: usize)
        ensures
            r == self@.released,
    {
        self.released
    }

    /// Where job `job` stands.
    pub fn state(&self, job: usize) -> (r: JobState)
        requires
            job < self@.states.len(),
        ensures
            r == self@.states[job as int],
    {
        self.states[job]
    }

    /// Tells whether `job` is a job of the run that is in flight now.
    pub fn is_running(&self, job: usize) -> (r: bool)
        ensures
            r == (job < self@.states.len() && self@.states[job as int] == JobState::Running),
    {
        job < self.states.len() && self.states[job] == JobState::Running
    }
}

} // verus!
