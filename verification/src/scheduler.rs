//! The background job scheduler.
//!
//! Producers push work items onto one process-wide FIFO queue; a fixed
//! pool of worker threads pops one item at a time, runs it against the
//! shared device context, and marks its tracker with a terminal state.
//! This module holds the scheduler's state machine: what each
//! operation does to the queue, the per-job states and the per-thread
//! states. The thread pool itself, and the blocking in `flush`, live
//! with the embedding application, which drives this state machine
//! under its lock.

use vstd::prelude::*;

verus! {

/// How often a job is meant to run.
#[derive(Debug, PartialEq, Eq, Structural)]
pub enum JobFrequency {
    /// Once per rendered frame.
    Frame,
    /// Periodically, such as a cache cleanup pass.
    Periodically,
    /// Exactly once.
    Once,
}

/// The lifecycle state of one submitted job: Queued, then Processing
/// on exactly one worker, then one terminal state.
#[derive(Copy, Clone, Debug, PartialEq, Eq, Structural)]
pub enum JobState {
    /// Waiting in the queue.
    Queued,
    /// Running on a worker.
    Processing,
    /// Finished with an error; the detail is logged, not returned.
    Failed,
    /// Finished without an error.
    Succeeded,
}

/// What one worker thread is doing.
#[derive(Copy, Clone, Debug, PartialEq, Eq, Structural)]
pub enum ThreadState {
    /// Waiting for work.
    Idle,
    /// Running a job.
    Processing,
}

/// A caller's handle onto one submitted job, by job index; the caller
/// can poll or block on it to learn the job's terminal outcome.
#[derive(Copy, Clone, Debug, PartialEq, Eq, Structural)]
pub struct JobStateTracker {
    /// Index of the job in the scheduler's job table.
    pub job: usize,
}

/// An introspection handle onto one worker thread, by thread index.
#[derive(Copy, Clone, Debug, PartialEq, Eq, Structural)]
pub struct ThreadStateTracker {
    /// Index of the thread in the scheduler's pool.
    pub thread: usize,
}

/// The scheduler's state: one entry per submitted job, the FIFO queue
/// of still-unclaimed work items, and the worker pool.
pub struct JobScheduler<J> {
    jobs: Vec<JobState>,
    queue: Vec<(usize, J)>,
    threads: Vec<ThreadState>,
    device_ready: bool,
    terminate: bool,
}

/// Every job state is terminal.
pub open spec fn all_terminal(jobs: Seq<JobState>) -> bool {
    forall|i: int|
        0 <= i < jobs.len() ==> (jobs[i] == JobState::Failed || jobs[i] == JobState::Succeeded)
}

impl<J> JobScheduler<J> {
    /// The state of every job ever submitted, by job index.
    pub closed spec fn jobs(&self) -> Seq<JobState> {
        self.jobs@
    }

    /// The queued, not yet claimed work items, oldest first, each with
    /// its job index.
    pub closed spec fn queue(&self) -> Seq<(usize, J)> {
        self.queue@
    }

    /// The state of every worker thread, by thread index.
    pub closed spec fn threads(&self) -> Seq<ThreadState> {
        self.threads@
    }

    /// Whether the shared device context has been configured.
    pub closed spec fn device_ready(&self) -> bool {
        self.device_ready
    }

    /// Whether workers have been asked to shut down.
    pub closed spec fn terminate(&self) -> bool {
        self.terminate
    }

    /// Every queued item refers to a job in the job table.
    pub closed spec fn wf(&self) -> bool {
        forall|i: int| 0 <= i < self.queue@.len() ==> (#[trigger] self.queue@[i]).0 < self.jobs@.len()
    }

    /// A scheduler with no jobs, no queue and no workers; the device
    /// context is not configured yet.
    pub fn init() -> (r: Self)
        ensures
            r.wf(),
            r.jobs() == Seq::<JobState>::empty(),
            r.queue() == Seq::<(usize, J)>::empty(),
            r.threads() == Seq::<ThreadState>::empty(),
            !r.device_ready(),
            !r.terminate(),
    {
        let r = JobScheduler {
            jobs: Vec::new(),
            queue: Vec::new(),
            threads: Vec::new(),
            device_ready: false,
            terminate: false,
        };
        proof {
            assert(r.queue() =~= Seq::<(usize, J)>::empty());
        }
        r
    }

    /// Records the one-time configuration of the shared device and
    /// queue handles, which the embedding application keeps; workers
    /// may only be spawned afterwards.
    pub fn init_device_queue(&mut self)
        requires
            old(self).wf(),
        ensures
            final(self).wf(),
            final(self).device_ready(),
            final(self).jobs() == old(self).jobs(),
            final(self).queue() == old(self).queue(),
            final(self).threads() == old(self).threads(),
            final(self).terminate() == old(self).terminate(),
    {
        self.device_ready = true;
    }

    /// Asks the workers to shut down; each exits when it next finds
    /// the queue empty.
    pub fn request_terminate(&mut self)
        requires
            old(self).wf(),
        ensures
            final(self).wf(),
            final(self).terminate(),
            final(self).jobs() == old(self).jobs(),
            final(self).queue() == old(self).queue(),
            final(self).threads() == old(self).threads(),
            final(self).device_ready() == old(self).device_ready(),
    {
        self.terminate = true;
    }

    /// Whether workers have been asked to shut down.
    pub fn should_terminate(&self) -> (r: bool)
        ensures
            r == self.terminate(),
    {
        self.terminate
    }

    /// Registers one new worker thread, initially idle; the device
    /// context must have been configured first.
    pub fn spawn_worker(&mut self) -> (r: ThreadStateTracker)
        requires
            old(self).wf(),
            old(self).device_ready(),
        ensures
            final(self).wf(),
            r.thread == old(self).threads().len(),
            final(self).threads() == old(self).threads().push(ThreadState::Idle),
            final(self).jobs() == old(self).jobs(),
            final(self).queue() == old(self).queue(),
            final(self).device_ready() == old(self).device_ready(),
            final(self).terminate() == old(self).terminate(),
    {
        let t = ThreadStateTracker { thread: self.threads.len() };
        self.threads.push(ThreadState::Idle);
        t
    }

    /// Registers `count` new worker threads, all initially idle.
    pub fn spawn_workers(&mut self, count: usize) -> (r: Vec<ThreadStateTracker>)
        requires
            old(self).wf(),
            old(self).device_ready(),
            old(self).threads().len() + count <= usize::MAX,
        ensures
            final(self).wf(),
            final(self).threads().len() == old(self).threads().len() + count,
            forall|i: int|
                0 <= i < old(self).threads().len() ==> final(self).threads()[i]
                    == old(self).threads()[i],
            forall|i: int|
                old(self).threads().len() <= i < final(self).threads().len()
                    ==> final(self).threads()[i] == ThreadState::Idle,
            r@.len() == count,
            forall|i: int|
                0 <= i < count ==> (#[trigger] r@[i]).thread == old(self).threads().len() + i,
            final(self).jobs() == old(self).jobs(),
            final(self).queue() == old(self).queue(),
            final(self).device_ready() == old(self).device_ready(),
            final(self).terminate() == old(self).terminate(),
    {
        let mut out: Vec<ThreadStateTracker> = Vec::new();
        let mut i: usize = 0;
        while i < count
            invariant
                self.wf(),
                self.device_ready(),
                0 <= i <= count,
                old(self).threads().len() + count <= usize::MAX,
                self.threads().len() == old(self).threads().len() + i,
                forall|j: int|
                    0 <= j < old(self).threads().len() ==> self.threads()[j] == old(
                        self,
                    ).threads()[j],
                forall|j: int|
                    old(self).threads().len() <= j < self.threads().len() ==> self.threads()[j]
                        == ThreadState::Idle,
                out@.len() == i,
                forall|j: int|
                    0 <= j < i ==> (#[trigger] out@[j]).thread == old(self).threads().len() + j,
                self.jobs() == old(self).jobs(),
                self.queue() == old(self).queue(),
                self.device_ready() == old(self).device_ready(),
                self.terminate() == old(self).terminate(),
            decreases count - i,
        {
            let t = self.spawn_worker();
            out.push(t);
            i = i + 1;
        }
        out
    }

    /// Pushes a work item onto the queue with a fresh tracker in the
    /// Queued state, and returns the tracker. Submitting with no
    /// workers registered is allowed; the item simply sits queued.
    pub fn submit(&mut self, job: J) -> (r: JobStateTracker)
        requires
            old(self).wf(),
        ensures
            final(self).wf(),
            r.job == old(self).jobs().len(),
            final(self).jobs() == old(self).jobs().push(JobState::Queued),
            final(self).queue() == old(self).queue().push((r.job, job)),
            final(self).threads() == old(self).threads(),
            final(self).device_ready() == old(self).device_ready(),
            final(self).terminate() == old(self).terminate(),
    {
        let id = self.jobs.len();
        self.jobs.push(JobState::Queued);
        self.queue.push((id, job));
        JobStateTracker { job: id }
    }

    /// A worker claims the oldest queued item: the item leaves the
    /// queue, its job is marked Processing, and so is the worker.
    /// With an empty queue nothing changes and nothing is returned.
    pub fn worker_take(&mut self, t: ThreadStateTracker) -> (r: Option<(JobStateTracker, J)>)
        requires
            old(self).wf(),
            t.thread < old(self).threads().len(),
        ensures
            final(self).wf(),
            match r {
                None => old(self).queue().len() == 0 && *final(self) == *old(self),
                Some(p) => old(self).queue().len() > 0 && p.0.job == old(self).queue()[0].0
                    && p.1 == old(self).queue()[0].1 && p.0.job < old(self).jobs().len()
                    && final(self).queue() == old(self).queue().drop_first()
                    && final(self).jobs() == old(self).jobs().update(
                    p.0.job as int,
                    JobState::Processing,
                ) && final(self).threads() == old(self).threads().update(
                    t.thread as int,
                    ThreadState::Processing,
                ) && final(self).device_ready() == old(self).device_ready()
                    && final(self).terminate() == old(self).terminate(),
            },
    {
        if self.queue.len() == 0 {
            return None;
        }
        let (id, job) = self.queue.remove(0);
        proof {
            assert(self.queue@ =~= old(self).queue@.drop_first());
        }
        self.jobs.set(id, JobState::Processing);
        self.threads.set(t.thread, ThreadState::Processing);
        Some((JobStateTracker { job: id }, job))
    }

    /// A worker reports the outcome of the job it ran: the job enters
    /// its terminal state — Succeeded, or Failed with the error
    /// logged rather than returned — and the worker goes back to
    /// idle.
    pub fn worker_finish(&mut self, t: ThreadStateTracker, jt: JobStateTracker, success: bool)
        requires
            old(self).wf(),
            t.thread < old(self).threads().len(),
            jt.job < old(self).jobs().len(),
        ensures
            final(self).wf(),
            final(self).jobs() == old(self).jobs().update(
                jt.job as int,
                if success {
                    JobState::Succeeded
                } else {
                    JobState::Failed
                },
            ),
            final(self).threads() == old(self).threads().update(t.thread as int, ThreadState::Idle),
            final(self).queue() == old(self).queue(),
            final(self).device_ready() == old(self).device_ready(),
            final(self).terminate() == old(self).terminate(),
    {
        if success {
            self.jobs.set(jt.job, JobState::Succeeded);
        } else {
            self.jobs.set(jt.job, JobState::Failed);
        }
        self.threads.set(t.thread, ThreadState::Idle);
    }

    /// How many jobs have ever been submitted; trackers index below
    /// this count.
    pub fn job_count(&self) -> (r: usize)
        ensures
            r as nat == self.jobs().len(),
    {
        self.jobs.len()
    }

    /// How many work items sit in the queue, still unclaimed.
    pub fn queued_count(&self) -> (r: usize)
        ensures
            r as nat == self.queue().len(),
    {
        self.queue.len()
    }

    /// The states of all worker threads, by thread index.
    pub fn thread_states(&self) -> (r: Vec<ThreadState>)
        ensures
            r@ == self.threads(),
    {
        let n = self.threads.len();
        let mut out: Vec<ThreadState> = Vec::new();
        let mut i: usize = 0;
        while i < n
            invariant
                n == self.threads@.len(),
                0 <= i <= n,
                out@ == self.threads@.take(i as int),
            decreases n - i,
        {
            out.push(self.threads[i]);
            proof {
                assert(out@ =~= self.threads@.take(i as int + 1));
            }
            i = i + 1;
        }
        proof {
            assert(self.threads@.take(n as int) =~= self.threads@);
        }
        out
    }

    /// Whether every job ever submitted has reached a terminal state;
    /// the decision behind flushing the whole queue.
    pub fn all_jobs_terminal(&self) -> (r: bool)
        ensures
            r == all_terminal(self.jobs()),
    {
        let n = self.jobs.len();
        let mut i: usize = 0;
        while i < n
            invariant
                n == self.jobs@.len(),
                0 <= i <= n,
                forall|j: int|
                    0 <= j < i ==> (self.jobs@[j] == JobState::Failed || self.jobs@[j]
                        == JobState::Succeeded),
            decreases n - i,
        {
            let terminal = match self.jobs[i] {
                JobState::Failed => true,
                JobState::Succeeded => true,
                _ => false,
            };
            if !terminal {
                return false;
            }
            i = i + 1;
        }
        true
    }
}

impl JobStateTracker {
    /// The tracked job's current state.
    pub fn state<J>(&self, s: &JobScheduler<J>) -> (r: JobState)
        requires
            self.job < s.jobs().len(),
        ensures
            r == s.jobs()[self.job as int],
    {
        s.jobs[self.job]
    }

    /// The decision inside a blocking flush: the flush returns as soon
    /// as the tracked job is terminal — Ok on success, Err on failure
    /// with the error detail left in the logs — and keeps waiting
    /// otherwise.
    pub fn flush_poll<J>(&self, s: &JobScheduler<J>) -> (r: Option<Result<(), ()>>)
        requires
            self.job < s.jobs().len(),
        ensures
            match s.jobs()[self.job as int] {
                JobState::Succeeded => r == Some(Result::<(), ()>::Ok(())),
                JobState::Failed => r == Some(Result::<(), ()>::Err(())),
                _ => r is None,
            },
    {
        match s.jobs[self.job] {
            JobState::Succeeded => Some(Ok(())),
            JobState::Failed => Some(Err(())),
            _ => None,
        }
    }
}

impl ThreadStateTracker {
    /// The tracked worker thread's current state.
    pub fn state<J>(&self, s: &JobScheduler<J>) -> (r: ThreadState)
        requires
            self.thread < s.threads().len(),
        ensures
            r == s.threads()[self.thread as int],
    {
        s.threads[self.thread]
    }
}

/// Returns a copy of a configured value that the caller relies on
/// being present, such as the scheduler's device context.
pub fn clone_or_panic<T: Copy>(v: &Option<T>, _msg: &str) -> (r: T)
    requires
        v is Some,
    ensures
        Some(r) == *v,
{
    match v {
        Some(x) => *x,
        None => vstd::pervasive::unreached(),
    }
}

} // verus!
