//! The decisions of a fixed-size task pool: its lifecycle (creation, submission,
//! shutdown), what a worker does with each message it receives, and a model of
//! the shared queue that shows every submitted job has run once all workers
//! have exited.
use vstd::prelude::*;

verus! {

/// What can go wrong with a task pool.
#[derive(Debug, Clone, Copy, PartialEq, Eq, Structural)]
pub enum ThreadPoolError {
    /// A pool was asked for with no workers; it could never make progress.
    ZeroWorkers,
    /// A job was submitted after the pool stopped taking jobs.
    SubmissionFailed,
    /// A job panicked while a worker ran it; the worker went on with the queue.
    JobFault,
    /// A lock guarding shared data was poisoned by a panic while it was held.
    PoisonedSharedState,
}

/// The bookkeeping of a pool: how many workers it has and whether it still takes
/// jobs.
pub struct PoolState {
    workers: usize,
    open: bool,
}

impl PoolState {
    /// The number of workers the pool was made with.
    pub closed spec fn workers(&self) -> nat {
        self.workers as nat
    }

    /// Whether the pool still takes jobs.
    pub closed spec fn accepting(&self) -> bool {
        self.open
    }

    /// A pool of `worker_count` workers that takes jobs; none at all is refused.
    pub fn new(worker_count: usize) -> (r: Result<PoolState, ThreadPoolError>)
        ensures
            worker_count == 0 <==> r is Err,
            r matches Err(e) ==> e == ThreadPoolError::ZeroWorkers,
            r matches Ok(p) ==> p.workers() == worker_count && p.accepting(),
    {
        if worker_count == 0 {
            Err(ThreadPoolError::ZeroWorkers)
        } else {
            Ok(PoolState { workers: worker_count, open: true })
        }
    }

    /// The number of workers to start and, at shutdown, to stop and join.
    pub fn worker_count(&self) -> (n: usize)
        ensures
            n == self.workers(),
    {
        self.workers
    }

    /// Whether the pool still takes jobs.
    pub fn is_open(&self) -> (b: bool)
        ensures
            b == self.accepting(),
    {
        self.open
    }

    /// Decide a submission: taken while the pool is open, refused after shutdown.
    pub fn accept_job(&self) -> (r: Result<(), ThreadPoolError>)
        ensures
            r == submit_outcome(self.accepting()),
    {
        if self.open {
            Ok(())
        } else {
            Err(ThreadPoolError::SubmissionFailed)
        }
    }

    /// Stop taking jobs. Returns how many terminate messages to send: one per
    /// worker the first time, none after that, so no worker is told twice.
    pub fn close(&mut self) -> (terminates: usize)
        ensures
            !final(self).accepting(),
            final(self).workers() == old(self).workers(),
            terminates == (if old(self).accepting() {
                old(self).workers()
            } else {
                0
            }),
    {
        let terminates = if self.open {
            self.workers
        } else {
            0
        };
        self.open = false;
        terminates
    }
}

/// What a submission gets: `Ok` while the pool is open, `SubmissionFailed` after.
pub open spec fn submit_outcome(open: bool) -> Result<(), ThreadPoolError> {
    if open {
        Ok(())
    } else {
        Err(ThreadPoolError::SubmissionFailed)
    }
}

/// A message on the pool's queue.
pub enum Message<J> {
    NewJob(J),
    Terminate,
}

/// What a worker does next.
pub enum WorkerAction<J> {
    /// Run the job on this thread, then take the next message.
    Run(J),
    /// Leave the loop.
    Exit,
}

/// A worker's decision on what it took from the queue (`None`: the queue is
/// closed): a job is run, a terminate message or a closed queue ends the loop.
pub fn next_action<J>(received: Option<Message<J>>) -> (a: WorkerAction<J>)
    ensures
        match received {
            Some(Message::NewJob(j)) => a == WorkerAction::Run(j),
            _ => a is Exit,
        },
{
    match received {
        Some(Message::NewJob(j)) => WorkerAction::Run(j),
        _ => WorkerAction::Exit,
    }
}

/// A message of the queue model: a job by its submission number, or a
/// terminate message.
pub enum Msg {
    Job(nat),
    Terminate,
}

/// The shared queue and the workers around it, as counts.
pub struct QueueModel {
    /// The number of workers the pool was made with.
    pub workers: nat,
    /// Whether the pool still takes jobs.
    pub open: bool,
    /// The messages not yet taken, oldest first.
    pub queue: Seq<Msg>,
    /// Workers that have not taken a terminate message.
    pub live: nat,
    /// Workers running a job right now.
    pub running: nat,
    /// Jobs taken by the pool so far.
    pub submitted: nat,
    /// Jobs a worker has taken from the queue.
    pub started: nat,
    /// Jobs that ran to their end.
    pub finished: nat,
}

/// A step of the system.
pub enum Event {
    /// The owner submits a job.
    Submit,
    /// The owner shuts the pool down.
    Shutdown,
    /// An idle live worker takes the oldest message.
    Dequeue,
    /// A worker finishes the job it runs.
    Finish,
}

/// Jobs numbered `from` up to `to`, in order.
pub open spec fn jobs(from: nat, to: nat) -> Seq<Msg> {
    Seq::new((to - from) as nat, |i: int| Msg::Job((from + i) as nat))
}

/// `k` terminate messages.
pub open spec fn terminates(k: nat) -> Seq<Msg> {
    Seq::new(k, |i: int| Msg::Terminate)
}

/// A new pool of `n` workers with an empty queue.
pub open spec fn initial(n: nat) -> QueueModel {
    QueueModel {
        workers: n,
        open: true,
        queue: Seq::empty(),
        live: n,
        running: 0,
        submitted: 0,
        started: 0,
        finished: 0,
    }
}

/// When an event can happen.
pub open spec fn enabled(s: QueueModel, e: Event) -> bool {
    match e {
        Event::Submit => true,
        Event::Shutdown => s.open,
        Event::Dequeue => s.running < s.live && s.queue.len() > 0,
        Event::Finish => s.running > 0,
    }
}

/// The state after an event. A submission to a closed pool changes nothing;
/// shutdown queues one terminate message per worker.
pub open spec fn step(s: QueueModel, e: Event) -> QueueModel {
    match e {
        Event::Submit => if s.open {
            QueueModel {
                queue: s.queue.push(Msg::Job(s.submitted)),
                submitted: s.submitted + 1,
                ..s
            }
        } else {
            s
        },
        Event::Shutdown => QueueModel { open: false, queue: s.queue + terminates(s.workers), ..s },
        Event::Dequeue => match s.queue[0] {
            Msg::Job(_) => QueueModel {
                queue: s.queue.drop_first(),
                running: s.running + 1,
                started: s.started + 1,
                ..s
            },
            Msg::Terminate => QueueModel {
                queue: s.queue.drop_first(),
                live: (s.live - 1) as nat,
                ..s
            },
        },
        Event::Finish => QueueModel {
            running: (s.running - 1) as nat,
            finished: s.finished + 1,
            ..s
        },
    }
}

/// What holds in every reachable state: the queue is the jobs not yet taken,
/// in submission order, followed after shutdown by one terminate message per
/// live worker; no worker exits while a job is still queued.
pub open spec fn queue_inv(s: QueueModel) -> bool {
    &&& s.workers >= 1
    &&& s.running <= s.live <= s.workers
    &&& s.started <= s.submitted
    &&& s.finished + s.running == s.started
    &&& s.open ==> s.live == s.workers && s.queue == jobs(s.started, s.submitted)
    &&& !s.open ==> s.queue == jobs(s.started, s.submitted) + terminates(s.live)
    &&& s.live < s.workers ==> s.started == s.submitted
}

/// A new pool of at least one worker starts in a good state.
pub proof fn lemma_initial_inv(n: nat)
    requires
        n >= 1,
    ensures
        queue_inv(initial(n)),
{
    assert(jobs(0, 0) =~= Seq::<Msg>::empty());
}

/// Every event that can happen keeps the state good.
pub proof fn lemma_step_inv(s: QueueModel, e: Event)
    requires
        queue_inv(s),
        enabled(s, e),
    ensures
        queue_inv(step(s, e)),
{
    let t = step(s, e);
    match e {
        Event::Submit => {
            if s.open {
                assert(jobs(s.started, s.submitted).push(Msg::Job(s.submitted)) =~= jobs(
                    s.started,
                    s.submitted + 1,
                ));
            }
        },
        Event::Shutdown => {},
        Event::Dequeue => {
            let pending = jobs(s.started, s.submitted);
            if s.started < s.submitted {
                assert(s.queue[0] == pending[0]);
                assert(pending.drop_first() =~= jobs(s.started + 1, s.submitted));
                if !s.open {
                    assert(s.queue.drop_first() =~= pending.drop_first() + terminates(s.live));
                }
            } else {
                assert(pending =~= Seq::<Msg>::empty());
                assert(!s.open);
                assert(s.queue =~= terminates(s.live));
                assert(s.queue.drop_first() =~= terminates((s.live - 1) as nat));
                assert(jobs(s.started, s.submitted) + terminates((s.live - 1) as nat)
                    =~= terminates((s.live - 1) as nat));
            }
        },
        Event::Finish => {},
    }
}

/// Once the pool is shut down and every worker has exited, every job that
/// was submitted has been taken exactly once and has run to its end, and no
/// submission is taken any more.
pub proof fn lemma_all_exited_all_done(s: QueueModel)
    requires
        queue_inv(s),
        !s.open,
        s.live == 0,
    ensures
        s.running == 0,
        s.started == s.submitted,
        s.finished == s.submitted,
        submit_outcome(s.open) == Err::<(), ThreadPoolError>(ThreadPoolError::SubmissionFailed),
        step(s, Event::Submit) == s,
{
}

} // verus!
