//! The bookkeeping of a fixed pool of workers that share one queue of jobs.
//!
//! Threads are the caller's business. This module holds what they share: the queue,
//! the count of workers still in service, and the proof that nothing handed to the pool
//! is lost when it shuts down.

use std::collections::VecDeque;
use vstd::prelude::*;

verus! {

/// What travels through the queue: a job, or the signal that tells one worker to stop.
pub enum Message<J> {
    NewJob(J),
    Terminate,
}

/// The queue that the workers of a pool share, together with the pool's counters.
///
/// `J` is the job: whatever a worker is to run.
pub struct JobQueue<J> {
    queue: VecDeque<Message<J>>,
    workers: usize,
    live: usize,
    running: usize,
    closing: bool,
    submitted: Ghost<Seq<J>>,
    handed: Ghost<Seq<J>>,
}

/// The content of a queue that holds `jobs`, in order, and `stops` stop signals behind
/// them.
pub open spec fn channel<J>(jobs: Seq<J>, stops: nat) -> Seq<Message<J>> {
    jobs.map_values(|job: J| Message::NewJob(job)) + Seq::new(stops, |i: int| Message::Terminate)
}

impl<J> JobQueue<J> {
    /// The messages in the queue, oldest first.
    pub closed spec fn pending(&self) -> Seq<Message<J>> {
        self.queue@
    }

    /// The number of workers that the pool was made with.
    pub closed spec fn workers(&self) -> nat {
        self.workers as nat
    }

    /// The number of workers that have not yet taken a stop signal.
    pub closed spec fn live(&self) -> nat {
        self.live as nat
    }

    /// The number of jobs that a worker has taken and not yet finished.
    pub closed spec fn running(&self) -> nat {
        self.running as nat
    }

    /// Shutdown has begun.
    pub closed spec fn closing(&self) -> bool {
        self.closing
    }

    /// Every job ever handed to the pool, in the order of submission.
    pub closed spec fn submitted(&self) -> Seq<J> {
        self.submitted@
    }

    /// Every job ever taken by a worker, in the order of taking.
    pub closed spec fn handed(&self) -> Seq<J> {
        self.handed@
    }

    /// The number of jobs that have been run to their end.
    pub open spec fn completed(&self) -> int {
        self.handed().len() - self.running()
    }

    /// Shutdown is over: every worker has taken its stop signal and can be joined.
    pub open spec fn finished(&self) -> bool {
        self.closing() && self.live() == 0
    }

    /// The stop signals that are still in the queue: one for each worker in service once
    /// shutdown has begun, none before.
    pub open spec fn stops(&self) -> nat {
        if self.closing() {
            self.live()
        } else {
            0
        }
    }

    /// The invariant of the pool.
    ///
    /// Jobs leave in the order they came. The queue holds the jobs not yet taken and,
    /// behind them, one stop signal for each worker still in service. A worker runs one
    /// job at a time. No worker stops while a job is waiting.
    pub open spec fn wf(&self) -> bool {
        &&& 0 < self.workers()
        &&& self.running() <= self.live() <= self.workers()
        &&& !self.closing() ==> self.live() == self.workers()
        &&& self.handed().len() <= self.submitted().len()
        &&& self.handed() == self.submitted().take(self.handed().len() as int)
        &&& self.pending() == channel(
            self.submitted().skip(self.handed().len() as int),
            self.stops(),
        )
        &&& self.live() < self.workers() ==> self.handed() == self.submitted()
    }

    /// Makes the queue of a pool of `workers` workers, all of them in service and idle.
    pub fn new(workers: usize) -> (pool: JobQueue<J>)
        requires
            workers > 0,
        ensures
            pool.wf(),
            pool.workers() == workers,
            pool.live() == workers,
            pool.running() == 0,
            !pool.closing(),
            pool.pending() == Seq::<Message<J>>::empty(),
            pool.submitted() == Seq::<J>::empty(),
            pool.handed() == Seq::<J>::empty(),
    {
        let pool = JobQueue {
            queue: VecDeque::new(),
            workers,
            live: workers,
            running: 0,
            closing: false,
            submitted: Ghost(Seq::empty()),
            handed: Ghost(Seq::empty()),
        };
        assert(pool.pending() =~= channel(pool.submitted().skip(0), 0));
        assert(pool.handed() =~= pool.submitted().take(0));
        pool
    }

    /// Sends a job to be executed by one of the workers: puts it at the end of the
    /// queue. The queue has no bound, so this never waits.
    pub fn execute(&mut self, job: J)
        requires
            old(self).wf(),
            !old(self).closing(),
        ensures
            final(self).wf(),
            final(self).pending() == old(self).pending().push(Message::NewJob(job)),
            final(self).submitted() == old(self).submitted().push(job),
            final(self).handed() == old(self).handed(),
            final(self).workers() == old(self).workers(),
            final(self).live() == old(self).live(),
            final(self).running() == old(self).running(),
            !final(self).closing(),
    {
        self.queue.push_back(Message::NewJob(job));
        proof {
            let taken = self.handed@.len() as int;
            let before = self.submitted@;
            self.submitted = Ghost(before.push(job));
            assert(before.push(job).take(taken) =~= before.take(taken));
            assert(before.push(job).skip(taken) =~= before.skip(taken).push(job));
            assert(self.queue@ =~= channel(before.push(job).skip(taken), 0));
        }
    }

    /// Begins shutdown: puts exactly one stop signal for each worker at the end of the
    /// queue, behind every job handed in so far.
    pub fn shutdown(&mut self)
        requires
            old(self).wf(),
            !old(self).closing(),
        ensures
            final(self).wf(),
            final(self).closing(),
            final(self).pending() == old(self).pending() + Seq::new(
                old(self).workers(),
                |i: int| Message::<J>::Terminate,
            ),
            final(self).submitted() == old(self).submitted(),
            final(self).handed() == old(self).handed(),
            final(self).workers() == old(self).workers(),
            final(self).live() == old(self).live(),
            final(self).running() == old(self).running(),
    {
        let ghost jobs = self.submitted@.skip(self.handed@.len() as int);
        let mut sent: usize = 0;
        while sent < self.workers
            invariant
                sent <= self.workers,
                self.queue@ == channel(jobs, sent as nat),
                self.workers == old(self).workers,
                self.live == old(self).live,
                self.running == old(self).running,
                self.closing == old(self).closing,
                self.submitted == old(self).submitted,
                self.handed == old(self).handed,
            decreases self.workers - sent,
        {
            self.queue.push_back(Message::Terminate);
            sent += 1;
            assert(self.queue@ =~= channel(jobs, sent as nat));
        }
        self.closing = true;
        assert(self.queue@ =~= old(self).queue@ + Seq::new(
            old(self).workers(),
            |i: int| Message::<J>::Terminate,
        ));
    }

    /// Takes the oldest message from the queue for a worker that is idle, or `None`
    /// where the queue is empty and the worker has to wait. A job taken counts as
    /// running; a stop signal taken retires the worker. Once shutdown has begun no
    /// worker waits in vain: its stop signal is in the queue.
    pub fn receive(&mut self) -> (message: Option<Message<J>>)
        requires
            old(self).wf(),
            old(self).running() < old(self).live(),
        ensures
            final(self).wf(),
            final(self).workers() == old(self).workers(),
            final(self).closing() == old(self).closing(),
            final(self).submitted() == old(self).submitted(),
            match message {
                None => {
                    &&& !old(self).closing()
                    &&& old(self).pending().len() == 0
                    &&& final(self).pending() == old(self).pending()
                    &&& final(self).handed() == old(self).handed()
                    &&& final(self).live() == old(self).live()
                    &&& final(self).running() == old(self).running()
                },
                Some(taken) => {
                    &&& old(self).pending().len() > 0
                    &&& taken == old(self).pending()[0]
                    &&& final(self).pending() == old(self).pending().drop_first()
                    &&& match taken {
                        Message::NewJob(job) => {
                            &&& final(self).handed() == old(self).handed().push(job)
                            &&& final(self).live() == old(self).live()
                            &&& final(self).running() == old(self).running() + 1
                        },
                        Message::Terminate => {
                            &&& final(self).handed() == old(self).handed()
                            &&& final(self).live() == old(self).live() - 1
                            &&& final(self).running() == old(self).running()
                        },
                    }
                },
            },
    {
        let ghost taken = self.handed@.len() as int;
        let ghost jobs = self.submitted@.skip(taken);
        let ghost stops = self.stops();
        let message = self.queue.pop_front();
        match &message {
            None => {},
            Some(Message::NewJob(job)) => {
                self.running += 1;
                proof {
                    assert(jobs.len() > 0) by {
                        if jobs.len() == 0 {
                            assert(channel(jobs, stops)[0] == Message::<J>::Terminate);
                        }
                    }
                    assert(channel(jobs, stops)[0] == Message::NewJob(jobs[0]));
                    self.handed = Ghost(self.handed@.push(*job));
                    assert(self.handed@ =~= self.submitted@.take(taken + 1));
                    assert(self.submitted@.skip(taken + 1) =~= jobs.drop_first());
                    assert(self.queue@ =~= channel(jobs.drop_first(), stops));
                    if self.handed@.len() == self.submitted@.len() {
                        assert(self.handed@ =~= self.submitted@);
                    }
                }
            },
            Some(Message::Terminate) => {
                proof {
                    assert(jobs.len() == 0) by {
                        if jobs.len() > 0 {
                            assert(channel(jobs, stops)[0] == Message::NewJob(jobs[0]));
                        }
                    }
                    assert(stops > 0);
                    assert(self.handed@ =~= self.submitted@);
                }
                self.live -= 1;
                assert(self.queue@ =~= channel(jobs, (stops - 1) as nat));
            },
        }
        message
    }

    /// Records that a worker has run the job it took to its end, whether the job went
    /// well or not.
    pub fn complete(&mut self)
        requires
            old(self).wf(),
            old(self).running() > 0,
        ensures
            final(self).wf(),
            final(self).running() == old(self).running() - 1,
            final(self).pending() == old(self).pending(),
            final(self).submitted() == old(self).submitted(),
            final(self).handed() == old(self).handed(),
            final(self).workers() == old(self).workers(),
            final(self).live() == old(self).live(),
            final(self).closing() == old(self).closing(),
    {
        self.running -= 1;
    }

    /// The number of workers that have not yet taken a stop signal.
    pub fn live_workers(&self) -> (count: usize)
        ensures
            count == self.live(),
    {
        self.live
    }

    /// The number of jobs that a worker has taken and not yet finished.
    pub fn running_jobs(&self) -> (count: usize)
        ensures
            count == self.running(),
    {
        self.running
    }

    /// The number of messages waiting in the queue.
    pub fn pending_messages(&self) -> (count: usize)
        ensures
            count == self.pending().len(),
    {
        self.queue.len()
    }

    /// Tells whether shutdown has begun.
    pub fn is_closing(&self) -> (closing: bool)
        ensures
            closing == self.closing(),
    {
        self.closing
    }

    /// Tells whether shutdown is over. When it is, the queue is empty and every job
    /// ever handed to the pool has been taken and run to its end.
    pub fn is_finished(&self) -> (done: bool)
        requires
            self.wf(),
        ensures
            done == self.finished(),
            done ==> self.pending().len() == 0 && self.completed() == self.submitted().len(),
    {
        proof {
            if self.finished() {
                lemma_shutdown_drains(*self);
            }
        }
        self.closing && self.live == 0
    }
}

/// The pool drains on shutdown: once every worker has taken its stop signal, the queue
/// is empty, no job is running, and every job submitted before shutdown began was
/// taken, in the order of submission, and run to its end.
pub proof fn lemma_shutdown_drains<J>(pool: JobQueue<J>)
    requires
        pool.wf(),
        pool.finished(),
    ensures
        pool.pending().len() == 0,
        pool.running() == 0,
        pool.handed() == pool.submitted(),
        pool.completed() == pool.submitted().len(),
{
}

} // verus!
