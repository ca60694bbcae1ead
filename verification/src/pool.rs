//! The worker pool: a fixed set of workers fed from one dispatch channel.
//!
//! The pool is sequential state. Threads are somebody else's business: the
//! caller supplies a function that starts the thread of a worker, each
//! thread asks [`ThreadPool::receive`] what to do next, and
//! [`ThreadPool::shutdown`] hands back the thread handles to be joined.
//! Where several threads share one pool they take turns under a lock that
//! is held for one call at a time, and never while a job runs.
//!
//! The pool hands a job out and hears of it again only when the worker
//! comes back for its next message. A job that fails is therefore the
//! business of the thread that runs it. If the thread ends with the job,
//! the worker never comes back: the pool keeps it as running, its
//! termination message stays queued, and the failure shows when its handle
//! is joined. If the thread catches the failure and comes back, the worker
//! goes on as after any other job.

use vstd::prelude::*;
use crate::channel::{ChannelView, DispatchChannel, Received};
use crate::error::PoolError;
use crate::message::Message;
use crate::model::{
    finished, lemma_count_all_running, lemma_count_positive, lemma_count_same_states,
    lemma_count_terminate, terminates, Claim, PoolView,
};
use crate::worker::{Worker, WorkerAction, WorkerState, WorkerView};

verus! {

/// A pool of a fixed number of workers. `J` is the type of a job, `H` the
/// type of a thread handle.
pub struct ThreadPool<J, H> {
    workers: Vec<Worker<H>>,
    channel: DispatchChannel<J>,
    running: usize,
    submitted: Ghost<Seq<J>>,
    claims: Ghost<Seq<Claim<J>>>,
}

/// The workers of a vector as mathematical values.
pub open spec fn worker_views<H>(workers: Seq<Worker<H>>) -> Seq<WorkerView<H>> {
    Seq::new(workers.len(), |i: int| workers[i]@)
}

impl<J, H> View for ThreadPool<J, H> {
    type V = PoolView<J, H>;

    closed spec fn view(&self) -> PoolView<J, H> {
        PoolView {
            workers: worker_views(self.workers@),
            channel: self.channel@,
            submitted: self.submitted@,
            claims: self.claims@,
        }
    }
}

impl<J, H> ThreadPool<J, H> {
    /// The pool's own count of the workers that have not terminated.
    pub closed spec fn running_count(&self) -> usize {
        self.running
    }

    /// Well-formedness: the pool satisfies the invariant of its model, and
    /// its count of running workers is right.
    pub open spec fn wf(&self) -> bool {
        &&& self@.inv()
        &&& self.running_count() == self@.running()
    }

    /// Builds a pool of `size` workers. `spawn` is called once for each
    /// identity from `0` to `size - 1`, in that order, and returns the
    /// handle of the thread that it started for that worker.
    ///
    /// A pool without workers is refused: `size == 0` gives `InvalidSize`.
    /// Otherwise the pool has exactly `size` running workers, an empty
    /// queue and an empty record.
    pub fn new<F: Fn(usize) -> H>(size: usize, spawn: F) -> (result: Result<Self, PoolError>)
        requires
            forall|id: usize| id < size ==> call_requires(spawn, (id,)),
        ensures
            size == 0 ==> result == Err::<Self, PoolError>(PoolError::InvalidSize),
            size > 0 ==> result is Ok,
            result matches Ok(pool) ==> {
                &&& pool.wf()
                &&& pool@.size() == size
                &&& pool@ == PoolView::<J, H>::initial(pool@.handles_to_join())
                &&& forall|id: usize|
                    id < size ==> call_ensures(spawn, (id,), #[trigger] pool@.handles_to_join()[id as int])
            },
    {
        if size == 0 {
            return Err(PoolError::InvalidSize);
        }
        let mut workers: Vec<Worker<H>> = Vec::new();
        let mut id: usize = 0;
        while id < size
            invariant
                id <= size,
                workers@.len() == id,
                forall|i: usize| i < size ==> call_requires(spawn, (i,)),
                forall|i: int|
                    0 <= i < id ==> {
                        &&& (#[trigger] workers@[i])@.id == i
                        &&& workers@[i]@.state is Running
                        &&& workers@[i]@.thread is Some
                    },
                forall|i: usize|
                    i < id ==> call_ensures(spawn, (i,), #[trigger] workers@[i as int]@.thread->Some_0),
            decreases size - id,
        {
            let thread = spawn(id);
            workers.push(Worker::new(id, thread));
            id = id + 1;
        }
        let pool = ThreadPool {
            workers,
            channel: DispatchChannel::new(),
            running: size,
            submitted: Ghost(Seq::empty()),
            claims: Ghost(Seq::empty()),
        };
        proof {
            let threads = pool@.handles_to_join();
            assert(pool@.workers =~= PoolView::<J, H>::initial(threads).workers);
            PoolView::<J, H>::lemma_initial_inv(threads);
        }
        Ok(pool)
    }

    /// Number of workers. Fixed at construction.
    pub fn size(&self) -> (n: usize)
        ensures
            n == self@.size(),
    {
        self.workers.len()
    }

    /// Number of workers that have not terminated.
    pub fn running(&self) -> (n: usize)
        requires
            self.wf(),
        ensures
            n == self@.running(),
    {
        self.running
    }

    /// Number of queued messages.
    pub fn pending(&self) -> (n: usize)
        ensures
            n == self@.channel.pending.len(),
    {
        self.channel.len()
    }

    /// Whether shutdown has begun.
    pub fn is_shut_down(&self) -> (b: bool)
        ensures
            b == self@.shut_down(),
    {
        !self.channel.sender_open()
    }

    /// The state of the worker with identity `worker`, if there is one.
    pub fn worker_state(&self, worker: usize) -> (state: Option<WorkerState>)
        ensures
            state == if worker < self@.size() {
                Some(self@.workers[worker as int].state)
            } else {
                None
            },
    {
        if worker < self.workers.len() {
            Some(self.workers[worker].state())
        } else {
            None
        }
    }

    /// Submits a job. Returns as soon as the job is queued; which worker
    /// runs it, and when, is not said.
    ///
    /// Refused with `ChannelClosed`, and nothing changed, exactly when
    /// shutdown has begun.
    pub fn execute(&mut self, job: J) -> (result: Result<(), PoolError>)
        requires
            old(self).wf(),
        ensures
            final(self).wf(),
            final(self)@ == old(self)@.after_execute(job),
            !old(self)@.shut_down() ==> result is Ok,
            old(self)@.shut_down() ==> result == Err::<(), PoolError>(PoolError::ChannelClosed)
                && final(self)@ == old(self)@,
    {
        proof {
            self@.lemma_accepts_until_shutdown();
            self@.lemma_execute_inv(job);
        }
        let ghost submitted = self.submitted@.push(job);
        match self.channel.send(Message::NewJob(job)) {
            Ok(()) => {
                self.submitted = Ghost(submitted);
                Ok(())
            },
            Err(_) => Err(PoolError::ChannelClosed),
        }
    }

    /// One turn of the loop of the worker with identity `worker`: takes the
    /// oldest message and says what the worker's thread does next.
    ///
    /// A worker comes back only when it is through with what it had taken,
    /// so whatever it had claimed is recorded as done. A job is recorded as
    /// claimed by this worker and handed out to be run. A `Terminate` ends
    /// the worker. On an empty queue, before shutdown, the worker waits. A
    /// worker that has terminated, or an identity that the pool does not
    /// have, takes nothing and is told to exit.
    pub fn receive(&mut self, worker: usize) -> (action: WorkerAction<J>)
        requires
            old(self).wf(),
        ensures
            final(self).wf(),
            action == old(self)@.action_of(worker as nat),
            final(self)@ == old(self)@.after_receive(worker as nat),
    {
        if worker >= self.workers.len() {
            return WorkerAction::Exit;
        }
        if !self.workers[worker].is_running() {
            return WorkerAction::Exit;
        }
        proof {
            self@.lemma_receive_inv(worker as nat);
            lemma_count_positive(self@.workers, worker as int);
        }
        let ghost before = self@;
        match self.channel.receive() {
            Received::Message(message) => {
                let ghost claims = if message is NewJob {
                    finished(self.claims@, worker as nat).push(
                        Claim { worker: worker as nat, job: message->NewJob_0, done: false },
                    )
                } else {
                    finished(self.claims@, worker as nat)
                };
                let terminate = message.is_terminate();
                let action = self.workers[worker].handle(message);
                self.claims = Ghost(claims);
                if terminate {
                    proof {
                        lemma_count_terminate(before.workers, worker as int);
                        assert(worker_views(self.workers@) =~= before.with_terminated(worker as nat));
                    }
                    self.running = self.running - 1;
                    if self.running == 0 {
                        self.channel.close_receiver();
                    }
                } else {
                    assert(worker_views(self.workers@) =~= before.workers);
                }
                action
            },
            Received::WouldBlock => {
                self.claims = Ghost(finished(self.claims@, worker as nat));
                WorkerAction::Wait
            },
            Received::Closed => {
                // A running worker never outlives the sending side: after
                // shutdown its termination message is still queued.
                assert(false);
                WorkerAction::Exit
            },
        }
    }

    /// Disposes of the pool: queues one `Terminate` for every worker, then
    /// takes every thread handle out of its slot and returns them, in
    /// worker order, for the caller to join.
    ///
    /// All termination messages are queued before any handle is handed out,
    /// so no worker's exit waits on the join of another. Jobs already
    /// queued stay ahead of the termination messages and are still run.
    /// From now on `execute` is refused. A second call changes nothing and
    /// returns no handle.
    pub fn shutdown(&mut self) -> (threads: Vec<H>)
        requires
            old(self).wf(),
        ensures
            final(self).wf(),
            final(self)@ == old(self)@.after_shutdown(),
            threads@ == old(self)@.handles_to_join(),
    {
        if self.is_shut_down() {
            return Vec::new();
        }
        let ghost before = self@;
        let size = self.workers.len();
        proof {
            before.lemma_shutdown_inv();
            lemma_count_all_running(before.workers);
        }
        let mut sent: usize = 0;
        while sent < size
            invariant
                sent <= size,
                self.workers == old(self).workers,
                self.running == old(self).running,
                self.submitted == old(self).submitted,
                self.claims == old(self).claims,
                self.channel@.accepts(),
                self.channel@ == (ChannelView {
                    pending: before.channel.pending + terminates(sent as nat),
                    ..before.channel
                }),
            decreases size - sent,
        {
            let _ = self.channel.send(Message::Terminate);
            sent = sent + 1;
            assert(self.channel@.pending =~= before.channel.pending + terminates(sent as nat));
        }
        let mut threads: Vec<H> = Vec::new();
        let mut next: usize = 0;
        while next < size
            invariant
                next <= size,
                size == self.workers@.len(),
                size == before.workers.len(),
                self.running == old(self).running,
                self.submitted == old(self).submitted,
                self.claims == old(self).claims,
                self.channel@ == (ChannelView {
                    pending: before.channel.pending + terminates(size as nat),
                    ..before.channel
                }),
                threads@.len() == next,
                forall|i: int|
                    0 <= i < next ==> {
                        &&& threads@[i] == (#[trigger] before.workers[i]).thread->Some_0
                        &&& self.workers@[i]@ == (WorkerView { thread: None, ..before.workers[i] })
                    },
                forall|i: int|
                    next <= i < size ==> self.workers@[i]@ == #[trigger] before.workers[i],
                forall|i: int| 0 <= i < size ==> (#[trigger] before.workers[i]).thread is Some,
            decreases size - next,
        {
            assert(self.workers@[next as int]@ == before.workers[next as int]);
            match self.workers[next].take_thread() {
                Some(thread) => threads.push(thread),
                None => {},
            }
            next = next + 1;
        }
        self.channel.close_sender();
        proof {
            assert(worker_views(self.workers@) =~= before.after_shutdown().workers);
            assert(threads@ =~= before.handles_to_join());
            lemma_count_same_states(before.workers, before.after_shutdown().workers);
        }
        threads
    }
}

} // verus!
