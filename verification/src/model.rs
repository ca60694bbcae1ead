//! The pool as a mathematical state: its workers, its channel, and the
//! record of which jobs were submitted and who claimed them.
//!
//! Every operation of the pool is a function on this state. The invariant
//! [`PoolView::inv`] ties the queue to the record; the lemmas below show
//! that each operation keeps it.

use vstd::prelude::*;
use crate::channel::{ChannelView, Received};
use crate::message::Message;
use crate::worker::{action_for, WorkerAction, WorkerState, WorkerView};

verus! {

/// A job taken off the queue, with the worker that took it.
pub struct Claim<J> {
    pub worker: nat,
    pub job: J,
    /// Whether the worker has run the job to its end. A worker asks for its
    /// next message only when it has.
    pub done: bool,
}

/// Something that happens to a pool.
pub enum Event<J> {
    /// A caller submits a job.
    Execute(J),
    /// The worker with this identity asks for its next message.
    Receive(nat),
    /// The pool is disposed of.
    Shutdown,
}

/// How many of these workers are running.
pub open spec fn count_running<H>(workers: Seq<WorkerView<H>>) -> nat
    decreases workers.len(),
{
    if workers.len() == 0 {
        0
    } else {
        count_running(workers.drop_last()) + if workers.last().state is Running {
            1nat
        } else {
            0nat
        }
    }
}

/// The claims once `worker` has come back for more: whatever it had taken
/// is done.
pub open spec fn finished<J>(claims: Seq<Claim<J>>, worker: nat) -> Seq<Claim<J>> {
    Seq::new(
        claims.len(),
        |i: int|
            if claims[i].worker == worker {
                Claim { done: true, ..claims[i] }
            } else {
                claims[i]
            },
    )
}

/// `n` termination messages.
pub open spec fn terminates<J>(n: nat) -> Seq<Message<J>> {
    Seq::new(n, |i: int| Message::<J>::Terminate)
}

/// The jobs, each wrapped as a message.
pub open spec fn as_messages<J>(jobs: Seq<J>) -> Seq<Message<J>> {
    Seq::new(jobs.len(), |i: int| Message::NewJob(jobs[i]))
}

/// The mathematical content of a pool.
pub struct PoolView<J, H> {
    /// The workers, by identity.
    pub workers: Seq<WorkerView<H>>,
    /// The dispatch channel.
    pub channel: ChannelView<J>,
    /// Every job that was accepted, in the order of acceptance.
    pub submitted: Seq<J>,
    /// Every job that a worker took, in the order of taking.
    pub claims: Seq<Claim<J>>,
}

impl<J, H> PoolView<J, H> {
    /// The pool right after construction with these thread handles.
    pub open spec fn initial(threads: Seq<H>) -> Self {
        PoolView {
            workers: Seq::new(
                threads.len(),
                |i: int|
                    WorkerView { id: i as nat, state: WorkerState::Running, thread: Some(threads[i]) },
            ),
            channel: ChannelView::empty(),
            submitted: Seq::empty(),
            claims: Seq::empty(),
        }
    }

    /// Number of workers.
    pub open spec fn size(self) -> nat {
        self.workers.len()
    }

    /// Number of workers that have not terminated.
    pub open spec fn running(self) -> nat {
        count_running(self.workers)
    }

    /// Whether shutdown has begun.
    pub open spec fn shut_down(self) -> bool {
        !self.channel.sender_open
    }

    /// Whether `worker` names a worker that has not terminated.
    pub open spec fn is_running(self, worker: nat) -> bool {
        worker < self.workers.len() && self.workers[worker as int].state is Running
    }

    /// The submitted jobs that no worker has taken yet, oldest first.
    pub open spec fn backlog(self) -> Seq<J> {
        self.submitted.skip(self.claims.len() as int)
    }

    /// How many termination messages are queued.
    pub open spec fn owed_terminates(self) -> nat {
        if self.shut_down() {
            self.running()
        } else {
            0
        }
    }

    /// What is true of every pool that was built by `new` and changed only
    /// by `execute`, `receive` and `shutdown`.
    pub open spec fn inv(self) -> bool {
        &&& self.workers.len() > 0
        &&& forall|i: int| 0 <= i < self.workers.len() ==> (#[trigger] self.workers[i]).id == i
        &&& self.claims.len() <= self.submitted.len()
        &&& forall|i: int|
            0 <= i < self.claims.len() ==> {
                &&& (#[trigger] self.claims[i]).job == self.submitted[i]
                &&& self.claims[i].worker < self.workers.len()
            }
        &&& self.channel.pending == as_messages(self.backlog()) + terminates(
            self.owed_terminates(),
        )
        &&& !self.shut_down() ==> forall|i: int|
            0 <= i < self.workers.len() ==> {
                &&& (#[trigger] self.workers[i]).state is Running
                &&& self.workers[i].thread is Some
            }
        &&& self.shut_down() ==> forall|i: int|
            0 <= i < self.workers.len() ==> (#[trigger] self.workers[i]).thread is None
        &&& self.channel.receiver_open <==> self.running() > 0
        &&& self.running() < self.workers.len() ==> self.claims.len() == self.submitted.len()
        &&& forall|i: int, j: int|
            0 <= i < j < self.claims.len() && (#[trigger] self.claims[i]).worker == (
            #[trigger] self.claims[j]).worker ==> self.claims[i].done
        &&& forall|i: int|
            0 <= i < self.claims.len() && !(#[trigger] self.claims[i]).done
                ==> self.workers[self.claims[i].worker as int].state is Running
    }

    /// The pool after `execute(job)`.
    pub open spec fn after_execute(self, job: J) -> Self {
        if self.channel.accepts() {
            PoolView {
                channel: self.channel.after_send(Message::NewJob(job)),
                submitted: self.submitted.push(job),
                ..self
            }
        } else {
            self
        }
    }

    /// What `receive(worker)` answers.
    pub open spec fn action_of(self, worker: nat) -> WorkerAction<J> {
        if !self.is_running(worker) {
            WorkerAction::Exit
        } else {
            match self.channel.received() {
                Received::Message(message) => action_for(message),
                Received::WouldBlock => WorkerAction::Wait,
                Received::Closed => WorkerAction::Exit,
            }
        }
    }

    /// The workers after `worker` has terminated.
    pub open spec fn with_terminated(self, worker: nat) -> Seq<WorkerView<H>> {
        self.workers.update(
            worker as int,
            WorkerView { state: WorkerState::Terminated, ..self.workers[worker as int] },
        )
    }

    /// The pool after `receive(worker)`.
    pub open spec fn after_receive(self, worker: nat) -> Self {
        if !self.is_running(worker) {
            self
        } else {
            match self.channel.received() {
                Received::Message(Message::NewJob(job)) => PoolView {
                    channel: self.channel.after_receive(),
                    claims: finished(self.claims, worker).push(Claim { worker, job, done: false }),
                    ..self
                },
                Received::Message(Message::Terminate) => {
                    let workers = self.with_terminated(worker);
                    let channel = self.channel.after_receive();
                    PoolView {
                        workers,
                        channel: if count_running(workers) == 0 {
                            ChannelView { receiver_open: false, ..channel }
                        } else {
                            channel
                        },
                        claims: finished(self.claims, worker),
                        ..self
                    }
                },
                _ => PoolView { claims: finished(self.claims, worker), ..self },
            }
        }
    }

    /// The thread handles that `shutdown` hands out, in worker order.
    pub open spec fn handles_to_join(self) -> Seq<H> {
        if self.shut_down() {
            Seq::empty()
        } else {
            Seq::new(self.workers.len(), |i: int| self.workers[i].thread->Some_0)
        }
    }

    /// The pool after `shutdown`.
    pub open spec fn after_shutdown(self) -> Self {
        if self.shut_down() {
            self
        } else {
            PoolView {
                workers: Seq::new(
                    self.workers.len(),
                    |i: int| WorkerView { thread: None, ..self.workers[i] },
                ),
                channel: ChannelView {
                    pending: self.channel.pending + terminates(self.workers.len()),
                    sender_open: false,
                    ..self.channel
                },
                ..self
            }
        }
    }

    /// The pool after one event.
    pub open spec fn step(self, event: Event<J>) -> Self {
        match event {
            Event::Execute(job) => self.after_execute(job),
            Event::Receive(worker) => self.after_receive(worker),
            Event::Shutdown => self.after_shutdown(),
        }
    }

    /// The pool after a whole history of events, oldest first.
    pub open spec fn run(self, events: Seq<Event<J>>) -> Self
        decreases events.len(),
    {
        if events.len() == 0 {
            self
        } else {
            self.run(events.drop_last()).step(events.last())
        }
    }
}

/// Where every worker runs, the count is the length.
pub proof fn lemma_count_all_running<H>(workers: Seq<WorkerView<H>>)
    requires
        forall|i: int| 0 <= i < workers.len() ==> (#[trigger] workers[i]).state is Running,
    ensures
        count_running(workers) == workers.len(),
    decreases workers.len(),
{
    if workers.len() > 0 {
        lemma_count_all_running(workers.drop_last());
    }
}

/// A running worker is counted.
pub proof fn lemma_count_positive<H>(workers: Seq<WorkerView<H>>, w: int)
    requires
        0 <= w < workers.len(),
        workers[w].state is Running,
    ensures
        count_running(workers) > 0,
    decreases workers.len(),
{
    if w < workers.len() - 1 {
        lemma_count_positive(workers.drop_last(), w);
    }
}

/// Where the count is zero, every worker has terminated.
pub proof fn lemma_count_zero<H>(workers: Seq<WorkerView<H>>)
    requires
        count_running(workers) == 0,
    ensures
        forall|i: int| 0 <= i < workers.len() ==> (#[trigger] workers[i]).state is Terminated,
    decreases workers.len(),
{
    if workers.len() > 0 {
        lemma_count_zero(workers.drop_last());
        assert forall|i: int| 0 <= i < workers.len() implies (#[trigger] workers[i]).state is Terminated by {
            if i < workers.len() - 1 {
                assert(workers[i] == workers.drop_last()[i]);
            }
        }
    }
}

/// Where the count is positive, some worker runs.
pub proof fn lemma_count_witness<H>(workers: Seq<WorkerView<H>>) -> (w: int)
    requires
        count_running(workers) > 0,
    ensures
        0 <= w < workers.len(),
        workers[w].state is Running,
    decreases workers.len(),
{
    if workers.last().state is Running {
        workers.len() - 1
    } else {
        lemma_count_witness(workers.drop_last())
    }
}

/// The count depends on the states alone.
pub proof fn lemma_count_same_states<H>(a: Seq<WorkerView<H>>, b: Seq<WorkerView<H>>)
    requires
        a.len() == b.len(),
        forall|i: int| 0 <= i < a.len() ==> (#[trigger] a[i]).state == b[i].state,
    ensures
        count_running(a) == count_running(b),
    decreases a.len(),
{
    if a.len() > 0 {
        lemma_count_same_states(a.drop_last(), b.drop_last());
    }
}

/// Terminating one running worker lowers the count by one.
pub proof fn lemma_count_terminate<H>(workers: Seq<WorkerView<H>>, w: int)
    requires
        0 <= w < workers.len(),
        workers[w].state is Running,
    ensures
        count_running(
            workers.update(w, WorkerView { state: WorkerState::Terminated, ..workers[w] }),
        ) + 1 == count_running(workers),
    decreases workers.len(),
{
    let after = workers.update(w, WorkerView { state: WorkerState::Terminated, ..workers[w] });
    if w < workers.len() - 1 {
        lemma_count_terminate(workers.drop_last(), w);
        assert(after.drop_last() =~= workers.drop_last().update(
            w,
            WorkerView { state: WorkerState::Terminated, ..workers[w] },
        ));
    } else {
        assert(after.drop_last() =~= workers.drop_last());
    }
}

impl<J, H> PoolView<J, H> {
    /// A freshly built pool satisfies the invariant.
    pub proof fn lemma_initial_inv(threads: Seq<H>)
        requires
            threads.len() > 0,
        ensures
            Self::initial(threads).inv(),
            Self::initial(threads).running() == threads.len(),
    {
        let s = Self::initial(threads);
        lemma_count_all_running(s.workers);
        assert(s.backlog() =~= Seq::<J>::empty());
        assert(s.channel.pending =~= as_messages(s.backlog()) + terminates(s.owed_terminates()));
    }

    /// Before shutdown, a pool that satisfies the invariant accepts jobs.
    pub proof fn lemma_accepts_until_shutdown(self)
        requires
            self.inv(),
        ensures
            self.channel.accepts() <==> !self.shut_down(),
    {
        if !self.shut_down() {
            lemma_count_all_running(self.workers);
        }
    }

    /// `execute` keeps the invariant.
    pub proof fn lemma_execute_inv(self, job: J)
        requires
            self.inv(),
        ensures
            self.after_execute(job).inv(),
            self.after_execute(job).running() == self.running(),
    {
        let t = self.after_execute(job);
        if self.channel.accepts() {
            lemma_count_all_running(self.workers);
            assert(t.backlog() =~= self.backlog().push(job));
            assert(t.channel.pending =~= as_messages(t.backlog()) + terminates(
                t.owed_terminates(),
            ));
        }
    }

    /// `receive` keeps the invariant.
    pub proof fn lemma_receive_inv(self, worker: nat)
        requires
            self.inv(),
        ensures
            self.after_receive(worker).inv(),
    {
        let t = self.after_receive(worker);
        if self.is_running(worker) {
            lemma_count_positive(self.workers, worker as int);
            let expected = as_messages(self.backlog()) + terminates::<J>(self.owed_terminates());
            match self.channel.received() {
                Received::Message(Message::NewJob(job)) => {
                    assert(self.channel.pending[0] == expected[0]);
                    assert(t.backlog() =~= self.backlog().skip(1));
                    assert(t.channel.pending =~= as_messages(t.backlog()) + terminates(
                        t.owed_terminates(),
                    ));
                },
                Received::Message(Message::Terminate) => {
                    assert(self.channel.pending[0] == expected[0]);
                    lemma_count_terminate(self.workers, worker as int);
                    assert(t.channel.pending =~= as_messages(t.backlog()) + terminates(
                        t.owed_terminates(),
                    ));
                },
                _ => {},
            }
        }
    }

    /// One event keeps the invariant.
    pub proof fn lemma_step_inv(self, event: Event<J>)
        requires
            self.inv(),
        ensures
            self.step(event).inv(),
    {
        match event {
            Event::Execute(job) => self.lemma_execute_inv(job),
            Event::Receive(worker) => self.lemma_receive_inv(worker),
            Event::Shutdown => self.lemma_shutdown_inv(),
        }
    }

    /// `shutdown` keeps the invariant.
    pub proof fn lemma_shutdown_inv(self)
        requires
            self.inv(),
        ensures
            self.after_shutdown().inv(),
    {
        let t = self.after_shutdown();
        if !self.shut_down() {
            lemma_count_all_running(self.workers);
            lemma_count_same_states(self.workers, t.workers);
            assert(t.backlog() =~= self.backlog());
            assert(t.channel.pending =~= as_messages(t.backlog()) + terminates(
                t.owed_terminates(),
            ));
        }
    }
}

} // verus!
