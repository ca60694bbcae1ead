//! A worker: an identity, the handle of its dedicated thread, and the
//! two-state machine that its thread runs.

use vstd::prelude::*;
use crate::message::Message;

verus! {

/// Where a worker is in its life. A worker starts `Running`; the only
/// transition is to `Terminated`, and there is no way back.
#[derive(Clone, Copy, Debug, PartialEq, Eq, Structural)]
pub enum WorkerState {
    Running,
    Terminated,
}

/// What a worker's thread does next.
#[derive(Debug)]
pub enum WorkerAction<J> {
    /// Run this job to completion on the worker's own thread, then ask
    /// again.
    Run(J),
    /// Leave the loop; the thread ends.
    Exit,
    /// Nothing is queued yet: wait until something has been sent, then ask
    /// again.
    Wait,
}

/// The mathematical content of a worker.
pub struct WorkerView<H> {
    pub id: nat,
    pub state: WorkerState,
    pub thread: Option<H>,
}

/// What a running worker does with `message`.
pub open spec fn action_for<J>(message: Message<J>) -> WorkerAction<J> {
    match message {
        Message::NewJob(job) => WorkerAction::Run(job),
        Message::Terminate => WorkerAction::Exit,
    }
}

/// The state in which a running worker is after it has taken `message`.
pub open spec fn state_after<J>(message: Message<J>) -> WorkerState {
    match message {
        Message::NewJob(_) => WorkerState::Running,
        Message::Terminate => WorkerState::Terminated,
    }
}

/// One slot of the pool. `H` is the type of a thread handle; the pool owns
/// the handle until shutdown takes it out, once.
pub struct Worker<H> {
    id: usize,
    state: WorkerState,
    thread: Option<H>,
}

impl<H> View for Worker<H> {
    type V = WorkerView<H>;

    closed spec fn view(&self) -> WorkerView<H> {
        WorkerView { id: self.id as nat, state: self.state, thread: self.thread }
    }
}

impl<H> Worker<H> {
    /// A running worker with identity `id` whose thread is `thread`.
    pub fn new(id: usize, thread: H) -> (worker: Self)
        ensures
            worker@ == (WorkerView {
                id: id as nat,
                state: WorkerState::Running,
                thread: Some(thread),
            }),
    {
        Worker { id, state: WorkerState::Running, thread: Some(thread) }
    }

    /// The identity given at creation.
    pub fn id(&self) -> (id: usize)
        ensures
            id == self@.id,
    {
        self.id
    }

    /// The current state.
    pub fn state(&self) -> (state: WorkerState)
        ensures
            state == self@.state,
    {
        self.state
    }

    /// Whether the worker has not been told to terminate yet.
    pub fn is_running(&self) -> (b: bool)
        ensures
            b == (self@.state is Running),
    {
        match self.state {
            WorkerState::Running => true,
            WorkerState::Terminated => false,
        }
    }

    /// Whether the thread handle is still in its slot.
    pub fn has_thread(&self) -> (b: bool)
        ensures
            b == (self@.thread is Some),
    {
        self.thread.is_some()
    }

    /// One turn of the worker's loop, after a message has been received.
    ///
    /// A job is handed out to be run and the worker keeps running; a
    /// `Terminate` ends the worker. A terminated worker takes no further
    /// message.
    pub fn handle<J>(&mut self, message: Message<J>) -> (action: WorkerAction<J>)
        requires
            old(self)@.state is Running,
        ensures
            action == action_for(message),
            final(self)@ == (WorkerView { state: state_after(message), ..old(self)@ }),
    {
        match message {
            Message::NewJob(job) => WorkerAction::Run(job),
            Message::Terminate => {
                self.state = WorkerState::Terminated;
                WorkerAction::Exit
            },
        }
    }

    /// Takes the thread handle out of its slot, leaving the slot empty.
    /// A second call finds nothing.
    pub fn take_thread(&mut self) -> (thread: Option<H>)
        ensures
            thread == old(self)@.thread,
            final(self)@ == (WorkerView { thread: None, ..old(self)@ }),
    {
        self.thread.take()
    }
}

} // verus!
