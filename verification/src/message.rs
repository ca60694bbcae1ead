//! What travels on the dispatch channel.

use vstd::prelude::*;

verus! {

/// One unit carried by the dispatch channel: either a job for some worker
/// to run, or the instruction that makes exactly one worker leave its loop.
///
/// Both kinds share one queue, so a worker meets a `Terminate` only after
/// every job that was enqueued before it.
#[derive(Debug)]
pub enum Message<J> {
    NewJob(J),
    Terminate,
}

impl<J> Message<J> {
    /// Whether this message tells a worker to stop.
    pub fn is_terminate(&self) -> (b: bool)
        ensures
            b == (*self is Terminate),
    {
        match self {
            Message::NewJob(_) => false,
            Message::Terminate => true,
        }
    }

    /// The job inside the message, if it carries one.
    pub fn into_job(self) -> (job: Option<J>)
        ensures
            job == match self {
                Message::NewJob(j) => Some(j),
                Message::Terminate => None::<J>,
            },
    {
        match self {
            Message::NewJob(j) => Some(j),
            Message::Terminate => None,
        }
    }
}

} // verus!
