//! The ways in which the pool refuses a request.

use vstd::prelude::*;

verus! {

/// Why a pool operation was refused.
#[derive(Clone, Copy, Debug, PartialEq, Eq, Structural)]
pub enum PoolError {
    /// A pool needs at least one worker. The caller may try again with a
    /// positive size.
    InvalidSize,
    /// The dispatch channel no longer accepts messages: the pool has been
    /// shut down. Nothing was enqueued.
    ChannelClosed,
}

impl PoolError {
    /// A short description for people.
    pub fn describe(&self) -> (text: &'static str)
        ensures
            text@ == match *self {
                PoolError::InvalidSize => "pool size must be greater than zero"@,
                PoolError::ChannelClosed => "dispatch channel is closed"@,
            },
    {
        match self {
            PoolError::InvalidSize => "pool size must be greater than zero",
            PoolError::ChannelClosed => "dispatch channel is closed",
        }
    }
}

} // verus!
