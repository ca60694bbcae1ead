//! A fixed-size worker pool and the session logic of a small game server.
//!
//! The pool ([`pool`]) feeds jobs to a fixed number of workers ([`worker`])
//! through one first-in-first-out channel ([`channel`], [`message`]). Its
//! mathematical model is in [`model`], and [`laws`] states what holds of
//! every pool: each job is run exactly once, jobs are claimed in the order
//! of submission, and shutdown ends every worker.
//!
//! The server keeps a registry of players and rooms ([`server`]), reads
//! client messages ([`interpreter`], by way of [`json`]) and decides what
//! goes out on which connection ([`connection`]). [`greeting`] holds the
//! texts of the HTTP front end.
//!
//! Nothing here starts a thread or touches a socket.

pub mod channel;
pub mod connection;
pub mod error;
pub mod greeting;
pub mod interpreter;
pub mod json;
pub mod laws;
pub mod message;
pub mod model;
pub mod pool;
pub mod server;
pub mod worker;
