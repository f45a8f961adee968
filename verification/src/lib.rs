//! A readiness reactor over a level-triggered "poll every watched descriptor
//! at once" primitive, written without any I/O of its own.
//!
//! The crate holds the state and the decisions of the reactor: the table of
//! registered descriptors, the readiness bitsets handed to the poll
//! primitive, and the two protocols that run over them (the request barrier
//! that caller threads go through, and the life of the polling thread).
//! Whoever drives it performs the system calls and reports their outcomes.

pub mod error;
pub mod event;
pub mod fds;
pub mod waker;
pub mod registration;
pub mod slots;
pub mod table;
pub mod registrations;
pub mod state;
pub mod reactor;
