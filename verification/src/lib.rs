//! Ordered dispatch of window events to independent handlers, with the first
//! handler failure kept until the event source hands control back.
//!
//! Several unrelated modules can share one event loop: each brings a handler,
//! the handlers form a [`HandlerChain`], and every event walks the chain in
//! order until a handler consumes it, a handler fails, or the chain ends. An
//! [`EventLoop`] pairs the handle of the event source with the error state of
//! its run; once it runs, a [`RunningLoop`] routes the events and keeps the
//! first failure, which is what the run resolves to when the source returns.
//!
//! The event source itself stays outside: the library is handed what
//! initialising the source gave, and the call that makes the source run.

pub mod outcome;
pub mod walk;
pub mod error;
pub mod chain;
pub mod event_loop;

pub use crate::chain::HandlerChain;
pub use crate::error::EventLoopError;
pub use crate::event_loop::{EventLoop, RunningLoop};
pub use crate::outcome::DispatchOutcome;
