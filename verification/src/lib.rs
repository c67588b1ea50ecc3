//! A typed event-dispatch core.
//!
//! Events arrive as envelopes, wait in a bounded first-in first-out admission
//! queue, and are handed one at a time to the handlers registered for their
//! variant, in registration order. The crate holds the decisions of that
//! pipeline as a deterministic state machine and proves what it promises:
//! delivery in order and exactly once, backpressure, containment of handler
//! failures, and a teardown that is final.
//!
//! The crate runs no handler and never waits. A caller that owns the runtime
//! builds a service with [`service::builder::RQServiceBuilder`], lets
//! producers call [`service::RQService::submit`], and drives one consumer
//! that asks [`service::RQService::poll`] for work, performs the handler
//! call it is given, and reports with [`service::RQService::complete`].
//!
//! - [`event`]: variants, envelopes, and what the service answers
//! - [`registry`]: the per-variant handler lists
//! - [`queue`]: the bounded admission queue
//! - [`service`]: the service and its builder
//! - [`state`]: the service as a mathematical state machine, and its invariant
//! - [`trace`]: call traces and what each handler receives from them
//! - [`laws`]: what holds over whole runs

pub mod event;
pub mod laws;
pub mod queue;
pub mod registry;
pub mod service;
pub mod state;
pub mod trace;
