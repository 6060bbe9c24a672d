//! Coordination core for a fleet of proof workers.
//!
//! Two things are kept, both in memory only. The lease store grants
//! time-bounded, mutually exclusive leases on job keys, so that no two
//! workers take up the same job. The worker registry keeps, for every worker
//! instance, the validated history of its job cycles, and answers queries
//! over it by instance and by time window.
//!
//! Nothing here reads a clock, takes a lock or talks to the network: every
//! operation is a plain function of the state, its arguments and the clock
//! reading that the caller hands in.
//!
//! - [`lease`]: the lease store and its periodic sweep.
//! - [`event`], [`state`]: the events that workers report, and the state
//!   machine of one job cycle.
//! - [`registry`]: worker instances and their histories.
//! - [`query`]: windows over histories.
//! - [`text`]: instance identifiers and comma-separated lists.
//! - [`encode`]: JSON text for the list of instances.
//! - [`reply`]: status codes for the outcomes.

pub mod encode;
pub mod event;
pub mod lease;
pub mod query;
pub mod registry;
pub mod reply;
pub mod state;
pub mod text;
