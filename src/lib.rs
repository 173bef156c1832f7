//! A bounded-concurrency batch pipeline with partial-failure retry.
//!
//! The library holds the decisions of the pipeline: how identifiers are
//! normalised, how work is split into groups, when a new group may be
//! started, and how a partially rejected write is retried. The caller runs
//! the actual requests and reports their outcomes back.

pub mod error;
pub mod group;
pub mod normalize;
pub mod request;
pub mod retry;
pub mod scheduler;

pub use error::PipelineError;
pub use group::chunked;
pub use scheduler::Scheduler;
pub use retry::{RetryPolicy, RetryState, RetryStep};
pub use normalize::{normalize, parse_list};
pub use request::{plan, Request, Response, Workflow};
