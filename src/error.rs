use vstd::prelude::*;

verus! {

/// The ways a pipeline run can fail.
#[derive(Debug, Clone, Copy, PartialEq, Eq, Structural)]
pub enum PipelineError {
    /// A backfill request came without its `start` date.
    MissingStart,
    /// A backfill request came without its `end` date.
    MissingEnd,
    /// The concurrency ceiling was zero.
    ConcurrencyConfig,
    /// A fetch from the data provider failed.
    Provider,
    /// The store refused a write outright.
    SinkFatal,
    /// A write group still had `leftover` records rejected when the attempt
    /// budget ran out.
    RetryBudgetExceeded { leftover: usize },
}

} // verus!
