use vstd::prelude::*;
use crate::error::PipelineError;
use crate::normalize::{is_parsed_list, parse_list};

verus! {

/// The trigger payload of one run.
#[derive(Debug, Clone, PartialEq, Eq)]
pub struct Request {
    /// `"backfill"` for a date-range backfill; anything else, or nothing,
    /// for a snapshot of the latest values.
    pub mode: Option<String>,
    /// First date of a backfill.
    pub start: Option<String>,
    /// Last date of a backfill.
    pub end: Option<String>,
    /// Comma-separated identifiers of a backfill.
    pub tickers: Option<String>,
}

/// What a successful run reports.
#[derive(Debug, Clone, PartialEq, Eq)]
pub struct Response {
    pub message: String,
    pub fetched_count: usize,
}

/// The work a request asks for.
#[derive(Debug, Clone, PartialEq, Eq)]
pub enum Workflow {
    /// Fetch the latest record of each identifier, in groups, concurrently.
    Snapshot { tickers: Vec<String> },
    /// Fetch every record from `start` to `end` of each identifier, one
    /// identifier after the other.
    Backfill { start: String, end: String, tickers: Vec<String> },
}

/// The request asks for a backfill.
pub open spec fn is_backfill(req: Request) -> bool {
    req.mode matches Some(m) && m@ == "backfill"@
}

/// The identifier list of a backfill when the request names none.
pub open spec fn default_backfill_list() -> Seq<char> {
    "AAPL"@
}

/// Decides what a request asks for, before any fetch.
///
/// A backfill needs `start` and `end`: without `start` it is refused with
/// `MissingStart`, with `start` but without `end` with `MissingEnd`. Its
/// identifiers are those of the request (`"AAPL"` when it names none). Any
/// other request is a snapshot of the `configured` identifiers. Identifier
/// lists are comma-separated and are normalised.
pub fn plan(req: &Request, configured: &str) -> (r: Result<Workflow, PipelineError>)
    ensures
        is_backfill(*req) && req.start.is_none() ==> r == Err::<Workflow, PipelineError>(
            PipelineError::MissingStart,
        ),
        is_backfill(*req) && req.start.is_some() && req.end.is_none() ==> r == Err::<
            Workflow,
            PipelineError,
        >(PipelineError::MissingEnd),
        is_backfill(*req) && req.start.is_some() && req.end.is_some() ==> (r matches Ok(
            Workflow::Backfill { start, end, tickers },
        ) && start@ == req.start.unwrap()@ && end@ == req.end.unwrap()@ && (match req.tickers {
            Some(t) => is_parsed_list(t@, tickers@),
            None => is_parsed_list(default_backfill_list(), tickers@),
        })),
        !is_backfill(*req) ==> (r matches Ok(Workflow::Snapshot { tickers }) && is_parsed_list(
            configured@,
            tickers@,
        )),
{
    let backfill = match &req.mode {
        Some(m) => *m == "backfill".to_owned(),
        None => false,
    };
    if backfill {
        let start = match &req.start {
            Some(s) => s.clone(),
            None => {
                return Err(PipelineError::MissingStart);
            },
        };
        let end = match &req.end {
            Some(e) => e.clone(),
            None => {
                return Err(PipelineError::MissingEnd);
            },
        };
        let tickers = match &req.tickers {
            Some(t) => parse_list(t.as_str()),
            None => parse_list("AAPL"),
        };
        Ok(Workflow::Backfill { start, end, tickers })
    } else {
        Ok(Workflow::Snapshot { tickers: parse_list(configured) })
    }
}

} // verus!
