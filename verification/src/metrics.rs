//! The names under which the server counts what it does.

use vstd::prelude::*;

verus! {

/// The counters of the server.
#[derive(Clone, Copy, Debug, PartialEq, Eq, Structural)]
pub enum Counter {
    /// Queries that the database answered.
    TotalQueries,
    /// Queries that the database refused or failed.
    TotalQueryErrors,
    /// Errors of any kind.
    TotalErrors,
    /// Requests turned away by the rate limiter.
    TotalRateLimitErrors,
}

/// The name of the histogram of query durations, in milliseconds.
pub fn query_duration_histogram() -> (r: &'static str)
    ensures
        r@ == "surrealmcp.query_duration_ms"@,
{
    "surrealmcp.query_duration_ms"
}

impl Counter {
    /// The name that the counter is published under.
    pub open spec fn spec_name(self) -> Seq<char> {
        match self {
            Counter::TotalQueries => "surrealmcp.total_queries"@,
            Counter::TotalQueryErrors => "surrealmcp.total_query_errors"@,
            Counter::TotalErrors => "surrealmcp.total_errors"@,
            Counter::TotalRateLimitErrors => "surrealmcp.total_rate_limit_errors"@,
        }
    }

    /// The name that the counter is published under.
    pub fn name(&self) -> (r: &'static str)
        ensures
            r@ == self.spec_name(),
    {
        match self {
            Counter::TotalQueries => "surrealmcp.total_queries",
            Counter::TotalQueryErrors => "surrealmcp.total_query_errors",
            Counter::TotalErrors => "surrealmcp.total_errors",
            Counter::TotalRateLimitErrors => "surrealmcp.total_rate_limit_errors",
        }
    }
}

} // verus!
