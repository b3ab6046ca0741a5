//! Scheduling, header parsing and result aggregation for an HTTP load tester.
//!
//! A run fires `count` requests at `rate` requests per second: request `i`
//! waits `i * (1000 / rate)` milliseconds after the start of dispatch. Each
//! request ends as one `Outcome`, and the outcomes of a run are aggregated
//! into `Results`, whose `Summary` the report prints.

mod headers;
mod method;
mod outputs;
mod schedule;

pub use headers::{get_headers, split_header, HeaderProblem, MAX_HEADERS};
pub use method::{parse_method, Method};
pub use outputs::{
    aggregate, average_latency, maximum_latency, minimum_latency, summarize, LatencySummary,
    Outcome, Results, ResultsModel, Summary,
};
pub use schedule::{delay_between_queries, estimated_seconds, schedule_requests, ScheduledRequest};
