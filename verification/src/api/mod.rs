//! Metrics of the JSON-RPC server: under which labels events are counted, and which events are
//! reported to the log.

pub mod labels;
pub mod laws;
pub mod metrics;
pub mod report_filter;
