//! Observations of the API server.

use vise::Counter;
use vstd::prelude::*;

use crate::api::labels::{
    method_labels, web3_error_kind, ApiTransportLabel, MethodLabels, MethodMetadata, ProtocolErrorLabels,
    ProtocolErrorOrigin, Web3Error, Web3ErrorKind, Web3ErrorLabels,
};
use crate::api::report_filter::{elapsed_nanos, Clock, ReportFilter};

verus! {

/// A `vise` counter.
#[verifier::external_type_specification]
#[verifier::external_body]
#[verifier::reject_recursive_types(N)]
#[verifier::reject_recursive_types(A)]
pub struct ExCounter<N, A>(vise::Counter<N, A>);

/// Increases a counter by 1 with `vise::Counter::inc()`, and returns its previous value.
///
/// Nothing is claimed of the result: other threads may increase the counter at any time.
#[verifier::external_body]
fn increment(counter: &Counter) -> (res: u64) {
    counter.inc()
}

/// Smallest latency of a call that is reported, in nanoseconds (5 seconds).
pub const MIN_REPORTED_LATENCY: u128 = 5_000_000_000;

/// Smallest size of a response that is reported, in bytes (10 MiB).
pub const MIN_REPORTED_SIZE: usize = 10 * 1_024 * 1_024;

/// Interval between reports on calls and responses, in nanoseconds (1 second).
pub const CALL_REPORT_INTERVAL: u128 = 1_000_000_000;

/// Interval between reports on protocol errors, in nanoseconds (100 milliseconds).
pub const PROTOCOL_ERROR_REPORT_INTERVAL: u128 = 100_000_000;

/// Configuration of the API server that requests share.
#[derive(Debug, Clone, Copy, PartialEq, Eq)]
pub struct InternalApiConfig {
    pub req_entities_limit: usize,
    pub fee_history_limit: u64,
}

/// Optional parameters of the API server.
#[derive(Debug, Clone, Copy, PartialEq, Eq)]
pub struct OptionalApiParams {
    pub filters_limit: Option<usize>,
    pub subscriptions_limit: Option<usize>,
    pub batch_request_size_limit: Option<usize>,
    pub response_body_size_limit: Option<usize>,
    pub websocket_requests_per_minute_limit: Option<u32>,
}

/// Labels that describe the configuration of the API server.
#[derive(Debug, Clone, Copy, PartialEq, Eq)]
pub struct Web3ConfigLabels {
    /// Interval between polls, in nanoseconds.
    pub polling_interval: u128,
    pub req_entities_limit: usize,
    pub fee_history_limit: u64,
    pub filters_limit: Option<usize>,
    pub subscriptions_limit: Option<usize>,
    /// Limit in bytes.
    pub batch_request_size_limit: Option<usize>,
    /// Limit in bytes.
    pub response_body_size_limit: Option<usize>,
    pub websocket_requests_per_minute_limit: Option<u32>,
}

/// A finished RPC call.
#[derive(Debug, Clone, Copy, PartialEq, Eq)]
pub struct LatencyObservation {
    /// Labels under which the latency is recorded.
    pub labels: MethodLabels,
    /// Latency of the call in nanoseconds.
    pub latency: u128,
    /// Difference between the latest block and the block of the call, which is recorded under the
    /// name of the method.
    pub block_diff: Option<u64>,
}

/// Difference between blocks in the width in which it is recorded.
pub open spec fn recorded_block_diff(block_diff: Option<u32>) -> Option<u64> {
    match block_diff {
        Some(block_diff) => Some(block_diff as u64),
        None => None,
    }
}

/// A finished RPC call with the specified metadata and latency.
pub open spec fn latency_observation(meta: MethodMetadata, latency: u128) -> LatencyObservation {
    LatencyObservation {
        labels: method_labels(meta),
        latency,
        block_diff: recorded_block_diff(meta.block_diff),
    }
}

/// An RPC call dropped by its client.
#[derive(Debug, Clone, Copy, PartialEq, Eq)]
pub struct DroppedCallObservation {
    /// Labels under which the latency is recorded.
    pub labels: MethodLabels,
    /// Time from the start of the call until it was dropped, in nanoseconds.
    pub latency: u128,
}

/// A dropped RPC call with the specified metadata and latency.
pub open spec fn dropped_call_observation(
    meta: MethodMetadata,
    latency: u128,
) -> DroppedCallObservation {
    DroppedCallObservation { labels: method_labels(meta), latency }
}

/// A response to an RPC call.
#[derive(Debug, Clone, Copy, PartialEq, Eq)]
pub struct ResponseSizeObservation {
    /// Name of the method under which the size is recorded.
    pub method: &'static str,
    /// Serialized size of the response in bytes.
    pub size: usize,
}

/// How severe a logged error is.
#[derive(Debug, Clone, Copy, PartialEq, Eq)]
pub enum Severity {
    Error,
    Warning,
}

/// Details of an error that should be logged whenever the error occurs.
#[derive(Debug, Clone, PartialEq, Eq)]
pub struct ErrorDetails {
    pub severity: Severity,
    pub text: String,
}

/// An application error of an RPC method.
#[derive(Debug, Clone, PartialEq, Eq)]
pub struct Web3ErrorObservation {
    /// Labels under which the error is counted.
    pub labels: Web3ErrorLabels,
    /// Details to be logged.
    pub details: Option<ErrorDetails>,
}

/// Whether a filter has been asked, at some point in time, about an event, with the specified answer.
pub open spec fn is_filtered(before: ReportFilter, reported: bool, after: ReportFilter) -> bool {
    exists|now: u128| #[trigger] before.is_due(now) == reported && after == before.after_event(now)
}

/// General-purpose API server metrics: decides under which labels events are recorded, and which of
/// them are reported to the log.
#[derive(Debug, Clone, Copy, PartialEq, Eq)]
pub struct ApiMetrics {
    /// Filter for reports on long calls.
    pub latency_filter: ReportFilter,
    /// Filter for reports on dropped calls.
    pub dropped_call_filter: ReportFilter,
    /// Filter for reports on large responses.
    pub response_size_filter: ReportFilter,
    /// Filter for reports on protocol errors.
    pub protocol_error_filter: ReportFilter,
}

impl ApiMetrics {
    /// Creates metrics that have not reported anything yet.
    pub fn new() -> (res: Self)
        ensures
            res.latency_filter == (ReportFilter {
                interval: CALL_REPORT_INTERVAL,
                last_timestamp: None,
            }),
            res.dropped_call_filter == res.latency_filter,
            res.response_size_filter == res.latency_filter,
            res.protocol_error_filter == (ReportFilter {
                interval: PROTOCOL_ERROR_REPORT_INTERVAL,
                last_timestamp: None,
            }),
    {
        ApiMetrics {
            latency_filter: ReportFilter::new(CALL_REPORT_INTERVAL),
            dropped_call_filter: ReportFilter::new(CALL_REPORT_INTERVAL),
            response_size_filter: ReportFilter::new(CALL_REPORT_INTERVAL),
            protocol_error_filter: ReportFilter::new(PROTOCOL_ERROR_REPORT_INTERVAL),
        }
    }

    /// Observes the configuration of an API server. Returns the label of its transport, and the labels
    /// that should be recorded under it.
    pub fn observe_config(
        &self,
        transport: ApiTransportLabel,
        polling_interval: u128,
        config: &InternalApiConfig,
        optional: &OptionalApiParams,
    ) -> (res: (ApiTransportLabel, Web3ConfigLabels))
        ensures
            res.0 == transport,
            res.1 == (Web3ConfigLabels {
                polling_interval,
                req_entities_limit: config.req_entities_limit,
                fee_history_limit: config.fee_history_limit,
                filters_limit: optional.filters_limit,
                subscriptions_limit: optional.subscriptions_limit,
                batch_request_size_limit: optional.batch_request_size_limit,
                response_body_size_limit: optional.response_body_size_limit,
                websocket_requests_per_minute_limit: optional.websocket_requests_per_minute_limit,
            }),
    {
        let labels = Web3ConfigLabels {
            polling_interval,
            req_entities_limit: config.req_entities_limit,
            fee_history_limit: config.fee_history_limit,
            filters_limit: optional.filters_limit,
            subscriptions_limit: optional.subscriptions_limit,
            batch_request_size_limit: optional.batch_request_size_limit,
            response_body_size_limit: optional.response_body_size_limit,
            websocket_requests_per_minute_limit: optional.websocket_requests_per_minute_limit,
        };
        (transport, labels)
    }

    /// Observes latency of a finished RPC call. Returns what should be recorded, and whether the call
    /// should be reported; see [`Self::observe_latency_at()`].
    pub fn observe_latency(&mut self, meta: &MethodMetadata, clock: &Clock) -> (res: (
        LatencyObservation,
        bool,
    ))
        ensures
            res.0 == latency_observation(*meta, res.0.latency),
            res.0.latency < MIN_REPORTED_LATENCY ==> !res.1 && *final(self) == *old(self),
            res.0.latency >= MIN_REPORTED_LATENCY ==> is_filtered(
                old(self).latency_filter,
                res.1,
                final(self).latency_filter,
            ),
            *final(self) == (ApiMetrics {
                latency_filter: final(self).latency_filter,
                ..*old(self)
            }),
    {
        let latency = elapsed_nanos(&meta.started_at);
        // The clock is not read for calls that are too short to be reported.
        let now = if latency >= MIN_REPORTED_LATENCY {
            clock.now()
        } else {
            0
        };
        self.observe_latency_at(meta, latency, now)
    }

    /// Observes an RPC call that took the specified time and finished at the specified time. A long
    /// call is reported unless another one has been reported recently.
    pub fn observe_latency_at(&mut self, meta: &MethodMetadata, latency: u128, now: u128) -> (res: (
        LatencyObservation,
        bool,
    ))
        ensures
            res.0 == latency_observation(*meta, latency),
            res.1 == (latency >= MIN_REPORTED_LATENCY && old(self).latency_filter.is_due(now)),
            *final(self) == if latency >= MIN_REPORTED_LATENCY {
                ApiMetrics {
                    latency_filter: old(self).latency_filter.after_event(now),
                    ..*old(self)
                }
            } else {
                *old(self)
            },
    {
        let observation = LatencyObservation {
            labels: MethodLabels::from(meta),
            latency,
            block_diff: match meta.block_diff {
                Some(block_diff) => Some(block_diff as u64),
                None => None,
            },
        };
        let report = latency >= MIN_REPORTED_LATENCY && self.latency_filter.should_report_at(now);
        (observation, report)
    }

    /// Observes latency of a dropped RPC call. Returns what should be recorded, and whether the call
    /// should be reported; see [`Self::observe_dropped_call_at()`].
    pub fn observe_dropped_call(&mut self, meta: &MethodMetadata, clock: &Clock) -> (res: (
        DroppedCallObservation,
        bool,
    ))
        ensures
            res.0 == dropped_call_observation(*meta, res.0.latency),
            is_filtered(old(self).dropped_call_filter, res.1, final(self).dropped_call_filter),
            *final(self) == (ApiMetrics {
                dropped_call_filter: final(self).dropped_call_filter,
                ..*old(self)
            }),
    {
        let latency = elapsed_nanos(&meta.started_at);
        let now = clock.now();
        self.observe_dropped_call_at(meta, latency, now)
    }

    /// Observes an RPC call that was dropped after the specified time, at the specified time. The call
    /// is reported unless another one has been reported recently.
    pub fn observe_dropped_call_at(&mut self, meta: &MethodMetadata, latency: u128, now: u128) -> (
        res: (DroppedCallObservation, bool))
        ensures
            res.0 == dropped_call_observation(*meta, latency),
            res.1 == old(self).dropped_call_filter.is_due(now),
            *final(self) == (ApiMetrics {
                dropped_call_filter: old(self).dropped_call_filter.after_event(now),
                ..*old(self)
            }),
    {
        let observation = DroppedCallObservation { labels: MethodLabels::from(meta), latency };
        let report = self.dropped_call_filter.should_report_at(now);
        (observation, report)
    }

    /// Observes serialized size of a response. Returns what should be recorded, and whether the
    /// response should be reported; see [`Self::observe_response_size_at()`].
    pub fn observe_response_size(&mut self, method: &'static str, size: usize, clock: &Clock) -> (
        res: (ResponseSizeObservation, bool))
        ensures
            res.0 == (ResponseSizeObservation { method, size }),
            size < MIN_REPORTED_SIZE ==> !res.1 && *final(self) == *old(self),
            size >= MIN_REPORTED_SIZE ==> is_filtered(
                old(self).response_size_filter,
                res.1,
                final(self).response_size_filter,
            ),
            *final(self) == (ApiMetrics {
                response_size_filter: final(self).response_size_filter,
                ..*old(self)
            }),
    {
        // The clock is not read for responses that are too small to be reported.
        let now = if size >= MIN_REPORTED_SIZE {
            clock.now()
        } else {
            0
        };
        self.observe_response_size_at(method, size, now)
    }

    /// Observes serialized size of a response sent at the specified time. A large response is reported
    /// unless another one has been reported recently.
    pub fn observe_response_size_at(&mut self, method: &'static str, size: usize, now: u128) -> (
        res: (ResponseSizeObservation, bool))
        ensures
            res.0 == (ResponseSizeObservation { method, size }),
            res.1 == (size >= MIN_REPORTED_SIZE && old(self).response_size_filter.is_due(now)),
            *final(self) == if size >= MIN_REPORTED_SIZE {
                ApiMetrics {
                    response_size_filter: old(self).response_size_filter.after_event(now),
                    ..*old(self)
                }
            } else {
                *old(self)
            },
    {
        let report = size >= MIN_REPORTED_SIZE && self.response_size_filter.should_report_at(now);
        (ResponseSizeObservation { method, size }, report)
    }

    /// Observes a protocol error. Returns the labels under which the error should be counted with
    /// [`Self::count_protocol_error()`].
    pub fn observe_protocol_error(
        &self,
        method: &'static str,
        error_code: i32,
        has_app_error: bool,
    ) -> (res: ProtocolErrorLabels)
        ensures
            res == (ProtocolErrorLabels {
                method,
                error_code,
                origin: if has_app_error {
                    ProtocolErrorOrigin::App
                } else {
                    ProtocolErrorOrigin::Framework
                },
            }),
    {
        ProtocolErrorLabels {
            method,
            error_code,
            origin: if has_app_error {
                ProtocolErrorOrigin::App
            } else {
                ProtocolErrorOrigin::Framework
            },
        }
    }

    /// Counts a protocol error with the counter for its labels. Returns how many errors have been
    /// counted before, and the labels if the error should be reported; see
    /// [`Self::count_protocol_error_at()`].
    ///
    /// That the counter increases is not a part of the contract, since other threads share it.
    pub fn count_protocol_error(
        &mut self,
        labels: ProtocolErrorLabels,
        counter: &Counter,
        clock: &Clock,
    ) -> (res: (u64, Option<ProtocolErrorLabels>))
        ensures
            res.1 is Some ==> res.1 == Some(labels),
            res.0 == 0 ==> res.1 is Some && *final(self) == *old(self),
            res.0 > 0 ==> is_filtered(
                old(self).protocol_error_filter,
                res.1 is Some,
                final(self).protocol_error_filter,
            ),
            old(self).protocol_error_filter.last_timestamp is None ==> res.1 is Some,
            *final(self) == (ApiMetrics {
                protocol_error_filter: final(self).protocol_error_filter,
                ..*old(self)
            }),
    {
        let previous_count = increment(counter);
        // The clock is not read for the first error with its labels.
        let now = if previous_count > 0 {
            clock.now()
        } else {
            0
        };
        (previous_count, self.count_protocol_error_at(labels, previous_count, now))
    }

    /// Returns the labels of a protocol error if the error should be reported, given how many errors
    /// have been counted under its labels before, and the time of the error. The first error with its
    /// labels always is, and does not delay other reports.
    pub fn count_protocol_error_at(
        &mut self,
        labels: ProtocolErrorLabels,
        previous_count: u64,
        now: u128,
    ) -> (res: Option<ProtocolErrorLabels>)
        ensures
            res == if previous_count == 0 || old(self).protocol_error_filter.is_due(now) {
                Some(labels)
            } else {
                None
            },
            *final(self) == if previous_count == 0 {
                *old(self)
            } else {
                ApiMetrics {
                    protocol_error_filter: old(self).protocol_error_filter.after_event(now),
                    ..*old(self)
                }
            },
    {
        if previous_count == 0 || self.protocol_error_filter.should_report_at(now) {
            Some(labels)
        } else {
            None
        }
    }

    /// Observes an application error. Returns the labels under which the error should be counted with
    /// [`Self::count_web3_error()`], and the details of internal and proxy errors, which should be
    /// logged each time.
    pub fn observe_web3_error(&self, method: &'static str, err: &Web3Error) -> (res:
        Web3ErrorObservation)
        ensures
            res.labels == (Web3ErrorLabels { method, kind: web3_error_kind(*err) }),
            match *err {
                Web3Error::InternalError(text) => res.details == Some(
                    ErrorDetails { severity: Severity::Error, text },
                ),
                Web3Error::ProxyError(text) => res.details == Some(
                    ErrorDetails { severity: Severity::Warning, text },
                ),
                _ => res.details is None,
            },
    {
        let details = match err {
            Web3Error::InternalError(text) => Some(
                ErrorDetails { severity: Severity::Error, text: text.clone() },
            ),
            Web3Error::ProxyError(text) => Some(
                ErrorDetails { severity: Severity::Warning, text: text.clone() },
            ),
            _ => None,
        };
        Web3ErrorObservation {
            labels: Web3ErrorLabels { method, kind: Web3ErrorKind::new(err) },
            details,
        }
    }

    /// Counts an application error with the counter for its labels. Returns how many errors have been
    /// counted before, and the labels if the error should be reported as new; see
    /// [`Self::count_web3_error_after()`].
    ///
    /// That the counter increases is not a part of the contract, since other threads share it.
    pub fn count_web3_error(&self, labels: Web3ErrorLabels, counter: &Counter) -> (res: (
        u64,
        Option<Web3ErrorLabels>,
    ))
        ensures
            res.1 == if res.0 == 0 {
                Some(labels)
            } else {
                None
            },
    {
        let previous_count = increment(counter);
        (previous_count, self.count_web3_error_after(labels, previous_count))
    }

    /// Returns the labels of an application error if the error should be reported as new, given how
    /// many errors have been counted under its labels before. Only the first error with its labels is,
    /// to not spam logs.
    pub fn count_web3_error_after(&self, labels: Web3ErrorLabels, previous_count: u64) -> (res:
        Option<Web3ErrorLabels>)
        ensures
            res == if previous_count == 0 {
                Some(labels)
            } else {
                None
            },
    {
        if previous_count == 0 {
            Some(labels)
        } else {
            None
        }
    }
}

} // verus!
