use std::time::{Duration, Instant};

use vise::Counter;
use zksync_node_core::api::labels::{
    ApiTransport, ApiTransportLabel, BlockDiffLabel, BlockId, BlockIdLabel, BlockNumber,
    FilterType, MethodLabels, MethodMetadata, ProtocolErrorLabels, ProtocolErrorOrigin,
    TypedFilter, Web3Error, Web3ErrorKind, Web3ErrorLabels,
};
use zksync_node_core::api::metrics::{
    ApiMetrics, ErrorDetails, InternalApiConfig, LatencyObservation, OptionalApiParams,
    ResponseSizeObservation, Severity, Web3ConfigLabels, MIN_REPORTED_LATENCY, MIN_REPORTED_SIZE,
};
use zksync_node_core::api::report_filter::{Clock, ReportFilter};
use zksync_node_core::types::H256;

const SECOND: u128 = 1_000_000_000;

fn call(block_id: Option<BlockId>, block_diff: Option<u32>) -> MethodMetadata {
    MethodMetadata { name: "eth_call", started_at: Instant::now(), block_id, block_diff }
}

fn clock() -> Clock {
    Clock::new(Instant::now())
}

#[test]
fn filter_spaces_reports() {
    let mut filter = ReportFilter::new(10);
    let reported: Vec<u128> =
        (0..40).step_by(3).filter(|&now| filter.should_report_at(now)).collect();
    assert_eq!(reported, vec![0, 12, 24, 36]);
}

#[test]
fn filter_waits_for_more_than_interval() {
    let mut filter = ReportFilter::new(10);
    assert!(filter.should_report_at(5));
    assert!(!filter.should_report_at(15));
    assert!(filter.should_report_at(16));
    assert_eq!(filter.last_timestamp, Some(16));
    // The time of the latest report may be in the future.
    assert!(!filter.should_report_at(0));
}

#[test]
fn filter_with_real_clock() {
    let clock = Clock::new(Instant::now() - Duration::from_secs(3));
    let mut filter = ReportFilter::new(3600 * SECOND);
    assert!(filter.should_report(&clock));
    assert!(filter.last_timestamp.unwrap() >= 3 * SECOND);
    assert!(!filter.should_report(&clock));
}

#[test]
fn transport_labels() {
    assert_eq!(ApiTransportLabel::from(&ApiTransport::Http), ApiTransportLabel::Http);
    assert_eq!(ApiTransportLabel::from(&ApiTransport::WebSocket), ApiTransportLabel::Ws);
}

#[test]
fn filter_types() {
    assert_eq!(FilterType::from(&TypedFilter::Events), FilterType::Events);
    assert_eq!(FilterType::from(&TypedFilter::Blocks), FilterType::Blocks);
    assert_eq!(
        FilterType::from(&TypedFilter::PendingTransactions),
        FilterType::PendingTransactions
    );
}

#[test]
fn block_id_labels() {
    let cases = [
        (BlockId::Hash(H256([1; 32])), BlockIdLabel::Hash),
        (BlockId::Number(BlockNumber::Number(5)), BlockIdLabel::Number),
        (BlockId::Number(BlockNumber::Committed), BlockIdLabel::Committed),
        (BlockId::Number(BlockNumber::Finalized), BlockIdLabel::Finalized),
        (BlockId::Number(BlockNumber::Latest), BlockIdLabel::Latest),
        (BlockId::Number(BlockNumber::Earliest), BlockIdLabel::Earliest),
        (BlockId::Number(BlockNumber::Pending), BlockIdLabel::Pending),
    ];
    for (block_id, label) in cases {
        let labels = MethodLabels::from(&call(Some(block_id), None));
        assert_eq!(labels.method, "eth_call");
        assert_eq!(labels.block_id, Some(label));
        assert_eq!(labels.block_diff, None);
    }
}

#[test]
fn block_diff_labels() {
    let cases = [
        (0, BlockDiffLabel::Exact(0), "0"),
        (2, BlockDiffLabel::Exact(2), "2"),
        (3, BlockDiffLabel::Lt(10), "<10"),
        (9, BlockDiffLabel::Lt(10), "<10"),
        (10, BlockDiffLabel::Lt(100), "<100"),
        (99, BlockDiffLabel::Lt(100), "<100"),
        (100, BlockDiffLabel::Lt(1_000), "<1000"),
        (999, BlockDiffLabel::Lt(1_000), "<1000"),
        (1_000, BlockDiffLabel::Geq(1_000), ">=1000"),
        (u32::MAX, BlockDiffLabel::Geq(1_000), ">=1000"),
    ];
    for (block_diff, label, text) in cases {
        let labels = MethodLabels::from(&call(None, Some(block_diff)));
        assert_eq!(labels.block_diff, Some(label));
        assert_eq!(labels.block_id, None);
        assert_eq!(label.to_text(), text);
    }
    assert_eq!(BlockDiffLabel::Exact(u32::MAX).to_text(), "4294967295");
}

#[test]
fn error_kinds() {
    let cases = [
        (Web3Error::NoBlock, Web3ErrorKind::NoBlock),
        (Web3Error::PrunedBlock, Web3ErrorKind::Pruned),
        (Web3Error::PrunedL1Batch, Web3ErrorKind::Pruned),
        (Web3Error::SubmitTransactionError, Web3ErrorKind::SubmitTransaction),
        (Web3Error::SerializationError, Web3ErrorKind::TransactionSerialization),
        (Web3Error::ProxyError("x".to_owned()), Web3ErrorKind::Proxy),
        (Web3Error::TooManyTopics, Web3ErrorKind::TooManyTopics),
        (Web3Error::FilterNotFound, Web3ErrorKind::FilterNotFound),
        (Web3Error::LogsLimitExceeded, Web3ErrorKind::LogsLimitExceeded),
        (Web3Error::InvalidFilterBlockHash, Web3ErrorKind::InvalidFilterBlockHash),
        (Web3Error::TreeApiUnavailable, Web3ErrorKind::TreeApiUnavailable),
        (Web3Error::InternalError("x".to_owned()), Web3ErrorKind::Internal),
        (Web3Error::NotImplemented, Web3ErrorKind::Internal),
    ];
    for (err, kind) in cases {
        assert_eq!(Web3ErrorKind::new(&err), kind);
    }
}

#[test]
fn config_is_observed() {
    let config = InternalApiConfig { req_entities_limit: 1, fee_history_limit: 2 };
    let optional = OptionalApiParams {
        filters_limit: Some(3),
        subscriptions_limit: None,
        batch_request_size_limit: Some(5),
        response_body_size_limit: Some(6),
        websocket_requests_per_minute_limit: Some(7),
    };
    let observed =
        ApiMetrics::new().observe_config(ApiTransportLabel::Ws, 8 * SECOND, &config, &optional);
    let expected = Web3ConfigLabels {
        polling_interval: 8 * SECOND,
        req_entities_limit: 1,
        fee_history_limit: 2,
        filters_limit: Some(3),
        subscriptions_limit: None,
        batch_request_size_limit: Some(5),
        response_body_size_limit: Some(6),
        websocket_requests_per_minute_limit: Some(7),
    };
    assert_eq!(observed, (ApiTransportLabel::Ws, expected));
}

#[test]
fn long_calls_are_reported() {
    let mut metrics = ApiMetrics::new();
    let meta = call(Some(BlockId::Number(BlockNumber::Latest)), Some(15));
    let (observation, report) = metrics.observe_latency_at(&meta, MIN_REPORTED_LATENCY - 1, 0);
    assert!(!report);
    assert_eq!(
        observation,
        LatencyObservation {
            labels: MethodLabels {
                method: "eth_call",
                block_id: Some(BlockIdLabel::Latest),
                block_diff: Some(BlockDiffLabel::Lt(100)),
            },
            latency: MIN_REPORTED_LATENCY - 1,
            block_diff: Some(15),
        }
    );
    assert!(metrics.observe_latency_at(&meta, 5 * SECOND, 0).1);
    assert!(!metrics.observe_latency_at(&meta, 5 * SECOND, SECOND).1);
    assert!(metrics.observe_latency_at(&meta, 5 * SECOND, SECOND + 1).1);
}

#[test]
fn latency_is_measured_from_start_of_call() {
    let mut metrics = ApiMetrics::new();
    let mut meta = call(None, None);
    let (observation, report) = metrics.observe_latency(&meta, &clock());
    assert!(observation.latency < 5 * SECOND);
    assert!(!report);
    meta.started_at = Instant::now() - Duration::from_secs(6);
    let (observation, report) = metrics.observe_latency(&meta, &clock());
    assert!(observation.latency >= 6 * SECOND);
    assert_eq!(observation.block_diff, None);
    assert!(report);
}

#[test]
fn dropped_calls_are_reported() {
    let mut metrics = ApiMetrics::new();
    let meta = call(None, Some(1));
    let (observation, report) = metrics.observe_dropped_call_at(&meta, 7, 0);
    assert_eq!(observation.latency, 7);
    assert_eq!(observation.labels, MethodLabels::from(&meta));
    assert!(report);
    assert!(!metrics.observe_dropped_call_at(&meta, 7, SECOND).1);
    assert!(metrics.observe_dropped_call(&meta, &Clock::new(meta.started_at)).0.latency > 0);
}

#[test]
fn large_responses_are_reported() {
    let mut metrics = ApiMetrics::new();
    assert_eq!(MIN_REPORTED_SIZE, 10_485_760);
    let size = MIN_REPORTED_SIZE;
    let (observation, report) = metrics.observe_response_size_at("eth_call", size - 1, 0);
    assert_eq!(observation, ResponseSizeObservation { method: "eth_call", size: size - 1 });
    assert!(!report);
    assert!(metrics.observe_response_size_at("eth_call", size, 0).1);
    assert!(!metrics.observe_response_size_at("eth_call", size, SECOND).1);

    let mut metrics = ApiMetrics::new();
    assert!(!metrics.observe_response_size("eth_call", size - 1, &clock()).1);
    assert!(metrics.observe_response_size("eth_call", size, &clock()).1);
    assert!(!metrics.observe_response_size("eth_call", size, &clock()).1);
}

#[test]
fn filters_are_independent() {
    let mut metrics = ApiMetrics::new();
    let meta = call(None, None);
    assert!(metrics.observe_latency_at(&meta, MIN_REPORTED_LATENCY, 0).1);
    assert!(metrics.observe_dropped_call_at(&meta, 0, 0).1);
    assert!(metrics.observe_response_size_at("eth_call", MIN_REPORTED_SIZE, 0).1);
}

#[test]
fn protocol_errors_are_labeled() {
    let metrics = ApiMetrics::new();
    let labels = metrics.observe_protocol_error("eth_call", -32_602, true);
    assert_eq!(
        labels,
        ProtocolErrorLabels {
            method: "eth_call",
            error_code: -32_602,
            origin: ProtocolErrorOrigin::App,
        }
    );
    let labels = metrics.observe_protocol_error("eth_call", -32_602, false);
    assert_eq!(labels.origin, ProtocolErrorOrigin::Framework);
}

#[test]
fn first_protocol_error_is_always_reported() {
    let mut metrics = ApiMetrics::new();
    let labels = metrics.observe_protocol_error("eth_call", -32_602, true);
    assert_eq!(metrics.count_protocol_error_at(labels, 1, 0), Some(labels));
    assert_eq!(metrics.count_protocol_error_at(labels, 2, 100_000_000), None);
    assert_eq!(metrics.count_protocol_error_at(labels, 0, 100_000_000), Some(labels));
    assert_eq!(metrics.count_protocol_error_at(labels, 3, 100_000_001), Some(labels));
}

#[test]
fn protocol_errors_are_counted() {
    let mut metrics = ApiMetrics::new();
    metrics.protocol_error_filter = ReportFilter::new(u128::MAX);
    let labels = metrics.observe_protocol_error("eth_call", -32_602, true);
    let counter: Counter = Counter::default();
    let clock = clock();
    assert_eq!(metrics.count_protocol_error(labels, &counter, &clock), (0, Some(labels)));
    // The first error does not delay the next report.
    assert_eq!(metrics.count_protocol_error(labels, &counter, &clock), (1, Some(labels)));
    assert_eq!(metrics.count_protocol_error(labels, &counter, &clock), (2, None));
    assert_eq!(counter.get(), 3);
}

#[test]
fn error_details_are_logged() {
    let metrics = ApiMetrics::new();
    let observation =
        metrics.observe_web3_error("eth_call", &Web3Error::InternalError("oops".to_owned()));
    assert_eq!(
        observation.labels,
        Web3ErrorLabels { method: "eth_call", kind: Web3ErrorKind::Internal }
    );
    assert_eq!(
        observation.details,
        Some(ErrorDetails { severity: Severity::Error, text: "oops".to_owned() })
    );
    let observation =
        metrics.observe_web3_error("eth_call", &Web3Error::ProxyError("down".to_owned()));
    assert_eq!(
        observation.details,
        Some(ErrorDetails { severity: Severity::Warning, text: "down".to_owned() })
    );
    let observation = metrics.observe_web3_error("eth_call", &Web3Error::NotImplemented);
    assert_eq!(observation.labels.kind, Web3ErrorKind::Internal);
    assert_eq!(observation.details, None);
}

#[test]
fn only_first_error_is_new() {
    let metrics = ApiMetrics::new();
    let labels = metrics.observe_web3_error("eth_call", &Web3Error::NoBlock).labels;
    assert_eq!(metrics.count_web3_error_after(labels, 0), Some(labels));
    assert_eq!(metrics.count_web3_error_after(labels, 1), None);

    let counter: Counter = Counter::default();
    assert_eq!(metrics.count_web3_error(labels, &counter), (0, Some(labels)));
    assert_eq!(metrics.count_web3_error(labels, &counter), (1, None));
    assert_eq!(counter.get(), 2);
}
