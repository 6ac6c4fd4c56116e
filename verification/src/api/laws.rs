//! What the observations of the API server say of the events that they are made on.

use std::time::Instant;

use vise::Counter;
use vstd::prelude::*;

use crate::api::labels::{
    ApiTransport, ApiTransportLabel, BlockDiffLabel, BlockId, BlockIdLabel, FilterType,
    MethodLabels, MethodMetadata, ProtocolErrorLabels, TypedFilter, Web3Error, Web3ErrorKind,
    Web3ErrorLabels,
};
use crate::api::metrics::{
    ApiMetrics, DroppedCallObservation, InternalApiConfig, LatencyObservation, OptionalApiParams,
    ResponseSizeObservation, Web3ConfigLabels, Web3ErrorObservation,
};
use crate::api::report_filter::{Clock, ReportFilter};
use crate::decimal::{decimal, is_decimal_of, law_decimal_notation_is_read_back};

verus! {

/// A transport has a label of its own.
pub proof fn law_transports_have_own_labels(transport: &ApiTransport, label: ApiTransportLabel)
    requires
        call_ensures(<ApiTransportLabel as From<&ApiTransport>>::from, (transport,), label),
    ensures
        label is Http <==> *transport is Http,
        label is Ws <==> *transport is WebSocket,
{
}

/// A filter is counted under the type that it has.
pub proof fn law_filters_have_own_types(filter: &TypedFilter, label: FilterType)
    requires
        call_ensures(<FilterType as From<&TypedFilter>>::from, (filter,), label),
    ensures
        label is Events <==> *filter is Events,
        label is Blocks <==> *filter is Blocks,
        label is PendingTransactions <==> *filter is PendingTransactions,
{
}

/// Whether a label tells how a call refers to a block: by a hash, by a number, or by one of the named
/// positions in the chain.
pub open spec fn tells_reference(label: BlockIdLabel, block_id: BlockId) -> bool {
    &&& label is Hash <==> block_id is Hash
    &&& label is Number <==> (block_id matches BlockId::Number(number) && number is Number)
    &&& label is Committed <==> (block_id matches BlockId::Number(number) && number is Committed)
    &&& label is Finalized <==> (block_id matches BlockId::Number(number) && number is Finalized)
    &&& label is Latest <==> (block_id matches BlockId::Number(number) && number is Latest)
    &&& label is Earliest <==> (block_id matches BlockId::Number(number) && number is Earliest)
    &&& label is Pending <==> (block_id matches BlockId::Number(number) && number is Pending)
}

/// Calls that refer to blocks in the same way have the same label, and calls that do not have
/// different ones.
pub proof fn law_block_references_have_own_labels(block_id: BlockId, label: BlockIdLabel)
    requires
        call_ensures(<BlockIdLabel as From<BlockId>>::from, (block_id,), label),
    ensures
        tells_reference(label, block_id),
{
}

/// Whether a label tells how large a difference between blocks is: differences up to 2 exactly, those
/// up to 999 by the least power of 10 above them (10 at least), and the rest by being 1,000 or more.
pub open spec fn tells_difference(label: BlockDiffLabel, block_diff: u32) -> bool {
    match label {
        BlockDiffLabel::Exact(value) => block_diff == value && block_diff <= 2,
        BlockDiffLabel::Lt(value) => {
            &&& 3 <= block_diff < value
            &&& value == 10 || value == 100 || value == 1_000
            &&& value > 10 ==> block_diff * 10 >= value
        },
        BlockDiffLabel::Geq(value) => block_diff >= value && value == 1_000,
    }
}

/// The label for a difference tells how large it is.
pub proof fn law_block_diff_label_tells_difference(block_diff: u32, label: BlockDiffLabel)
    requires
        call_ensures(<BlockDiffLabel as From<u32>>::from, (block_diff,), label),
    ensures
        tells_difference(label, block_diff),
{
}

/// The text of a label for a difference is the value in it, after a sign that tells it from the other
/// labels with the same value.
pub proof fn law_block_diff_text_is_read_back(label: &BlockDiffLabel, text: String)
    requires
        call_ensures(BlockDiffLabel::to_text, (label,), text),
    ensures
        match *label {
            BlockDiffLabel::Exact(value) => is_decimal_of(text@, value as int),
            BlockDiffLabel::Lt(value) => {
                &&& text@.len() > 1
                &&& text@[0] == '<'
                &&& is_decimal_of(text@.skip(1), value as int)
            },
            BlockDiffLabel::Geq(value) => {
                &&& text@.len() > 2
                &&& text@[0] == '>'
                &&& text@[1] == '='
                &&& is_decimal_of(text@.skip(2), value as int)
            },
        },
{
    reveal_strlit("<");
    reveal_strlit(">=");
    match *label {
        BlockDiffLabel::Exact(value) => {
            law_decimal_notation_is_read_back(value as nat);
        },
        BlockDiffLabel::Lt(value) => {
            law_decimal_notation_is_read_back(value as nat);
            assert(text@.skip(1) =~= decimal(value as nat));
        },
        BlockDiffLabel::Geq(value) => {
            law_decimal_notation_is_read_back(value as nat);
            assert(text@.skip(2) =~= decimal(value as nat));
        },
    }
}

/// Whether the labels of a call tell the name of its method, and tell of its block what is known of
/// it: there is a label for the block if and only if the call refers to one, and a label for the block
/// difference if and only if the difference is known.
pub open spec fn tell_call(labels: MethodLabels, meta: MethodMetadata) -> bool {
    &&& labels.method == meta.name
    &&& match (labels.block_id, meta.block_id) {
        (Some(label), Some(block_id)) => tells_reference(label, block_id),
        (None, None) => true,
        _ => false,
    }
    &&& match (labels.block_diff, meta.block_diff) {
        (Some(label), Some(block_diff)) => tells_difference(label, block_diff),
        (None, None) => true,
        _ => false,
    }
}

/// The labels of a call tell its method, its block, and its block difference.
pub proof fn law_method_labels_tell_call(meta: &MethodMetadata, labels: MethodLabels)
    requires
        call_ensures(<MethodLabels as From<&MethodMetadata>>::from, (meta,), labels),
    ensures
        tell_call(labels, *meta),
{
}

/// The labels of a call do not depend on each other: calls with the same block difference have the
/// same label for it, whatever their blocks are, and the other way around.
pub proof fn law_method_labels_are_independent(
    meta: &MethodMetadata,
    labels: MethodLabels,
    other_meta: &MethodMetadata,
    other_labels: MethodLabels,
)
    requires
        call_ensures(<MethodLabels as From<&MethodMetadata>>::from, (meta,), labels),
        call_ensures(<MethodLabels as From<&MethodMetadata>>::from, (other_meta,), other_labels),
    ensures
        meta.name == other_meta.name ==> labels.method == other_labels.method,
        meta.block_id == other_meta.block_id ==> labels.block_id == other_labels.block_id,
        meta.block_diff == other_meta.block_diff ==> labels.block_diff == other_labels.block_diff,
{
}

/// Application errors of different kinds are told apart by their labels. Only pruned blocks and
/// batches share a kind, and so do internal errors and methods that are not implemented.
pub proof fn law_application_errors_have_own_kinds(err: &Web3Error, kind: Web3ErrorKind)
    requires
        call_ensures(Web3ErrorKind::new, (err,), kind),
    ensures
        kind is NoBlock <==> *err is NoBlock,
        kind is Pruned <==> *err is PrunedBlock || *err is PrunedL1Batch,
        kind is SubmitTransaction <==> *err is SubmitTransactionError,
        kind is TransactionSerialization <==> *err is SerializationError,
        kind is Proxy <==> *err is ProxyError,
        kind is TooManyTopics <==> *err is TooManyTopics,
        kind is FilterNotFound <==> *err is FilterNotFound,
        kind is LogsLimitExceeded <==> *err is LogsLimitExceeded,
        kind is InvalidFilterBlockHash <==> *err is InvalidFilterBlockHash,
        kind is TreeApiUnavailable <==> *err is TreeApiUnavailable,
        kind is Internal <==> *err is InternalError || *err is NotImplemented,
{
}

/// A new filter has the specified interval, and has not reported anything.
pub proof fn law_new_filter_has_no_reports(interval: u128, filter: ReportFilter)
    requires
        call_ensures(ReportFilter::new, (interval,), filter),
    ensures
        filter.interval == interval,
        filter.last_timestamp is None,
{
}

/// Whether a filter lets an event through: nothing has been reported yet, or the latest report is more
/// than the interval ago.
pub open spec fn lets_through(filter: ReportFilter, now: u128) -> bool {
    filter.last_timestamp matches Some(timestamp) ==> now > timestamp + filter.interval
}

/// Whether the answer of a filter and its change are those for an event at the specified time: the
/// filter remembers the time of an event that it lets through, and does not change otherwise.
pub open spec fn answers_event(
    before: ReportFilter,
    reported: bool,
    after: ReportFilter,
    now: u128,
) -> bool {
    &&& reported == lets_through(before, now)
    &&& after.interval == before.interval
    &&& reported ==> after.last_timestamp == Some(now)
    &&& !reported ==> after.last_timestamp == before.last_timestamp
}

/// A filter reports an event if its latest report is long enough ago, and remembers the time then.
pub proof fn law_filter_answers_event(filter: &mut ReportFilter, now: u128, reported: bool)
    requires
        call_ensures(ReportFilter::should_report_at, (filter, now), reported),
    ensures
        answers_event(*old(filter), reported, *final(filter), now),
{
}

/// The answer of a filter is that for some time, whenever the clock is read.
pub proof fn law_filter_answers_event_now(filter: &mut ReportFilter, clock: &Clock, reported: bool)
    requires
        call_ensures(ReportFilter::should_report, (filter, clock), reported),
    ensures
        exists|now: u128| #[trigger] answers_event(*old(filter), reported, *final(filter), now),
{
    let now = choose|now: u128| #[trigger]
        old(filter).is_due(now) == reported && *final(filter) == old(filter).after_event(now);
    assert(answers_event(*old(filter), reported, *final(filter), now));
}

/// A clock measures time since the start that it is created with.
pub proof fn law_clock_has_start(start: Instant, clock: Clock)
    requires
        call_ensures(Clock::new, (start,), clock),
    ensures
        clock.spec_start() == start,
{
}

/// New metrics report calls and responses at most once a second, and protocol errors at most ten times
/// a second, and have not reported anything.
pub proof fn law_new_metrics_have_no_reports(metrics: ApiMetrics)
    requires
        call_ensures(ApiMetrics::new, (), metrics),
    ensures
        metrics.latency_filter.interval == 1_000_000_000,
        metrics.dropped_call_filter.interval == 1_000_000_000,
        metrics.response_size_filter.interval == 1_000_000_000,
        metrics.protocol_error_filter.interval * 10 == 1_000_000_000,
        metrics.latency_filter.last_timestamp is None,
        metrics.dropped_call_filter.last_timestamp is None,
        metrics.response_size_filter.last_timestamp is None,
        metrics.protocol_error_filter.last_timestamp is None,
{
}

/// Each label of the configuration is the parameter of its name. In particular, a limit that is not set
/// has no value in its label.
pub proof fn law_config_labels_are_parameters(
    metrics: &ApiMetrics,
    transport: ApiTransportLabel,
    polling_interval: u128,
    config: &InternalApiConfig,
    optional: &OptionalApiParams,
    res: (ApiTransportLabel, Web3ConfigLabels),
)
    requires
        call_ensures(
            ApiMetrics::observe_config,
            (metrics, transport, polling_interval, config, optional),
            res,
        ),
    ensures
        res.0 == transport,
        res.1.polling_interval == polling_interval,
        res.1.req_entities_limit == config.req_entities_limit,
        res.1.fee_history_limit == config.fee_history_limit,
        res.1.filters_limit == optional.filters_limit,
        res.1.subscriptions_limit == optional.subscriptions_limit,
        res.1.batch_request_size_limit == optional.batch_request_size_limit,
        res.1.response_body_size_limit == optional.response_body_size_limit,
        res.1.websocket_requests_per_minute_limit == optional.websocket_requests_per_minute_limit,
{
}

/// Whether all filters but that for long calls are the same.
pub open spec fn changes_latency_filter_only(before: ApiMetrics, after: ApiMetrics) -> bool {
    &&& after.dropped_call_filter == before.dropped_call_filter
    &&& after.response_size_filter == before.response_size_filter
    &&& after.protocol_error_filter == before.protocol_error_filter
}

/// Whether all filters but that for dropped calls are the same.
pub open spec fn changes_dropped_call_filter_only(before: ApiMetrics, after: ApiMetrics) -> bool {
    &&& after.latency_filter == before.latency_filter
    &&& after.response_size_filter == before.response_size_filter
    &&& after.protocol_error_filter == before.protocol_error_filter
}

/// Whether all filters but that for large responses are the same.
pub open spec fn changes_response_size_filter_only(before: ApiMetrics, after: ApiMetrics) -> bool {
    &&& after.latency_filter == before.latency_filter
    &&& after.dropped_call_filter == before.dropped_call_filter
    &&& after.protocol_error_filter == before.protocol_error_filter
}

/// Whether all filters but that for protocol errors are the same.
pub open spec fn changes_protocol_error_filter_only(before: ApiMetrics, after: ApiMetrics) -> bool {
    &&& after.latency_filter == before.latency_filter
    &&& after.dropped_call_filter == before.dropped_call_filter
    &&& after.response_size_filter == before.response_size_filter
}

/// Whether what is recorded of a finished call tells of it what is known, its block difference
/// included.
pub open spec fn records_call(observation: LatencyObservation, meta: MethodMetadata) -> bool {
    &&& tell_call(observation.labels, meta)
    &&& match (observation.block_diff, meta.block_diff) {
        (Some(recorded), Some(block_diff)) => recorded == block_diff,
        (None, None) => true,
        _ => false,
    }
}

/// A finished call is recorded with its latency. It is reported if it took 5 seconds or more, and no
/// other long call has been reported within the interval. Calls that are not that long do not delay
/// reports.
pub proof fn law_long_calls_are_reported(
    metrics: &mut ApiMetrics,
    meta: &MethodMetadata,
    latency: u128,
    now: u128,
    res: (LatencyObservation, bool),
)
    requires
        call_ensures(ApiMetrics::observe_latency_at, (metrics, meta, latency, now), res),
    ensures
        records_call(res.0, *meta),
        res.0.latency == latency,
        changes_latency_filter_only(*old(metrics), *final(metrics)),
        latency >= 5_000_000_000 ==> answers_event(
            old(metrics).latency_filter,
            res.1,
            final(metrics).latency_filter,
            now,
        ),
        latency < 5_000_000_000 ==> !res.1 && final(metrics).latency_filter == old(
            metrics,
        ).latency_filter,
{
}

/// Whatever time is measured, a finished call is recorded with it, and is reported by the rules for it.
pub proof fn law_long_calls_are_reported_now(
    metrics: &mut ApiMetrics,
    meta: &MethodMetadata,
    clock: &Clock,
    res: (LatencyObservation, bool),
)
    requires
        call_ensures(ApiMetrics::observe_latency, (metrics, meta, clock), res),
    ensures
        records_call(res.0, *meta),
        changes_latency_filter_only(*old(metrics), *final(metrics)),
        res.0.latency >= 5_000_000_000 ==> exists|now: u128| #[trigger]
            answers_event(
                old(metrics).latency_filter,
                res.1,
                final(metrics).latency_filter,
                now,
            ),
        res.0.latency < 5_000_000_000 ==> !res.1 && final(metrics).latency_filter == old(
            metrics,
        ).latency_filter,
{
    let before = old(metrics).latency_filter;
    let after = final(metrics).latency_filter;
    if res.0.latency >= 5_000_000_000 {
        let now = choose|now: u128| #[trigger]
            before.is_due(now) == res.1 && after == before.after_event(now);
        assert(answers_event(before, res.1, after, now));
    }
}

/// A dropped call is recorded with the time that it took. It is reported unless another one has been
/// reported within the interval.
pub proof fn law_dropped_calls_are_reported(
    metrics: &mut ApiMetrics,
    meta: &MethodMetadata,
    latency: u128,
    now: u128,
    res: (DroppedCallObservation, bool),
)
    requires
        call_ensures(ApiMetrics::observe_dropped_call_at, (metrics, meta, latency, now), res),
    ensures
        tell_call(res.0.labels, *meta),
        res.0.latency == latency,
        changes_dropped_call_filter_only(*old(metrics), *final(metrics)),
        answers_event(
            old(metrics).dropped_call_filter,
            res.1,
            final(metrics).dropped_call_filter,
            now,
        ),
{
}

/// Whatever time is measured, a dropped call is reported by the rules for it.
pub proof fn law_dropped_calls_are_reported_now(
    metrics: &mut ApiMetrics,
    meta: &MethodMetadata,
    clock: &Clock,
    res: (DroppedCallObservation, bool),
)
    requires
        call_ensures(ApiMetrics::observe_dropped_call, (metrics, meta, clock), res),
    ensures
        tell_call(res.0.labels, *meta),
        changes_dropped_call_filter_only(*old(metrics), *final(metrics)),
        exists|now: u128| #[trigger]
            answers_event(
                old(metrics).dropped_call_filter,
                res.1,
                final(metrics).dropped_call_filter,
                now,
            ),
{
    let before = old(metrics).dropped_call_filter;
    let after = final(metrics).dropped_call_filter;
    let now = choose|now: u128| #[trigger]
        before.is_due(now) == res.1 && after == before.after_event(now);
    assert(answers_event(before, res.1, after, now));
}

/// The size of a response is recorded under its method. The response is reported if it has 10 MiB or
/// more, and no other large response has been reported within the interval.
pub proof fn law_large_responses_are_reported(
    metrics: &mut ApiMetrics,
    method: &'static str,
    size: usize,
    now: u128,
    res: (ResponseSizeObservation, bool),
)
    requires
        call_ensures(ApiMetrics::observe_response_size_at, (metrics, method, size, now), res),
    ensures
        res.0.method == method,
        res.0.size == size,
        changes_response_size_filter_only(*old(metrics), *final(metrics)),
        size >= 10_485_760 ==> answers_event(
            old(metrics).response_size_filter,
            res.1,
            final(metrics).response_size_filter,
            now,
        ),
        size < 10_485_760 ==> !res.1 && final(metrics).response_size_filter == old(
            metrics,
        ).response_size_filter,
{
}

/// Whatever time is measured, a response is reported by the rules for it.
pub proof fn law_large_responses_are_reported_now(
    metrics: &mut ApiMetrics,
    method: &'static str,
    size: usize,
    clock: &Clock,
    res: (ResponseSizeObservation, bool),
)
    requires
        call_ensures(ApiMetrics::observe_response_size, (metrics, method, size, clock), res),
    ensures
        res.0.method == method,
        res.0.size == size,
        changes_response_size_filter_only(*old(metrics), *final(metrics)),
        size >= 10_485_760 ==> exists|now: u128| #[trigger]
            answers_event(
                old(metrics).response_size_filter,
                res.1,
                final(metrics).response_size_filter,
                now,
            ),
        size < 10_485_760 ==> !res.1 && final(metrics).response_size_filter == old(
            metrics,
        ).response_size_filter,
{
    let before = old(metrics).response_size_filter;
    let after = final(metrics).response_size_filter;
    if size >= 10_485_760 {
        let now = choose|now: u128| #[trigger]
            before.is_due(now) == res.1 && after == before.after_event(now);
        assert(answers_event(before, res.1, after, now));
    }
}

/// A protocol error is counted under its method and code, and under the application as its origin if
/// and only if there is an application error.
pub proof fn law_protocol_errors_are_told_apart(
    metrics: &ApiMetrics,
    method: &'static str,
    error_code: i32,
    has_app_error: bool,
    labels: ProtocolErrorLabels,
)
    requires
        call_ensures(
            ApiMetrics::observe_protocol_error,
            (metrics, method, error_code, has_app_error),
            labels,
        ),
    ensures
        labels.method == method,
        labels.error_code == error_code,
        labels.origin is App <==> has_app_error,
        labels.origin is Framework <==> !has_app_error,
{
}

/// The first protocol error with its labels is reported and does not delay other reports. Any other is
/// reported unless one has been reported within the interval. A report has the labels of the error.
pub proof fn law_protocol_errors_are_reported(
    metrics: &mut ApiMetrics,
    labels: ProtocolErrorLabels,
    previous_count: u64,
    now: u128,
    report: Option<ProtocolErrorLabels>,
)
    requires
        call_ensures(
            ApiMetrics::count_protocol_error_at,
            (metrics, labels, previous_count, now),
            report,
        ),
    ensures
        report matches Some(reported) ==> reported == labels,
        changes_protocol_error_filter_only(*old(metrics), *final(metrics)),
        previous_count == 0 ==> report is Some && final(metrics).protocol_error_filter == old(
            metrics,
        ).protocol_error_filter,
        previous_count > 0 ==> answers_event(
            old(metrics).protocol_error_filter,
            report is Some,
            final(metrics).protocol_error_filter,
            now,
        ),
{
}

/// Whatever count and time come back, a protocol error is reported by the rules for them.
pub proof fn law_protocol_errors_are_reported_now(
    metrics: &mut ApiMetrics,
    labels: ProtocolErrorLabels,
    counter: &Counter,
    clock: &Clock,
    res: (u64, Option<ProtocolErrorLabels>),
)
    requires
        call_ensures(ApiMetrics::count_protocol_error, (metrics, labels, counter, clock), res),
    ensures
        res.1 matches Some(reported) ==> reported == labels,
        changes_protocol_error_filter_only(*old(metrics), *final(metrics)),
        res.0 == 0 ==> res.1 is Some && final(metrics).protocol_error_filter == old(
            metrics,
        ).protocol_error_filter,
        res.0 > 0 ==> exists|now: u128| #[trigger]
            answers_event(
                old(metrics).protocol_error_filter,
                res.1 is Some,
                final(metrics).protocol_error_filter,
                now,
            ),
{
    let before = old(metrics).protocol_error_filter;
    let after = final(metrics).protocol_error_filter;
    if res.0 > 0 {
        let now = choose|now: u128| #[trigger]
            before.is_due(now) == (res.1 is Some) && after == before.after_event(now);
        assert(answers_event(before, res.1 is Some, after, now));
    }
}

/// An application error is counted under its method and kind. Its text is logged if and only if it is
/// an internal error or an error on proxying a call; the former is more severe.
pub proof fn law_application_errors_are_told_apart(
    metrics: &ApiMetrics,
    method: &'static str,
    err: &Web3Error,
    kind: Web3ErrorKind,
    observation: Web3ErrorObservation,
)
    requires
        call_ensures(ApiMetrics::observe_web3_error, (metrics, method, err), observation),
        call_ensures(Web3ErrorKind::new, (err,), kind),
    ensures
        observation.labels.method == method,
        observation.labels.kind == kind,
        observation.details is Some <==> *err is InternalError || *err is ProxyError,
        *err matches Web3Error::InternalError(text) ==> {
            &&& observation.details->0.severity is Error
            &&& observation.details->0.text == text
        },
        *err matches Web3Error::ProxyError(text) ==> {
            &&& observation.details->0.severity is Warning
            &&& observation.details->0.text == text
        },
{
}

/// An application error is reported, with its labels, if and only if it is the first one with them.
pub proof fn law_first_application_error_is_reported(
    metrics: &ApiMetrics,
    labels: Web3ErrorLabels,
    previous_count: u64,
    report: Option<Web3ErrorLabels>,
)
    requires
        call_ensures(
            ApiMetrics::count_web3_error_after,
            (metrics, labels, previous_count),
            report,
        ),
    ensures
        report is Some <==> previous_count == 0,
        report matches Some(reported) ==> reported == labels,
{
}

/// Whatever count comes back, an application error is reported if and only if it is the first one.
pub proof fn law_first_application_error_is_reported_now(
    metrics: &ApiMetrics,
    labels: Web3ErrorLabels,
    counter: &Counter,
    res: (u64, Option<Web3ErrorLabels>),
)
    requires
        call_ensures(ApiMetrics::count_web3_error, (metrics, labels, counter), res),
    ensures
        res.1 is Some <==> res.0 == 0,
        res.1 matches Some(reported) ==> reported == labels,
{
}

} // verus!
