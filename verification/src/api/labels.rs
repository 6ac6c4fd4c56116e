//! Labels of metrics.

use std::time::Instant;

use vstd::prelude::*;
use vstd::std_specs::convert::FromSpecImpl;

use crate::decimal::{append_decimal, decimal};
use crate::types::H256;

verus! {

/// Transport of the API server.
#[derive(Debug, Clone, Copy, PartialEq, Eq)]
pub enum ApiTransport {
    /// HTTP server.
    Http,
    /// WebSocket server.
    WebSocket,
}

/// Label for the transport of the API server.
#[derive(Debug, Clone, Copy, PartialEq, Eq, Hash)]
pub enum ApiTransportLabel {
    Http,
    Ws,
}

impl From<&ApiTransport> for ApiTransportLabel {
    fn from(transport: &ApiTransport) -> (res: Self) {
        match transport {
            ApiTransport::Http => ApiTransportLabel::Http,
            ApiTransport::WebSocket => ApiTransportLabel::Ws,
        }
    }
}

/// Label for a transport.
pub open spec fn transport_label(transport: ApiTransport) -> ApiTransportLabel {
    match transport {
        ApiTransport::Http => ApiTransportLabel::Http,
        ApiTransport::WebSocket => ApiTransportLabel::Ws,
    }
}

impl FromSpecImpl<&ApiTransport> for ApiTransportLabel {
    open spec fn obeys_from_spec() -> bool {
        true
    }

    open spec fn from_spec(transport: &ApiTransport) -> Self {
        transport_label(*transport)
    }
}

/// Number of a block as requests refer to it.
#[derive(Debug, Clone, Copy, PartialEq, Eq)]
pub enum BlockNumber {
    /// Last block committed on L1.
    Committed,
    /// Last block finalized on L1.
    Finalized,
    /// Last sealed block.
    Latest,
    /// Earliest block.
    Earliest,
    /// Block that is not sealed yet.
    Pending,
    /// Block with the specified number.
    Number(u64),
}

/// Block as requests refer to it.
#[derive(Debug, Clone, Copy, PartialEq, Eq)]
pub enum BlockId {
    /// By the hash of the block.
    Hash(H256),
    /// By the number of the block.
    Number(BlockNumber),
}

/// What is known of a call to an RPC method.
#[derive(Debug, Clone, Copy)]
pub struct MethodMetadata {
    /// Name of the method.
    pub name: &'static str,
    /// When the call started.
    pub started_at: Instant,
    /// Block that the call is about.
    pub block_id: Option<BlockId>,
    /// Difference between the latest sealed block and the block that the call is about.
    pub block_diff: Option<u32>,
}

/// Label for the way in which a call refers to a block.
#[derive(Debug, Clone, Copy, PartialEq, Eq, Hash)]
pub enum BlockIdLabel {
    Hash,
    Committed,
    Finalized,
    Latest,
    Earliest,
    Pending,
    Number,
}

impl From<BlockId> for BlockIdLabel {
    fn from(block_id: BlockId) -> (res: Self) {
        match block_id {
            BlockId::Hash(_) => BlockIdLabel::Hash,
            BlockId::Number(BlockNumber::Number(_)) => BlockIdLabel::Number,
            BlockId::Number(BlockNumber::Committed) => BlockIdLabel::Committed,
            BlockId::Number(BlockNumber::Finalized) => BlockIdLabel::Finalized,
            BlockId::Number(BlockNumber::Latest) => BlockIdLabel::Latest,
            BlockId::Number(BlockNumber::Earliest) => BlockIdLabel::Earliest,
            BlockId::Number(BlockNumber::Pending) => BlockIdLabel::Pending,
        }
    }
}

/// Label for a reference to a block.
pub open spec fn block_id_label(block_id: BlockId) -> BlockIdLabel {
    match block_id {
        BlockId::Hash(_) => BlockIdLabel::Hash,
        BlockId::Number(BlockNumber::Number(_)) => BlockIdLabel::Number,
        BlockId::Number(BlockNumber::Committed) => BlockIdLabel::Committed,
        BlockId::Number(BlockNumber::Finalized) => BlockIdLabel::Finalized,
        BlockId::Number(BlockNumber::Latest) => BlockIdLabel::Latest,
        BlockId::Number(BlockNumber::Earliest) => BlockIdLabel::Earliest,
        BlockId::Number(BlockNumber::Pending) => BlockIdLabel::Pending,
    }
}

impl FromSpecImpl<BlockId> for BlockIdLabel {
    open spec fn obeys_from_spec() -> bool {
        true
    }

    open spec fn from_spec(block_id: BlockId) -> Self {
        block_id_label(block_id)
    }
}

/// Label for the difference between the latest block and the block of a call.
#[derive(Debug, Clone, Copy, PartialEq, Eq, Hash)]
pub enum BlockDiffLabel {
    /// The difference is equal to the value.
    Exact(u32),
    /// The difference is less than the value.
    Lt(u32),
    /// The difference is greater than or equal to the value.
    Geq(u32),
}

impl BlockDiffLabel {
    /// Whether the label is true of a difference.
    pub open spec fn holds_of(self, block_diff: u32) -> bool {
        match self {
            BlockDiffLabel::Exact(value) => block_diff == value,
            BlockDiffLabel::Lt(value) => block_diff < value,
            BlockDiffLabel::Geq(value) => block_diff >= value,
        }
    }

    /// Text of the label.
    pub open spec fn text(self) -> Seq<char> {
        match self {
            BlockDiffLabel::Exact(value) => decimal(value as nat),
            BlockDiffLabel::Lt(value) => "<"@ + decimal(value as nat),
            BlockDiffLabel::Geq(value) => ">="@ + decimal(value as nat),
        }
    }

    /// Returns the text of the label.
    pub fn to_text(&self) -> (res: String)
        ensures
            res@ == self.text(),
    {
        let mut text = String::new();
        match self {
            BlockDiffLabel::Exact(value) => {
                append_decimal(&mut text, *value as u64);
            },
            BlockDiffLabel::Lt(value) => {
                text.append("<");
                append_decimal(&mut text, *value as u64);
            },
            BlockDiffLabel::Geq(value) => {
                text.append(">=");
                append_decimal(&mut text, *value as u64);
            },
        }
        assert(text@ =~= self.text());
        text
    }
}

impl From<u32> for BlockDiffLabel {
    fn from(block_diff: u32) -> (res: Self) {
        match block_diff {
            0..=2 => BlockDiffLabel::Exact(block_diff),
            3..=9 => BlockDiffLabel::Lt(10),
            10..=99 => BlockDiffLabel::Lt(100),
            100..=999 => BlockDiffLabel::Lt(1_000),
            _ => BlockDiffLabel::Geq(1_000),
        }
    }
}

/// Label for a difference between blocks. Small differences are exact; larger ones are rounded up to the
/// next power of 10.
pub open spec fn block_diff_label(block_diff: u32) -> BlockDiffLabel {
    if block_diff < 3 {
        BlockDiffLabel::Exact(block_diff)
    } else if block_diff < 10 {
        BlockDiffLabel::Lt(10)
    } else if block_diff < 100 {
        BlockDiffLabel::Lt(100)
    } else if block_diff < 1_000 {
        BlockDiffLabel::Lt(1_000)
    } else {
        BlockDiffLabel::Geq(1_000)
    }
}

impl FromSpecImpl<u32> for BlockDiffLabel {
    open spec fn obeys_from_spec() -> bool {
        true
    }

    open spec fn from_spec(block_diff: u32) -> Self {
        block_diff_label(block_diff)
    }
}

/// Labels of a call to an RPC method.
#[derive(Debug, Clone, Copy, PartialEq, Eq, Hash)]
pub struct MethodLabels {
    pub method: &'static str,
    pub block_id: Option<BlockIdLabel>,
    pub block_diff: Option<BlockDiffLabel>,
}

impl From<&MethodMetadata> for MethodLabels {
    fn from(meta: &MethodMetadata) -> (res: Self) {
        let block_id = match meta.block_id {
            Some(block_id) => Some(BlockIdLabel::from(block_id)),
            None => None,
        };
        let block_diff = match meta.block_diff {
            Some(block_diff) => Some(BlockDiffLabel::from(block_diff)),
            None => None,
        };
        MethodLabels { method: meta.name, block_id, block_diff }
    }
}

/// Labels of a call with the specified metadata.
pub open spec fn method_labels(meta: MethodMetadata) -> MethodLabels {
    MethodLabels {
        method: meta.name,
        block_id: match meta.block_id {
            Some(block_id) => Some(block_id_label(block_id)),
            None => None,
        },
        block_diff: match meta.block_diff {
            Some(block_diff) => Some(block_diff_label(block_diff)),
            None => None,
        },
    }
}

impl FromSpecImpl<&MethodMetadata> for MethodLabels {
    open spec fn obeys_from_spec() -> bool {
        true
    }

    open spec fn from_spec(meta: &MethodMetadata) -> Self {
        method_labels(*meta)
    }
}

/// The label for a difference is true of it.
pub proof fn law_block_diff_label_holds(block_diff: u32)
    ensures
        block_diff_label(block_diff).holds_of(block_diff),
{
}

/// A label stands for a range of differences: whatever lies between two differences with the same
/// label has this label, too.
pub proof fn law_block_diff_labels_are_ranges(smaller: u32, greater: u32)
    requires
        smaller <= greater,
        block_diff_label(smaller) == block_diff_label(greater),
    ensures
        forall|between: u32|
            smaller <= between <= greater ==> #[trigger] block_diff_label(between)
                == block_diff_label(smaller),
{
}

/// An application error of an RPC method.
#[derive(Debug, Clone, PartialEq, Eq)]
pub enum Web3Error {
    /// The block does not exist.
    NoBlock,
    /// The block has been pruned.
    PrunedBlock,
    /// The L1 batch has been pruned.
    PrunedL1Batch,
    /// A transaction was not accepted.
    SubmitTransactionError,
    /// A transaction could not be deserialized.
    SerializationError,
    /// The call could not be proxied to the main node, for the specified reason.
    ProxyError(String),
    /// There are too many topics in a filter.
    TooManyTopics,
    /// The filter does not exist.
    FilterNotFound,
    /// The query returns too many logs.
    LogsLimitExceeded,
    /// The block hash of a filter comes with a range of blocks.
    InvalidFilterBlockHash,
    /// The tree API is not available.
    TreeApiUnavailable,
    /// Internal error, with the specified details.
    InternalError(String),
    /// The method is not implemented.
    NotImplemented,
}

/// Label for the kind of an application error.
#[derive(Debug, Clone, Copy, PartialEq, Eq, Hash)]
pub enum Web3ErrorKind {
    NoBlock,
    Pruned,
    SubmitTransaction,
    TransactionSerialization,
    Proxy,
    TooManyTopics,
    FilterNotFound,
    LogsLimitExceeded,
    InvalidFilterBlockHash,
    TreeApiUnavailable,
    Internal,
}

/// Kind of an application error.
pub open spec fn web3_error_kind(err: Web3Error) -> Web3ErrorKind {
    match err {
        Web3Error::NoBlock => Web3ErrorKind::NoBlock,
        Web3Error::PrunedBlock | Web3Error::PrunedL1Batch => Web3ErrorKind::Pruned,
        Web3Error::SubmitTransactionError => Web3ErrorKind::SubmitTransaction,
        Web3Error::ProxyError(_) => Web3ErrorKind::Proxy,
        Web3Error::SerializationError => Web3ErrorKind::TransactionSerialization,
        Web3Error::TooManyTopics => Web3ErrorKind::TooManyTopics,
        Web3Error::FilterNotFound => Web3ErrorKind::FilterNotFound,
        Web3Error::LogsLimitExceeded => Web3ErrorKind::LogsLimitExceeded,
        Web3Error::InvalidFilterBlockHash => Web3ErrorKind::InvalidFilterBlockHash,
        Web3Error::TreeApiUnavailable => Web3ErrorKind::TreeApiUnavailable,
        Web3Error::InternalError(_) | Web3Error::NotImplemented => Web3ErrorKind::Internal,
    }
}

impl Web3ErrorKind {
    /// Returns the kind of an application error.
    pub fn new(err: &Web3Error) -> (res: Self)
        ensures
            res == web3_error_kind(*err),
    {
        match err {
            Web3Error::NoBlock => Web3ErrorKind::NoBlock,
            Web3Error::PrunedBlock | Web3Error::PrunedL1Batch => Web3ErrorKind::Pruned,
            Web3Error::SubmitTransactionError => Web3ErrorKind::SubmitTransaction,
            Web3Error::ProxyError(_) => Web3ErrorKind::Proxy,
            Web3Error::SerializationError => Web3ErrorKind::TransactionSerialization,
            Web3Error::TooManyTopics => Web3ErrorKind::TooManyTopics,
            Web3Error::FilterNotFound => Web3ErrorKind::FilterNotFound,
            Web3Error::LogsLimitExceeded => Web3ErrorKind::LogsLimitExceeded,
            Web3Error::InvalidFilterBlockHash => Web3ErrorKind::InvalidFilterBlockHash,
            Web3Error::TreeApiUnavailable => Web3ErrorKind::TreeApiUnavailable,
            Web3Error::InternalError(_) | Web3Error::NotImplemented => Web3ErrorKind::Internal,
        }
    }
}

/// Labels of an application error.
#[derive(Debug, Clone, Copy, PartialEq, Eq, Hash)]
pub struct Web3ErrorLabels {
    pub method: &'static str,
    pub kind: Web3ErrorKind,
}

/// Label for the origin of a protocol error.
#[derive(Debug, Clone, Copy, PartialEq, Eq, Hash)]
pub enum ProtocolErrorOrigin {
    /// The error comes from the application.
    App,
    /// The error comes from the RPC framework.
    Framework,
}

/// Labels of a protocol error.
#[derive(Debug, Clone, Copy, PartialEq, Eq, Hash)]
pub struct ProtocolErrorLabels {
    pub method: &'static str,
    pub error_code: i32,
    pub origin: ProtocolErrorOrigin,
}

/// A filter installed by a client.
#[derive(Debug, Clone, Copy, PartialEq, Eq)]
pub enum TypedFilter {
    /// Filter for events.
    Events,
    /// Filter for new blocks.
    Blocks,
    /// Filter for new pending transactions.
    PendingTransactions,
}

/// Label for the type of a filter.
#[derive(Debug, Clone, Copy, PartialEq, Eq, Hash)]
pub enum FilterType {
    Events,
    Blocks,
    PendingTransactions,
}

/// Type of a filter.
pub open spec fn filter_type(filter: TypedFilter) -> FilterType {
    match filter {
        TypedFilter::Events => FilterType::Events,
        TypedFilter::Blocks => FilterType::Blocks,
        TypedFilter::PendingTransactions => FilterType::PendingTransactions,
    }
}

impl From<&TypedFilter> for FilterType {
    fn from(value: &TypedFilter) -> (res: Self) {
        match value {
            TypedFilter::Events => FilterType::Events,
            TypedFilter::Blocks => FilterType::Blocks,
            TypedFilter::PendingTransactions => FilterType::PendingTransactions,
        }
    }
}

impl FromSpecImpl<&TypedFilter> for FilterType {
    open spec fn obeys_from_spec() -> bool {
        true
    }

    open spec fn from_spec(value: &TypedFilter) -> Self {
        filter_type(*value)
    }
}

} // verus!
