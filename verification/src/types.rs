//! Message and error types of the storage write protocol.
//!
//! Each request/response struct holds plain values; a transport layer
//! serializes them onto the wire.  The error enums separate call-level
//! failures ([`Status`]) from per-stream commit failures ([`CommitError`]),
//! which are reported inside a successful commit response.

use vstd::prelude::*;

verus! {

/// Visibility policy of a write stream, fixed at creation.
#[derive(Clone, Copy, Debug, PartialEq, Eq, Structural)]
pub enum StreamType {
    /// Rows are visible immediately on acknowledgement; the stream is never
    /// finalized and never takes part in a batch commit.
    Default,
    /// Rows are buffered server-side and become visible only after the
    /// stream is finalized and then committed.
    Pending,
    /// Rows are visible immediately on acknowledgement; the stream may be
    /// finalized to close it cleanly but is not batch-committed.
    Committed,
}

/// Call-level failure of a single protocol operation.
#[derive(Clone, Copy, Debug, PartialEq, Eq, Structural)]
pub enum Status {
    /// The named stream does not exist on the service.
    StreamNotFound,
    /// An append was submitted to a stream that was already finalized.
    AppendAfterFinalize,
    /// Finalize was called on a stream that was already finalized.
    AlreadyFinalized,
    /// Finalize was called on a stream whose type does not support it.
    FinalizeNotSupported,
    /// The service could not assign a fresh stream name.
    NameCollision,
}

/// Why one stream of a batch commit was not committed.  Reported per stream,
/// index-aligned with the request's stream names; failures on one stream do
/// not suppress the outcome of the others.
#[derive(Clone, Copy, Debug, PartialEq, Eq, Structural)]
pub enum CommitError {
    /// The named stream does not exist on the service.
    StreamNotFound,
    /// The named stream is not a pending stream, so there is nothing
    /// buffered to commit.
    NotPending,
    /// The named stream was not finalized before the commit.
    NotFinalized,
    /// The named stream was already committed by an earlier request.
    AlreadyCommitted,
}

/// A server-side write stream: its server-assigned name and fixed type.
#[derive(Clone, Debug)]
pub struct WriteStream {
    pub name: String,
    pub stream_type: StreamType,
}

/// Asks the service to open a new write stream against a parent table.
#[derive(Clone, Debug)]
pub struct CreateWriteStreamRequest {
    pub parent: String,
    pub stream_type: StreamType,
}

/// One append batch: an ordered sequence of serialized rows bound for a
/// named stream, stamped with the batch's position in the stream's
/// submission order.
#[derive(Clone, Debug)]
pub struct AppendRowsRequest {
    pub write_stream: String,
    pub offset: u64,
    pub rows: Vec<Vec<u8>>,
}

/// Acknowledgement of one append batch.  `row_errors` is index-aligned with
/// the batch's rows; a non-empty list does not fail the call.  `offset`
/// echoes the acknowledged batch's offset, which correlates acknowledgements
/// with submissions.
#[derive(Clone, Debug)]
pub struct AppendRowsResponse {
    pub row_errors: Vec<RowError>,
    pub offset: u64,
}

/// A per-row failure inside an otherwise successful append.
#[derive(Clone, Debug)]
pub struct RowError {
    /// Index of the failed row within its batch.
    pub index: u64,
    /// Service-supplied description of the failure.
    pub message: String,
}

/// Signals that no further rows will be appended to the named stream.
#[derive(Clone, Debug)]
pub struct FinalizeWriteStreamRequest {
    pub name: String,
}

/// Reports the total number of rows the stream holds after finalize.
#[derive(Clone, Copy, Debug, PartialEq, Eq, Structural)]
pub struct FinalizeWriteStreamResponse {
    pub row_count: u64,
}

/// Asks the service to commit the named pending streams of one parent table
/// atomically.
#[derive(Clone, Debug)]
pub struct BatchCommitWriteStreamsRequest {
    pub parent: String,
    pub write_streams: Vec<String>,
}

/// Outcome of a batch commit.  `stream_errors` is index-aligned with the
/// request's `write_streams`: entry `i` is `None` when stream `i` was
/// committed and `Some` with the reason when it was not.
#[derive(Clone, Debug)]
pub struct BatchCommitWriteStreamsResponse {
    pub stream_errors: Vec<Option<CommitError>>,
}

} // verus!
