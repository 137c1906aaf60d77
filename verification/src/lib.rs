//! Client-side write streams against a tabular storage service.
//!
//! The library covers the stream-lifecycle state machine layered on top of a
//! bidirectional streaming transport: opening named write streams against a
//! target table, appending ordered batches of serialized rows with
//! order-correlated acknowledgements, finalizing streams, and committing
//! groups of pending streams atomically with per-stream error detail.
//!
//! The remote service itself is an external collaborator.  Its visibility
//! semantics (pending rows are buffered until commit; default and committed
//! rows are visible on acknowledgement) are captured by the verified
//! [`service::StorageService`] model, against which the lifecycle properties
//! are stated and proved.  The request-builder functions on the handles and
//! writers produce the exact messages a transport must carry, so an
//! unverified transport layer can drive the same state machines against the
//! real service.

pub mod committed;
pub mod conn_pool;
pub mod default_stream;
pub mod laws;
pub mod model;
pub mod pending;
pub mod service;
pub mod stream;
pub mod types;
