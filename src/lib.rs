//! A key-value store service core: a uniquely keyed table, an admission
//! controller with two interchangeable policies, and the mapping of their
//! outcomes onto protocol-level replies.
mod admission;
mod error;
mod service;
mod store;

pub use admission::{AdmissionController, BucketModel, ConcurrencyLimit, TokenBucket, Verdict};
pub use error::{DBError, StoreError};
pub use service::{
    insert_outcome, retrieve_reply, row_outcome, store_reply, Code, Handled, MemService, RpcError,
};
pub use store::{MemStore, Record};
