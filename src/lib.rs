//! Ingestion of finalized-consensus notifications into a transactional store.
//!
//! The library rebuilds, for every leaf of a decide notification, the certificate
//! that justifies it, turns each leaf into the records a query service stores
//! (leaf, dispersal metadata, block payload) and writes them through a storage
//! capability. An in-memory versioned store shows the transaction contract that
//! such a capability is expected to meet.

pub mod types;
pub mod query_data;
pub mod reconstruct;
pub mod genesis;
pub mod decide;
pub mod versioned;

pub use types::{Anomaly, Decide, Event, Header, Leaf, LeafInfo, Qc, VidDisperse, VidError, VidShare};
pub use query_data::{
    BlockQueryData, InconsistentLeaf, LeafQueryData, StorageError, UpdateAvailabilityData,
    VidCommonQueryData, Write,
};
pub use reconstruct::chronological_certificates;
pub use genesis::{genesis_payload, store_genesis_vid};
pub use decide::{needs_genesis_dispersal, UpdateDataSource, UpdateError};
pub use versioned::{CommittedWrites, MemStore, ReadTransaction, RecordKind, Transaction, VersionedDataSource, WriteTransaction};
