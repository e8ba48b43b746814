//! A unified storage-access layer: callers perform create/read/write/stat/
//! delete/list/presign/multipart operations against heterogeneous storage
//! backends through a single `Operator` facade, without backend-specific
//! code at call sites.
//!
//! The crate is organised around a small set of contracts:
//! - [`ops`] names every operation and the capability set a backend declares;
//!   an operation outside the declared set fails fast, before any I/O;
//! - [`accessor`] is the primitive polymorphic interface every backend and
//!   layer implements, modelled by the store it fronts and the log of
//!   operations that reached it;
//! - layers such as [`metrics`] wrap an accessor with cross-cutting behavior
//!   while preserving its contract exactly;
//! - [`kv`] promotes a minimal get/set/delete/scan store into a full
//!   hierarchical accessor — [`memory`] plugs in a failure-free in-memory
//!   store, [`sled_store`] the embedded on-disk engine;
//! - [`pager`] and [`walker`] provide paginated listing and the two ordered
//!   recursive traversals, on which recursive delete is built;
//! - [`webhdfs`] computes the requests and decisions of the HDFS REST
//!   backend, leaving the transport to a collaborator.

pub mod ops;
pub mod error;
pub mod path;
pub mod meta;
pub mod range;
pub mod reader;
pub mod pager;
pub mod accessor;
pub mod kv;
pub mod memory;
pub mod metrics;
pub mod errcontext;
pub mod walker;
pub mod operator;
pub mod sled_store;
pub mod webhdfs;

pub use accessor::{Accessor, Builder, Layer};
pub use errcontext::{ErrorContextAccessor, ErrorContextLayer};
pub use error::{Error, ErrorKind};
pub use kv::{KvAdapter, KvBackend};
pub use memory::MemAdapter;
pub use meta::{AccessorMetadata, ObjectEntry, ObjectMetadata, ObjectMode, Scheme};
pub use metrics::{MetricReader, MetricsAccessor, MetricsHandler, MetricsLayer};
pub use operator::{
    BatchOperator, Object, ObjectLister, Operator, OperatorBuilder, OperatorMetadata,
};
pub use ops::{Capability, CapabilitySet, Operation};
pub use pager::{DirPager, Page};
pub use range::BytesRange;
pub use reader::{Cursor, OutputRead};
pub use sled_store::{SledAdapter, SledBuilder};
pub use webhdfs::{WebhdfsBackend, WebhdfsBuilder};
