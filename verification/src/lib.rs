//! Query layer for a management data source that exposes records as
//! dynamically-typed property bags behind a native, reference-counted,
//! forward-only result cursor.
//!
//! The native service is modeled as in-process state ([`WMIConnection`])
//! that counts every acquire and release of a native reference, so the
//! central obligation of this layer — every native handle is released
//! exactly once, on every exit path — is stated in the contracts and
//! machine-checked rather than audited.

pub mod connection;
pub mod datetime;
pub mod error;
pub mod query;
pub mod variant;

pub use connection::{NativeRecord, Property, WMIConnection};
pub use datetime::WMIDateTime;
pub use error::WMIError;
pub use query::{ManagedRecord, PullOutcome, QueryResultEnumerator};
pub use variant::{decode_text_property, TaggedValue, VariantBuf};
