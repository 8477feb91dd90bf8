//! A tag query compiler: classifies raw string keys into encrypted or
//! plaintext tag names, and compiles the resulting boolean query tree into a
//! target clause representation through a caller-supplied encoder, handling
//! negation by De Morgan pushdown so encoders never see a `NOT`.

pub mod compile;
pub mod error;
pub mod ops;
pub mod query;
pub mod serialize;
