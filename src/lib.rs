//! Handle registry, ownership protocol, snapshot iterators and the mapping
//! of failures to host exceptions, for a host runtime that holds
//! natively-owned values by opaque integer handles.

pub mod error;
pub mod hashing;
pub mod instance;
pub mod iter;
pub mod kind;
pub mod query;
pub mod registry;
mod shared;
pub mod sync_iter;
