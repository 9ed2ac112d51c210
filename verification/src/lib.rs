//! Read-query core of a full node's indexing and RPC layer.
//!
//! The crate turns listing and lookup requests into paginated views over
//! committed state. Every decision the query layer takes (how many rows to
//! fetch, where a page ends, which response an object read becomes, under
//! which id a dynamic field or a name record lies, how a failure is
//! classified) is a verified function over plain values; the storage engine
//! is reached only through the [`state::StateRead`] capability.
//!
//! The [`packages`] module stands apart from the queries: it checks that the
//! binaries of the workspace reach the execution layer through one crate
//! only.

pub mod api;
pub mod coin;
pub mod dynamic_field;
pub mod encoding;
pub mod enrich;
pub mod error;
pub mod name_service;
pub mod object;
pub mod packages;
pub mod page;
pub mod provider;
pub mod query;
pub mod record;
pub mod response;
pub mod state;
pub mod types;
