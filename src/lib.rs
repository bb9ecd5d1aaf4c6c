//! Package client core: value types, digests, configuration, backend
//! routing and dependency resolution for a component package ecosystem.

pub mod label;
pub mod error;
pub mod package;
pub mod digest;
pub mod version;
pub mod release;
pub mod resolver;
pub mod text;
pub mod textmap;
pub mod registry;
pub mod metadata;
pub mod config;
pub mod backend;
pub mod oci;
pub mod cache;
pub mod lock;
pub mod resolution;
