//! Extension system of a desktop game library: manifest validation, the
//! registry of installed extensions, their lifecycle, the set of store
//! sources and the checks applied to everything fetched from a store.

pub mod text;
pub mod paths;
pub mod error;
pub mod manifest;
pub mod registry;
pub mod runtime;
pub mod manager;
pub mod store;
pub mod checksum;
pub mod client;
pub mod install;
pub mod sample;
pub mod models;
pub mod greeting;
