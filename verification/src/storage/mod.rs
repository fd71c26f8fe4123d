//! Storage: data-root paths, the mount table, and the health of the
//! persistent partitions.
pub mod health;
pub mod mounts;
pub mod paths;
pub mod probe;
