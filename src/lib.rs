//! Drift resolution for container images: which tag is the latest
//! matching version, whether a running container is behind it, and the
//! tables that deduplicate that work across containers.
pub mod drift;
pub mod observe;
pub mod records;
pub mod reference;
pub mod settings;
pub mod store;
pub mod tags;
pub mod update;
pub mod version;
