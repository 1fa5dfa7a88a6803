//! Pins the version ranges of a workspace manifest's dependency table to the
//! exact versions that a lockfile records.
pub mod locked;
pub mod pin;
pub mod plan;
pub mod toml_doc;
