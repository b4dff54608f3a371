//! Configuration record of a Lua / Luau source transformer: a typed,
//! defaultable manifest with validating accessors for its required paths,
//! and the mapping between a manifest and the fields of its file.

pub mod manifest;
pub mod target_version;
pub mod toggles;

pub use manifest::{ConfigError, Manifest, ManifestDocument};
pub use target_version::{parse_target_version, TargetVersion};
