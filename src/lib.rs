//! Resolution of game version metadata into verifiable download artifacts,
//! digest checking of fetched bytes, and the decisions of the installer.

pub mod asset_index;
pub mod checksum;
pub mod config;
pub mod digest;
pub mod install;
pub mod resource;
pub mod version;
pub mod version_manifest;
