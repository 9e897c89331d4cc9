//! Version arithmetic, technology detection and configuration.
pub mod config;
pub mod detector;
pub mod project_files;
pub mod semver;
