//! Semantic version automation for projects of any technology stack.
pub mod cli;
pub mod constants;
pub mod engine;
pub mod git;
pub mod json_api;
pub mod regex_api;
pub mod rollback;
pub mod semver_api;
pub mod std_api;
pub mod text;
pub mod toml_api;
pub mod updaters;
pub mod utils;
