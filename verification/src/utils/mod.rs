//! Errors, file-name rules and input sanitization.
pub mod errors;
pub mod files;
pub mod security;
