//! Commit history analysis and the texts used for git operations.
pub mod history;
pub mod operations;
