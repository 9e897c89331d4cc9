//! The command line: its arguments, and what the program reports.
pub mod analyze;
pub mod args;
pub mod flag_laws;
pub mod info;
pub mod output;
pub mod run;
