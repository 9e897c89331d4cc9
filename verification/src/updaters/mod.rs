//! Reading and rewriting the version of a project, one module per technology.
pub mod cargo;
pub mod composer;
pub mod factory;
pub mod generic;
pub mod go;
pub mod gradle;
pub mod maven;
pub mod npm;
pub mod pyproject;
pub mod python;
pub mod traits;
