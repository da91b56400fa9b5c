//! Splices generated code fragments into functions that carry a
//! `"use prompt: ..."` directive, with hygienic import renaming and
//! module-level finalization.
//!
//! The modules, leaf first: `directive` scans a function's prologue,
//! `store` holds the generated fragments by site, `module` and `hygiene`
//! model and rename import declarations, `finalize` completes a module, and
//! `engine` decides what becomes of each function.

pub mod directive;
pub mod store;
pub mod module;
pub mod hygiene;
pub mod finalize;
pub mod engine;
