//! Read-only lookups over a captured list of command-line tokens.
//!
//! `Args` holds the tokens; `model` says what each lookup computes; `laws`
//! holds what is proved of the lookups on every line; `text` compares tokens.

pub mod args;
pub mod laws;
pub mod model;
pub mod text;

pub use args::Args;
