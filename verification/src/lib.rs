//! Recognition of compiler calls among captured process executions, and
//! their conversion into entries of a compilation database.

pub mod arguments;
pub mod chain;
pub mod configuration;
pub mod configured;
pub mod execution;
pub mod filter;
pub mod generic;
pub mod paths;
pub mod pipeline;
pub mod semantic;
pub mod sequences;
pub mod source;
pub mod text;
pub mod tools;
