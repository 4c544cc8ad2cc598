//! An engine that runs an external, parameterized program and keeps track
//! of what came of it.
//!
//! A run is one invocation of a project's program with a frozen set of
//! parameters; a sweep is a series of runs that differ in one parameter.
//! The engine turns an untyped parameter map into a validated invocation
//! ([`command`]), plans and records runs ([`run`], [`store`]), coordinates
//! sweeps ([`sweep`], [`sweep_store`]), keeps every path below its root
//! ([`path`]) and reads results back ([`result`]).
//!
//! The engine decides and records; it performs no input or output. What is
//! read from disk or from a process is handed to it as plain values.

pub mod catalog;
pub mod command;
pub mod documents;
pub mod error;
pub mod files;
pub mod fixtures;
pub mod json;
pub mod order;
pub mod outside;
pub mod path;
pub mod project;
pub mod result;
pub mod roots;
pub mod run;
pub mod store;
pub mod sweep;
pub mod sweep_store;
pub mod text;
