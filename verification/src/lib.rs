//! Management of isolated Windows-compatibility bottles and the runners
//! that bootstrap and launch processes inside them.
//!
//! The library models bottles, persists a catalog of them as a JSON
//! document, and describes each runner variant's discovery rules,
//! availability predicate, and process invocations.  All filesystem and
//! subprocess work is expressed over plain values: a thin host layer
//! gathers the facts (does a file exist, what did the version probe
//! print) and performs the invocations this library computes.

pub mod bottle;
pub mod error;
pub mod gptk;
pub mod json;
pub mod persistence;
pub mod proton;
pub mod runner;
pub mod text;
pub mod umu;
pub mod wine;
