//! Concurrency-bounded process execution engine.
//!
//! The library models the core of a small code-execution service: an
//! admission gate that bounds how many subprocesses may run at once, the
//! decision logic of a process runner with a wall-clock deadline, the wire
//! encoding of execution results, a parser for textual coverage reports,
//! and an artifact store that hands out uniquely numbered temporary file
//! paths. All I/O (spawning, files, transport) lives outside the library;
//! the functions here take plain values and return plain values, with
//! contracts that pin down every result.

pub mod artifact;
pub mod codec;
pub mod coverage;
pub mod gate;
pub mod numbers;
pub mod outcome;
pub mod request;
pub mod runner;
