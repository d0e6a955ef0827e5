//! Worker-side engine dispatch and process supervision for a distributed
//! fuzzing framework: configuration, address parsing, engine selection,
//! runtime statistics, and the worker lifecycle state machine.
pub mod text;
pub mod parse;
pub mod config;
pub mod schedule;
pub mod engine;
pub mod supervisor;
