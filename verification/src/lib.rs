//! A stress-testing engine for competitive programming: two solutions of one
//! problem are compiled, run on every generated test case under a time limit,
//! and their outputs are compared case by case.
//!
//! The crate decides and computes; it starts no process and touches no file.
//! A caller performs the commands that the plans here describe and hands the
//! outcome back as plain values.

pub mod comparator;
pub mod compiler;
pub mod executor;
pub mod fileio;
pub mod generator;
pub mod paths;
pub mod print_console;
pub mod report;
pub mod text;
pub mod worker;
