//! Verified decision logic of the CCM reproduction harness: command-line
//! grammar, request validation, capture applicability policies, benchmark
//! comparability, and the monotone alignment of discovered roots with
//! reference zeros.

pub mod alignment;
pub mod benchmark;
pub mod capture;
pub mod cli;
pub mod commands;
pub mod discovery;
pub mod journal;
pub mod lexical;
pub mod paths;
pub mod research;
pub mod text;
