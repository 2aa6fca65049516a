//! Salsaa: sumcheck-aided lattice-based succinct arguments.
//!
//! This crate holds the parameter and layout logic of the protocol: the
//! run-time settings, the command-line grammar, the recursive round
//! configuration, the prefix addressing of the extended witness, the AIR and
//! delay-function witness layouts, the order in which sumcheck claims are
//! batched, and the proof-size accounting.

pub mod arith;
pub mod config;
pub mod round_config;
pub mod prefix;
pub mod text;
pub mod cli;
pub mod air;
pub mod df;
pub mod project;
pub mod proof_size;
pub mod batching;
pub mod config_generator;
