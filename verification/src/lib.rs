//! The verified core of the Aria runtime: the engine's state machine, the trace
//! it writes and reads back, the streaming audit of long runs, and the rules by
//! which the command line and the Python extension turn their input into runs.
//!
//! Floating-point values cross this library as bit patterns ([`scalar::Real`]):
//! it compares them and carries them, and leaves arithmetic on them to the
//! backends that the engine is built from.
//!
//! The modules whose names end in `_laws` say what the operations of the others are for:
//! over all inputs, in terms of what goes in, of what the operators answer, and of what
//! comes out.

pub mod action;
pub mod audit;
pub mod audit_laws;
pub mod backend;
pub mod backend_laws;
pub mod cli;
pub mod cli_laws;
pub mod condition;
pub mod config;
pub mod emit;
pub mod emit_laws;
pub mod engine;
pub mod engine_laws;
pub mod error;
pub mod gates;
pub mod graph;
pub mod graph_laws;
pub mod growth;
pub mod growth_laws;
pub mod json;
pub mod policy;
pub mod python;
pub mod python_laws;
pub mod receipt;
pub mod receipt_laws;
pub mod run_laws;
pub mod runner;
pub mod scalar;
pub mod scalar_laws;
pub mod sim;
pub mod state;
pub mod text;
pub mod text_laws;
pub mod trace;
pub mod trace_laws;
pub mod verify;
