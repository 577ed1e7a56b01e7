//! A verified core for a browser-hosted front end to a smart-contract
//! compiler: the compile adapter that normalizes every outcome into one
//! JSON result shape, and the interaction controller that drives the UI
//! state from user actions.

pub mod adapter;
pub mod b64;
pub mod compiler;
pub mod controller;
pub mod json;
pub mod response;
pub mod text;
pub mod witness_data;

pub use adapter::{compile_simplicity, compile_with_witness, parse_program, CompileResult};
