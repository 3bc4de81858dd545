//! Tenon's tool logic: the decisions and text processing behind the agent's
//! tools, its directives, knowledge and hooks, each stated as a contract.
use vstd::prelude::*;

pub mod actions;
pub mod clients;
pub mod config;
pub mod directive;
pub mod error;
pub mod hooks;
pub mod knowledge;
pub mod mcp;
pub mod offsets;
pub mod paths;
pub mod pattern;
pub mod rag;
pub mod text;
pub mod tools;
pub mod ui;

verus! {

} // verus!
