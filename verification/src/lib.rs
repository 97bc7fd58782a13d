//! DataHarpoon: a SQL-accessible data integration engine that exposes
//! MCP (Model-Context-Protocol) tool invocations as SQL table and scalar
//! functions, together with the LLM-driven inference loop that drives it.
//!
//! This crate holds the verified core: the response parser for tagged LLM
//! output, the agent state machine and its loop budget, the planning and
//! marshalling rules of the `call_mcp` / `exec_mcp` SQL functions, the
//! virtual catalog's predicate pushdown, JSON row normalization and schema
//! inference, and the configuration model. Process management, terminal
//! I/O and the SQL engine bindings live outside the verified surface.

pub mod agent;
pub mod agent_error;
pub mod agent_response;
pub mod catalog;
pub mod cli;
pub mod config;
pub mod display_text;
pub mod engine_error;
pub mod inference;
pub mod json;
pub mod mcp;
pub mod prompt;
pub mod repo;
pub mod response;
pub mod schema;
pub mod server;
pub mod state;
pub mod text;
pub mod udf;
