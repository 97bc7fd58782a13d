//! Errors of the SQL-facing engine components.

use vstd::prelude::*;

verus! {

/// An error raised while planning or executing one of the MCP SQL
/// functions or catalog tables.
#[derive(Debug, Clone, PartialEq, Eq)]
pub enum EngineError {
    /// Rejected at planning time: bad arguments, unknown server,
    /// unsupported types.
    Plan(String),
    /// Failed during execution: transport faults, malformed responses.
    Exec(String),
}

impl EngineError {
    /// The rendered message.
    pub fn message(&self) -> (r: String)
        ensures
            match self {
                EngineError::Plan(m) => r@ == m@,
                EngineError::Exec(m) => r@ == m@,
            },
    {
        match self {
            EngineError::Plan(m) => m.clone(),
            EngineError::Exec(m) => m.clone(),
        }
    }
}

} // verus!
