//! The outbound MCP server facade's result shaping.
//!
//! The facade exposes one tool, `run_query`: the SQL runs outside; the
//! rule here turns its outcome into the structured tool result the
//! external client sees — a success carrying the JSON text, or an
//! error result (not a transport failure) carrying the cause.

use vstd::prelude::*;

verus! {

use vstd::string::StringExecFns;

/// The structured result of the `run_query` tool.
#[derive(Debug, Clone)]
pub struct ToolOutcome {
    /// True for an error result; the transport stays healthy either
    /// way.
    pub is_error: bool,
    /// The JSON text on success, the rendered cause on error.
    pub text: String,
}

/// Shapes the outcome of running the query: engine errors become error
/// results prefixed with the invalid-query notice, never a crashed
/// transport.
pub fn run_query_outcome(result: Result<String, String>) -> (r: ToolOutcome)
    ensures
        (result matches Ok(json) ==> !r.is_error && r.text == json),
        (result matches Err(cause) ==> r.is_error && r.text@ == "invalid query. "@ + cause@),
{
    match result {
        Ok(json) => ToolOutcome { is_error: false, text: json },
        Err(cause) => ToolOutcome {
            is_error: true,
            text: String::from_str("invalid query. ").concat(cause.as_str()),
        },
    }
}

} // verus!
