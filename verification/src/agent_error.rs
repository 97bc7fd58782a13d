//! Errors surfaced by the agent and its collaborators.
//!
//! Faults of outside collaborators (the LLM provider, the SQL engine)
//! are carried as their rendered messages; the agent's own faults keep
//! structured payloads.

use vstd::prelude::*;

verus! {

use vstd::string::StringExecFns;

/// Everything that can go wrong while the agent drives one objective.
#[derive(Debug, Clone)]
pub enum AgentError {
    /// The LLM provider failed; holds the provider's message.
    PromptError(String),
    /// The LLM answered without naming a tool to run.
    NoToolIncludedResponseError(NoToolIncludedResponseError),
    /// The SQL engine failed; holds the engine's message.
    QueryError(String),
    /// A step needed user input and none was given.
    NoInputError(NoInputError),
    /// Anything else, wrapped as its message.
    UnexpectedError(String),
}

impl AgentError {
    pub fn new_no_input_error(message: &str) -> (e: AgentError)
        ensures
            e matches AgentError::NoInputError(inner) && inner.message@ == message@,
    {
        AgentError::NoInputError(NoInputError { message: message.to_owned() })
    }

    pub fn new_no_tool_included_error(response: String) -> (e: AgentError)
        ensures
            e matches AgentError::NoToolIncludedResponseError(inner) && inner.response@
                == response@,
    {
        AgentError::NoToolIncludedResponseError(NoToolIncludedResponseError { response })
    }

    pub fn new_unexpected_error(err: String) -> (e: AgentError)
        ensures
            e matches AgentError::UnexpectedError(m) && m@ == err@,
    {
        AgentError::UnexpectedError(err)
    }

    /// The rendered message of the error, cause included.
    pub fn message(&self) -> (r: String)
        ensures
            match self {
                AgentError::PromptError(m) => r@ == m@,
                AgentError::NoToolIncludedResponseError(inner) => r@ == inner.spec_message(),
                AgentError::QueryError(m) => r@ == m@,
                AgentError::NoInputError(inner) => r@ == inner.spec_message(),
                AgentError::UnexpectedError(m) => r@ == m@,
            },
    {
        match self {
            AgentError::PromptError(m) => m.clone(),
            AgentError::NoToolIncludedResponseError(inner) => inner.message(),
            AgentError::QueryError(m) => m.clone(),
            AgentError::NoInputError(inner) => inner.message(),
            AgentError::UnexpectedError(m) => m.clone(),
        }
    }
}

/// A step that needs user input was driven without one.
#[derive(Debug, Clone)]
pub struct NoInputError {
    pub message: String,
}

impl NoInputError {
    pub open spec fn spec_message(&self) -> Seq<char> {
        "No input provided. "@ + self.message@
    }

    pub fn message(&self) -> (r: String)
        ensures
            r@ == self.spec_message(),
    {
        String::from_str("No input provided. ").concat(self.message.as_str())
    }
}

/// The LLM response carried no `run_query` or `attempt_completion` tool.
#[derive(Debug, Clone)]
pub struct NoToolIncludedResponseError {
    pub response: String,
}

impl NoToolIncludedResponseError {
    pub open spec fn spec_message(&self) -> Seq<char> {
        "NoToolIncluded in response. response: "@ + self.response@
    }

    pub fn message(&self) -> (r: String)
        ensures
            r@ == self.spec_message(),
    {
        String::from_str("NoToolIncluded in response. response: ").concat(self.response.as_str())
    }
}

} // verus!
