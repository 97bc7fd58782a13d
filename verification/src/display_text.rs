//! What the user is shown after each agent step.

use crate::json::JsonValue;
use vstd::prelude::*;

verus! {

/// One renderable unit of an agent step's output.
#[derive(Debug)]
pub enum DisplayContent {
    Raw(Raw),
    Thinking(Thinking),
    RunQuery(RunQuery),
    AttemptCompletion(AttemptCompletion),
}

/// Free-form prose from the model.
#[derive(Debug, Clone)]
pub struct Raw {
    pub text: String,
}

/// The model's reasoning, shown dimmed.
#[derive(Debug, Clone)]
pub struct Thinking {
    pub text: String,
}

/// A SQL query the model is about to run.
#[derive(Debug, Clone)]
pub struct RunQuery {
    pub query: String,
}

/// The final suggested SQL together with a preview of its first rows,
/// one JSON record per row.
#[derive(Debug)]
pub struct AttemptCompletion {
    pub query: String,
    pub preview_batch: Vec<JsonValue>,
}

} // verus!
