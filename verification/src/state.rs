//! Agent states.
//!
//! The agent moves through five states while turning a natural-language
//! objective into a reviewed SQL query: it starts in `Initial`, runs SQL in
//! `RunQuery`, feeds results back to the model in `Chat`, waits for a human
//! in `ChatWithHuman`, and proposes a final query in `AttemptCompletion`.

use vstd::prelude::*;

verus! {

/// The state the agent is in between two steps.
#[derive(Debug, Clone)]
pub enum State {
    Initial(InitialState),
    RunQuery(RunQueryState),
    Chat(ChatState),
    ChatWithHuman(ChatWithHumanState),
    AttemptCompletion(AttemptCompletionState),
}

/// Start state: nothing has been asked yet; the next step needs the
/// user's objective.
#[derive(Debug, Clone)]
pub struct InitialState {}

impl InitialState {
    pub fn new() -> (s: InitialState) {
        InitialState {}
    }
}

/// A SQL query the model asked to run; its result is sent back as a chat
/// message.
#[derive(Debug, Clone)]
pub struct RunQueryState {
    pub query: String,
}

impl RunQueryState {
    pub fn new(query: String) -> (s: RunQueryState)
        ensures
            s.query == query,
    {
        RunQueryState { query }
    }
}

/// A message waiting to be sent to the model.
#[derive(Debug, Clone)]
pub struct ChatState {
    pub message: String,
}

impl ChatState {
    pub fn new(message: String) -> (s: ChatState)
        ensures
            s.message == message,
    {
        ChatState { message }
    }
}

/// The agent has shown a final answer and waits for the human's reply.
#[derive(Debug, Clone)]
pub struct ChatWithHumanState {}

impl ChatWithHumanState {
    pub fn new() -> (s: ChatWithHumanState) {
        ChatWithHumanState {}
    }
}

/// The model proposed a final SQL query; a preview of its rows is shown
/// for human review.
#[derive(Debug, Clone)]
pub struct AttemptCompletionState {
    pub query: String,
}

impl AttemptCompletionState {
    pub fn new(query: String) -> (s: AttemptCompletionState)
        ensures
            s.query == query,
    {
        AttemptCompletionState { query }
    }
}

} // verus!
