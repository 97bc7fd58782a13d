//! The agent state machine.
//!
//! One step of the agent is split in two: `plan` says what outside work
//! the current state needs (a chat with the LLM, a SQL run, or a
//! preview run), and `proceed` absorbs that work's result, moves to the
//! next state and reports what to display. The driver owns the LLM and
//! the SQL session; the machine here owns only the state, and an error
//! never changes it.

use crate::agent_error::AgentError;
use crate::agent_response::{display_matches, AgentResponse};
use crate::display_text::{AttemptCompletion, DisplayContent};
use crate::json::JsonValue;
use crate::response::{
    first_terminal, has_terminal, spec_items, state_matches, Piece, Response,
};
use crate::state::{ChatState, ChatWithHumanState, InitialState, State};
use vstd::prelude::*;

verus! {

use vstd::string::StringExecFns;

/// The outside work one step needs.
#[derive(Debug, Clone)]
pub enum AgentAction {
    /// Send this message to the LLM and hand back its reply.
    Chat { message: String },
    /// Run this SQL and hand back all rows as one JSON array text.
    RunSql { query: String },
    /// Run this SQL and hand back the first `preview_row_count()` rows
    /// for human review.
    PreviewSql { query: String },
}

/// The result of the outside work, handed back to `proceed`.
#[derive(Debug)]
pub enum AgentEvent {
    LlmReply(String),
    SqlJson(String),
    PreviewRows(Vec<JsonValue>),
}

/// `d` renders the parsed piece `p`.
pub open spec fn display_piece(d: DisplayContent, p: Piece) -> bool {
    match p {
        Piece::Raw(t) => d matches DisplayContent::Raw(x) && x.text@ == t,
        Piece::Thinking(t) => d matches DisplayContent::Thinking(x) && x.text@ == t,
        Piece::RunQuery(q) => d matches DisplayContent::RunQuery(x) && x.query@ == q,
        Piece::AttemptCompletion(q) => d matches DisplayContent::AttemptCompletion(x) && x.query@
            == q,
    }
}

/// States whose pending work is a chat with the LLM.
pub open spec fn awaits_llm(st: State) -> bool {
    st is Initial || st is Chat || st is ChatWithHuman
}

/// Which event settles which state's pending work.
pub open spec fn event_fits(st: State, ev: AgentEvent) -> bool {
    match ev {
        AgentEvent::LlmReply(_) => awaits_llm(st),
        AgentEvent::SqlJson(_) => st is RunQuery,
        AgentEvent::PreviewRows(_) => st is AttemptCompletion,
    }
}

/// Absorbing an LLM reply: the next state comes from the reply's first
/// terminal tool, everything before it is displayed, and the step
/// spends `chat_count` chats.
pub open spec fn llm_reply_applies(
    text: Seq<char>,
    new_state: State,
    resp: AgentResponse,
    chat_count: int,
) -> bool {
    let ps = spec_items(text);
    let k = first_terminal(ps);
    &&& has_terminal(ps)
    &&& state_matches(new_state, ps[k])
    &&& resp.display_contents@.len() == k
    &&& (forall|m: int| 0 <= m < k ==> display_piece(#[trigger] resp.display_contents@[m], ps[m]))
    &&& resp.chat_count == chat_count
    &&& resp.continues == true
}

/// How many rows of the final query are shown for human review.
pub fn preview_row_count() -> (r: usize)
    ensures
        r == 5,
{
    5
}

/// The agent: its state between steps.
pub struct Agent {
    pub current_state: State,
}

impl Agent {
    /// A fresh agent, waiting for the user's objective.
    pub fn new() -> (a: Agent)
        ensures
            a.current_state is Initial,
    {
        Agent { current_state: State::Initial(InitialState::new()) }
    }

    /// Says what outside work the current state needs. States entered
    /// from outside the loop (`Initial`, `ChatWithHuman`) need the
    /// user's input and fail without one.
    pub fn plan(&self, user_input: Option<&str>) -> (r: Result<AgentAction, AgentError>)
        ensures
            self.current_state matches State::Initial(_) ==> (match user_input {
                Some(q) => r matches Ok(AgentAction::Chat { message }) && message@
                    == "<objective>"@ + q@ + "</objective>"@,
                None => r matches Err(e) && e is NoInputError,
            }),
            self.current_state matches State::RunQuery(st) ==> (
            r matches Ok(AgentAction::RunSql { query }) && query == st.query),
            self.current_state matches State::Chat(st) ==> (
            r matches Ok(AgentAction::Chat { message }) && message == st.message),
            self.current_state matches State::ChatWithHuman(_) ==> (match user_input {
                Some(q) => r matches Ok(AgentAction::Chat { message }) && message@ == q@,
                None => r matches Err(e) && e is NoInputError,
            }),
            self.current_state matches State::AttemptCompletion(st) ==> (
            r matches Ok(AgentAction::PreviewSql { query }) && query == st.query),
    {
        match &self.current_state {
            State::Initial(_) => {
                match user_input {
                    None => Err(AgentError::new_no_input_error("no question provided")),
                    Some(q) => {
                        let message = String::from_str("<objective>").concat(q).concat(
                            "</objective>",
                        );
                        proof {
                            assert(message@ =~= "<objective>"@ + q@ + "</objective>"@);
                        }
                        Ok(AgentAction::Chat { message })
                    },
                }
            },
            State::RunQuery(st) => Ok(AgentAction::RunSql { query: st.query.clone() }),
            State::Chat(st) => Ok(AgentAction::Chat { message: st.message.clone() }),
            State::ChatWithHuman(_) => {
                match user_input {
                    None => Err(AgentError::new_no_input_error("no question provided")),
                    Some(q) => Ok(AgentAction::Chat { message: q.to_owned() }),
                }
            },
            State::AttemptCompletion(st) => Ok(AgentAction::PreviewSql { query: st.query.clone() }),
        }
    }

    /// Absorbs the outside work's result and moves to the next state.
    /// On any error the state is left as it was.
    #[verifier::rlimit(100)]
    #[verifier::spinoff_prover]
    pub fn proceed(&mut self, event: AgentEvent) -> (r: Result<AgentResponse, AgentError>)
        ensures
            awaits_llm(old(self).current_state) ==> (event matches AgentEvent::LlmReply(text)
                ==> {
                let ps = spec_items(text@);
                &&& (r is Ok <==> has_terminal(ps))
                &&& (r matches Ok(resp) ==> llm_reply_applies(
                    text@,
                    final(self).current_state,
                    resp,
                    if old(self).current_state is Initial {
                        0int
                    } else {
                        1int
                    },
                ))
                &&& (r matches Err(e) ==> e matches AgentError::NoToolIncludedResponseError(n)
                    && n.response@ == text@)
            }),
            old(self).current_state matches State::RunQuery(_) ==> (event matches
                AgentEvent::SqlJson(json) ==> r matches Ok(resp) && (final(self).current_state) matches State::Chat(c) && c.message@ == "Result: "@ + json@
                && resp.display_contents@.len() == 0 && resp.chat_count == 0 && resp.continues
                == true),
            old(self).current_state matches State::AttemptCompletion(st) ==> (event matches
                AgentEvent::PreviewRows(rows) ==> r matches Ok(resp) && (final(self).current_state) is ChatWithHuman && resp.continues == false && resp.chat_count == 0
                && resp.display_contents@.len() == 1 && (
            resp.display_contents@[0] matches DisplayContent::AttemptCompletion(ac) && ac.query
                == st.query && ac.preview_batch == rows)),
            !event_fits(old(self).current_state, event) ==> (r matches Err(e) && e
                is UnexpectedError),
            r is Err ==> final(self).current_state == old(self).current_state,
    {
        match event {
            AgentEvent::LlmReply(text) => {
                let chat_count: usize = match &self.current_state {
                    State::Initial(_) => 0,
                    State::Chat(_) => 1,
                    State::ChatWithHuman(_) => 1,
                    _ => {
                        return Err(
                            AgentError::UnexpectedError(
                                String::from_str("unexpected reply for the current state"),
                            ),
                        );
                    },
                };
                match Response::parse(text.as_str()) {
                    Ok(resp) => {
                        let Response { raw: _, next_state, contents } = resp;
                        let ghost contents_snap = contents@;
                        self.current_state = next_state;
                        let out = AgentResponse::new_for_chat(contents, chat_count);
                        proof {
                            let ps = spec_items(text@);
                            let k = first_terminal(ps);
                            assert forall|m: int| 0 <= m < k implies display_piece(
                                #[trigger] out.display_contents@[m],
                                ps[m],
                            ) by {
                                assert(display_matches(
                                    contents_snap[m],
                                    out.display_contents@[m],
                                ));
                                assert(contents_snap[m]@ == ps[m]);
                            }
                        }
                        Ok(out)
                    },
                    Err(e) => Err(e),
                }
            },
            AgentEvent::SqlJson(json) => {
                match &self.current_state {
                    State::RunQuery(_) => {
                        let message = String::from_str("Result: ").concat(json.as_str());
                        proof {
                            assert(message@ =~= "Result: "@ + json@);
                        }
                        self.current_state = State::Chat(ChatState::new(message));
                        Ok(AgentResponse::new_with_contents(Vec::new()))
                    },
                    _ => Err(
                        AgentError::UnexpectedError(
                            String::from_str("unexpected query result for the current state"),
                        ),
                    ),
                }
            },
            AgentEvent::PreviewRows(rows) => {
                match &self.current_state {
                    State::AttemptCompletion(st) => {
                        let content = DisplayContent::AttemptCompletion(
                            AttemptCompletion { query: st.query.clone(), preview_batch: rows },
                        );
                        self.current_state = State::ChatWithHuman(ChatWithHumanState::new());
                        Ok(AgentResponse::new_for_finisher(content))
                    },
                    _ => Err(
                        AgentError::UnexpectedError(
                            String::from_str("unexpected preview for the current state"),
                        ),
                    ),
                }
            },
        }
    }
}

} // verus!
