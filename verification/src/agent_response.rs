//! What one agent step hands back to its driver.

use crate::display_text::{AttemptCompletion, DisplayContent, Raw, RunQuery, Thinking};
use crate::response::ResponseContent;
use vstd::prelude::*;

verus! {

/// `d` renders `c`: same variant, same text; a terminal tool renders
/// with an empty preview.
pub open spec fn display_matches(c: ResponseContent, d: DisplayContent) -> bool {
    match c {
        ResponseContent::Raw(t) => d matches DisplayContent::Raw(x) && x.text == t.text,
        ResponseContent::Thinking(t) => d matches DisplayContent::Thinking(x) && x.text == t.text,
        ResponseContent::RunQuery(t) => d matches DisplayContent::RunQuery(x) && x.query
            == t.query,
        ResponseContent::AttemptCompletion(t) => d matches DisplayContent::AttemptCompletion(x)
            && x.query == t.query && x.preview_batch@ == Seq::<crate::json::JsonValue>::empty(),
    }
}

/// The outcome of one agent step: what to show, how many chats it
/// spent, and whether the loop goes on.
#[derive(Debug)]
pub struct AgentResponse {
    pub display_contents: Vec<DisplayContent>,
    pub chat_count: usize,
    pub continues: bool,
}

impl Default for AgentResponse {
    fn default() -> (r: AgentResponse)
        ensures
            r.display_contents@ == Seq::<DisplayContent>::empty(),
            r.chat_count == 0,
            r.continues == true,
    {
        AgentResponse { display_contents: Vec::new(), chat_count: 0, continues: true }
    }
}

impl AgentResponse {
    /// A step that only shows content; it spends no chat and the loop
    /// goes on.
    pub fn new_with_contents(response_contents: Vec<ResponseContent>) -> (r: AgentResponse)
        ensures
            r.display_contents@.len() == response_contents@.len(),
            forall|i: int|
                0 <= i < response_contents@.len() ==> display_matches(
                    response_contents@[i],
                    #[trigger] r.display_contents@[i],
                ),
            r.chat_count == 0,
            r.continues == true,
    {
        AgentResponse {
            display_contents: Self::display_contents(response_contents),
            chat_count: 0,
            continues: true,
        }
    }

    /// A step that talked to the LLM; it spends `chat_count` chats.
    pub fn new_for_chat(response_contents: Vec<ResponseContent>, chat_count: usize) -> (r:
        AgentResponse)
        ensures
            r.display_contents@.len() == response_contents@.len(),
            forall|i: int|
                0 <= i < response_contents@.len() ==> display_matches(
                    response_contents@[i],
                    #[trigger] r.display_contents@[i],
                ),
            r.chat_count == chat_count,
            r.continues == true,
    {
        AgentResponse {
            display_contents: Self::display_contents(response_contents),
            chat_count,
            continues: true,
        }
    }

    /// The finishing step: one content item, and the loop halts.
    pub fn new_for_finisher(content: DisplayContent) -> (r: AgentResponse)
        ensures
            r.display_contents@ =~= seq![content],
            r.chat_count == 0,
            r.continues == false,
    {
        AgentResponse { display_contents: vec![content], chat_count: 0, continues: false }
    }

    /// Renders parsed contents for display, in order.
    fn display_contents(response_contents: Vec<ResponseContent>) -> (r: Vec<DisplayContent>)
        ensures
            r@.len() == response_contents@.len(),
            forall|i: int|
                0 <= i < response_contents@.len() ==> display_matches(
                    response_contents@[i],
                    #[trigger] r@[i],
                ),
    {
        let ghost orig = response_contents@;
        let mut rest = response_contents;
        let mut r: Vec<DisplayContent> = Vec::new();
        while rest.len() > 0
            invariant
                r@.len() + rest@.len() == orig.len(),
                rest@ == orig.subrange(r@.len() as int, orig.len() as int),
                forall|i: int|
                    0 <= i < r@.len() ==> display_matches(orig[i], #[trigger] r@[i]),
            decreases rest@.len(),
        {
            let c = rest.remove(0);
            proof {
                assert(c == orig[r@.len() as int]);
                assert(rest@ =~= orig.subrange(r@.len() as int + 1, orig.len() as int));
            }
            let d = match c {
                ResponseContent::Raw(t) => DisplayContent::Raw(Raw { text: t.text }),
                ResponseContent::Thinking(t) => DisplayContent::Thinking(
                    Thinking { text: t.text },
                ),
                ResponseContent::RunQuery(t) => DisplayContent::RunQuery(
                    RunQuery { query: t.query },
                ),
                ResponseContent::AttemptCompletion(t) => DisplayContent::AttemptCompletion(
                    AttemptCompletion { query: t.query, preview_batch: Vec::new() },
                ),
            };
            r.push(d);
        }
        r
    }
}

} // verus!
