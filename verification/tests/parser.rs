//! Parsing tagged LLM responses.

use data_harpoon::response::{Response, ResponseContent};
use data_harpoon::state::State;

fn parse_ok(text: &str) -> Response {
    match Response::parse(text) {
        Ok(r) => r,
        Err(e) => panic!("expected a parse, got error: {:?}", e),
    }
}

#[test]
fn thinking_then_run_query() {
    // a thinking span followed by one terminal tool
    let r = parse_ok("<thinking>plan</thinking>\n<run_query><query>SELECT 1</query></run_query>");
    assert_eq!(r.contents.len(), 1);
    match &r.contents[0] {
        ResponseContent::Thinking(t) => assert_eq!(t.text, "plan"),
        other => panic!("expected thinking, got {:?}", other),
    }
    match &r.next_state {
        State::RunQuery(st) => assert_eq!(st.query, "SELECT 1"),
        other => panic!("expected run-query state, got {:?}", other),
    }
}

#[test]
fn no_tool_is_an_error() {
    let e = Response::parse("no tool here").unwrap_err();
    match e {
        data_harpoon::agent_error::AgentError::NoToolIncludedResponseError(inner) => {
            assert_eq!(inner.response, "no tool here");
        }
        other => panic!("expected the no-tool error, got {:?}", other),
    }
}

#[test]
fn unknown_tag_becomes_raw() {
    let r = parse_ok("<foo>bar</foo><run_query><query>SELECT 2</query></run_query>");
    assert_eq!(r.contents.len(), 1);
    match &r.contents[0] {
        ResponseContent::Raw(t) => assert_eq!(t.text, "<foo>bar</foo>"),
        other => panic!("expected raw, got {:?}", other),
    }
    match &r.next_state {
        State::RunQuery(st) => assert_eq!(st.query, "SELECT 2"),
        other => panic!("expected run-query state, got {:?}", other),
    }
}

#[test]
fn attempt_completion_parses() {
    let r = parse_ok("<attempt_completion><query>SELECT 'hi' AS g</query></attempt_completion>");
    assert_eq!(r.contents.len(), 0);
    match &r.next_state {
        State::AttemptCompletion(st) => assert_eq!(st.query, "SELECT 'hi' AS g"),
        other => panic!("expected attempt-completion state, got {:?}", other),
    }
}

#[test]
fn prose_before_tool_is_kept() {
    let r = parse_ok("some prose\n<run_query><query>SELECT 3</query></run_query>");
    assert_eq!(r.contents.len(), 1);
    match &r.contents[0] {
        ResponseContent::Raw(t) => assert_eq!(t.text, "some prose"),
        other => panic!("expected raw, got {:?}", other),
    }
}

#[test]
fn unclosed_tag_is_no_tool() {
    let e = Response::parse("<run_query><query>SELECT 1</query>").unwrap_err();
    assert!(matches!(
        e,
        data_harpoon::agent_error::AgentError::NoToolIncludedResponseError(_)
    ));
}

#[test]
fn run_query_without_query_tag_is_raw() {
    // the tool span closes, but carries no <query> payload
    let e = Response::parse("<run_query>missing</run_query>").unwrap_err();
    assert!(matches!(
        e,
        data_harpoon::agent_error::AgentError::NoToolIncludedResponseError(_)
    ));
}

#[test]
fn items_after_the_terminal_are_dropped() {
    let r = parse_ok(
        "<thinking>a</thinking><run_query><query>Q1</query></run_query><thinking>b</thinking>",
    );
    assert_eq!(r.contents.len(), 1);
    match &r.next_state {
        State::RunQuery(st) => assert_eq!(st.query, "Q1"),
        other => panic!("expected run-query state, got {:?}", other),
    }
}

#[test]
fn query_payload_is_byte_accurate() {
    let r = parse_ok("<run_query><query>SELECT ' a ;\nb '</query></run_query>");
    match &r.next_state {
        State::RunQuery(st) => assert_eq!(st.query, "SELECT ' a ;\nb '"),
        other => panic!("expected run-query state, got {:?}", other),
    }
}

#[test]
fn empty_input_is_no_tool() {
    assert!(Response::parse("").is_err());
}

#[test]
fn raw_text_keeps_the_response() {
    let r = parse_ok("  <thinking>x</thinking>  <run_query><query>Q</query></run_query>");
    assert_eq!(r.raw, "  <thinking>x</thinking>  <run_query><query>Q</query></run_query>");
}

#[test]
fn tool_try_new_extracts_first_query() {
    let t = data_harpoon::response::RunQueryTool::try_new("<query>A</query><query>B</query>")
        .unwrap();
    assert_eq!(t.query, "A");
    assert!(data_harpoon::response::RunQueryTool::try_new("no query").is_none());
    let a = data_harpoon::response::AttemptCompletionTool::try_new("<query>C</query>").unwrap();
    assert_eq!(a.query, "C");
}
