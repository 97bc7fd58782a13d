//! Driving the agent state machine and its loop budget.

use data_harpoon::agent::{Agent, AgentAction, AgentEvent};
use data_harpoon::agent_error::AgentError;
use data_harpoon::display_text::DisplayContent;
use data_harpoon::inference::InferenceBudget;
use data_harpoon::json::JsonValue;
use data_harpoon::mcp::{ListToolsSession, McpClient};
use data_harpoon::state::State;

#[test]
fn stubbed_completion_halts_after_one_step() {
    // objective in, one attempt_completion reply, preview out
    let mut agent = Agent::new();
    let action = agent.plan(Some("say hi")).unwrap();
    match action {
        AgentAction::Chat { message } => assert_eq!(message, "<objective>say hi</objective>"),
        other => panic!("expected a chat action, got {:?}", other),
    }
    let reply = "<attempt_completion><query>SELECT 'hi' AS g</query></attempt_completion>";
    let resp = agent.proceed(AgentEvent::LlmReply(reply.to_string())).unwrap();
    assert!(resp.continues);
    match &agent.current_state {
        State::AttemptCompletion(st) => assert_eq!(st.query, "SELECT 'hi' AS g"),
        other => panic!("expected attempt-completion, got {:?}", other),
    }
    let action = agent.plan(None).unwrap();
    match action {
        AgentAction::PreviewSql { query } => assert_eq!(query, "SELECT 'hi' AS g"),
        other => panic!("expected a preview action, got {:?}", other),
    }
    let row = JsonValue::Object(vec![("g".to_string(), JsonValue::Str("hi".to_string()))]);
    let resp = agent.proceed(AgentEvent::PreviewRows(vec![row])).unwrap();
    // the finisher halts the loop and carries the single preview row
    assert!(!resp.continues);
    assert_eq!(resp.display_contents.len(), 1);
    match &resp.display_contents[0] {
        DisplayContent::AttemptCompletion(ac) => {
            assert_eq!(ac.query, "SELECT 'hi' AS g");
            assert_eq!(ac.preview_batch.len(), 1);
            assert_eq!(
                ac.preview_batch[0],
                JsonValue::Object(vec![("g".to_string(), JsonValue::Str("hi".to_string()))])
            );
        }
        other => panic!("expected a completion display, got {:?}", other),
    }
    assert!(matches!(agent.current_state, State::ChatWithHuman(_)));
}

#[test]
fn preview_shows_five_rows() {
    assert_eq!(data_harpoon::agent::preview_row_count(), 5);
}

#[test]
fn initial_state_requires_input() {
    let agent = Agent::new();
    assert!(matches!(agent.plan(None), Err(AgentError::NoInputError(_))));
}

#[test]
fn run_query_feeds_result_back_as_chat() {
    let mut agent = Agent::new();
    agent.plan(Some("q")).unwrap();
    let reply = "<run_query><query>SELECT 1</query></run_query>";
    agent.proceed(AgentEvent::LlmReply(reply.to_string())).unwrap();
    match agent.plan(None).unwrap() {
        AgentAction::RunSql { query } => assert_eq!(query, "SELECT 1"),
        other => panic!("expected a run action, got {:?}", other),
    }
    let resp = agent
        .proceed(AgentEvent::SqlJson("[{\"a\":1}]".to_string()))
        .unwrap();
    assert!(resp.continues);
    assert_eq!(resp.chat_count, 0);
    match &agent.current_state {
        State::Chat(st) => assert_eq!(st.message, "Result: [{\"a\":1}]"),
        other => panic!("expected chat state, got {:?}", other),
    }
}

#[test]
fn bad_reply_leaves_the_state_alone() {
    let mut agent = Agent::new();
    agent.plan(Some("q")).unwrap();
    let err = agent
        .proceed(AgentEvent::LlmReply("no tool".to_string()))
        .unwrap_err();
    assert!(matches!(err, AgentError::NoToolIncludedResponseError(_)));
    assert!(matches!(agent.current_state, State::Initial(_)));
}

#[test]
fn mismatched_event_is_rejected_without_mutation() {
    let mut agent = Agent::new();
    let err = agent
        .proceed(AgentEvent::SqlJson("[]".to_string()))
        .unwrap_err();
    assert!(matches!(err, AgentError::UnexpectedError(_)));
    assert!(matches!(agent.current_state, State::Initial(_)));
}

#[test]
fn chat_counts_toward_the_budget() {
    let mut agent = Agent::new();
    agent.plan(Some("q")).unwrap();
    agent
        .proceed(AgentEvent::LlmReply(
            "<run_query><query>Q</query></run_query>".to_string(),
        ))
        .unwrap();
    agent.proceed(AgentEvent::SqlJson("[]".to_string())).unwrap();
    let resp = agent
        .proceed(AgentEvent::LlmReply(
            "<attempt_completion><query>F</query></attempt_completion>".to_string(),
        ))
        .unwrap();
    assert_eq!(resp.chat_count, 1);
}

#[test]
fn budget_halts_past_the_maximum() {
    // max_prompt_count 2: the third counted chat halts the loop
    let mut b = InferenceBudget::new(2, 0);
    assert!(!b.record_step(1, true));
    assert!(!b.record_step(1, true));
    assert!(b.record_step(1, true));
    assert_eq!(b.chat_total_count, 3);
}

#[test]
fn completion_halts_regardless_of_budget() {
    let mut b = InferenceBudget::new(10, 0);
    assert!(b.record_step(0, false));
}

#[test]
fn cooldown_fires_after_three_chats() {
    let mut b = InferenceBudget::new(10, 0);
    assert!(!b.should_sleep());
    b.record_step(1, true);
    b.record_step(1, true);
    b.record_step(1, true);
    // the rolling counter passed 2: sleep once and reset
    assert!(b.should_sleep());
    assert!(!b.should_sleep());
}

#[test]
fn chat_with_human_requires_input() {
    let mut agent = Agent::new();
    agent.plan(Some("q")).unwrap();
    agent
        .proceed(AgentEvent::LlmReply(
            "<attempt_completion><query>F</query></attempt_completion>".to_string(),
        ))
        .unwrap();
    agent.proceed(AgentEvent::PreviewRows(vec![])).unwrap();
    assert!(matches!(agent.plan(None), Err(AgentError::NoInputError(_))));
    match agent.plan(Some("looks right")).unwrap() {
        AgentAction::Chat { message } => assert_eq!(message, "looks right"),
        other => panic!("expected a chat action, got {:?}", other),
    }
}

#[test]
fn tool_listing_accumulates_pages_in_order() {
    let mut s = ListToolsSession::new();
    let t = |n: &str| data_harpoon::catalog::ToolInfo {
        name: n.to_string(),
        description: String::new(),
        input_schema: None,
    };
    let cursor = s.push_page(vec![t("a"), t("b")], Some("next".to_string()));
    assert_eq!(cursor, Some("next".to_string()));
    let cursor = s.push_page(vec![t("c")], None);
    assert_eq!(cursor, None);
    let tools = s.finish();
    assert_eq!(tools.len(), 3);
    assert_eq!(tools[0].name, "a");
    assert_eq!(tools[2].name, "c");
}

#[test]
fn client_holds_its_config() {
    let config = std::sync::Arc::new(data_harpoon::config::McpServerConfig::new(
        "s".to_string(),
        "cmd".to_string(),
        vec!["-v".to_string()],
        vec![("K".to_string(), "V".to_string())],
    ));
    let client = McpClient::new(config.clone());
    assert_eq!(client.config.name, "s");
    assert_eq!(client.config.args, vec!["-v".to_string()]);
}
