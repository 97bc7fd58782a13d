//! Configuration templating, input splitting, prompts and outcomes.

use data_harpoon::cli::{
    dispatch, parse_ask_command, split_to_sqls, Cli, Commands, DispatchTarget, InputErr,
    ReplValidator, ServeArgs, ServeCommands, ValidationVerdict,
};
use data_harpoon::config::{default_max_prompt_count, substitute_vars, template_var_names, Config};
use data_harpoon::prompt::build_system_prompt;
use data_harpoon::repo::{tools_from_columns, McpTool};
use data_harpoon::agent_error::AgentError;
use data_harpoon::server::run_query_outcome;

#[test]
fn variables_are_substituted() {
    let vars = vec![
        ("HOME_DIR".to_string(), "/home/u".to_string()),
        ("TOKEN".to_string(), "SECRET-REDACTED".to_string()),
    ];
    let out = substitute_vars("path=${HOME_DIR}/x token=${TOKEN}", &vars);
    assert_eq!(out, "path=/home/u/x token=SECRET-REDACTED");
}

#[test]
fn missing_variable_becomes_empty() {
    let out = substitute_vars("a=${NOT_SET}b", &vec![]);
    assert_eq!(out, "a=b");
}

#[test]
fn malformed_templates_stay_as_written() {
    let vars = vec![("X".to_string(), "v".to_string())];
    assert_eq!(substitute_vars("${X", &vars), "${X");
    assert_eq!(substitute_vars("${}", &vars), "${}");
    assert_eq!(substitute_vars("$X", &vars), "$X");
    assert_eq!(substitute_vars("${X}!", &vars), "v!");
}

#[test]
fn template_names_come_in_order() {
    let names = template_var_names("${B} and ${A} and ${B}");
    assert_eq!(names, vec!["B".to_string(), "A".to_string(), "B".to_string()]);
}

#[test]
fn default_configuration() {
    let c = Config::default();
    assert_eq!(c.max_prompt_count, 10);
    assert_eq!(default_max_prompt_count(), 10);
    assert!(c.mcp_servers.is_empty());
    assert!(!c.dev.use_mock);
}

#[test]
fn statements_split_at_unquoted_semicolons() {
    let sqls = split_to_sqls("SELECT 1; SELECT 2;".to_string()).unwrap();
    assert_eq!(sqls, vec!["SELECT 1;".to_string(), "SELECT 2;".to_string()]);
}

#[test]
fn quoted_semicolons_do_not_split() {
    let sqls = split_to_sqls("SELECT 'a;b'; SELECT \";\";".to_string()).unwrap();
    assert_eq!(
        sqls,
        vec!["SELECT 'a;b';".to_string(), "SELECT \";\";".to_string()]
    );
}

#[test]
fn trailing_text_forms_a_last_statement() {
    let sqls = split_to_sqls("SELECT 1".to_string()).unwrap();
    assert_eq!(sqls, vec!["SELECT 1;".to_string()]);
}

#[test]
fn open_quote_is_incomplete() {
    assert_eq!(
        split_to_sqls("SELECT 'oops".to_string()),
        Err(InputErr::InComplete)
    );
}

#[test]
fn blank_input_splits_to_nothing() {
    assert_eq!(split_to_sqls("  ;  ".to_string()).unwrap().len(), 0);
}

#[test]
fn ask_command_extracts_the_question() {
    assert_eq!(
        parse_ask_command("/ask what time is it"),
        Some("what time is it".to_string())
    );
    assert_eq!(parse_ask_command("/ask    spaced"), Some("spaced".to_string()));
    assert_eq!(parse_ask_command("/ask"), None);
    assert_eq!(parse_ask_command("/ask   "), None);
    assert_eq!(parse_ask_command("/other q"), None);
}

#[test]
fn validator_judges_lines() {
    let v = ReplValidator {};
    assert_eq!(v.validate("/ask x"), ValidationVerdict::Complete);
    assert_eq!(v.validate("SELECT 1;"), ValidationVerdict::Complete);
    assert_eq!(v.validate("SELECT 1"), ValidationVerdict::Incomplete);
    assert_eq!(v.validate("SELECT 'a;"), ValidationVerdict::Incomplete);
}

#[test]
fn cli_dispatches_to_repl_by_default() {
    let cli = Cli { command: None, config: "data_harpoon.toml".to_string() };
    assert_eq!(dispatch(&cli), DispatchTarget::Repl);
    let cli = Cli { command: Some(Commands::Repl), config: String::new() };
    assert_eq!(dispatch(&cli), DispatchTarget::Repl);
    let cli = Cli {
        command: Some(Commands::Serve(ServeArgs { command: ServeCommands::Mcp })),
        config: String::new(),
    };
    assert_eq!(dispatch(&cli), DispatchTarget::ServeMcp);
}

#[test]
fn prompt_lists_tools_and_wraps_long_descriptions() {
    let tools = vec![
        McpTool {
            server_name: "time".to_string(),
            tool_name: "now".to_string(),
            description: "the current time".to_string(),
        },
        McpTool {
            server_name: "time".to_string(),
            tool_name: "convert".to_string(),
            description: "line one\nline two".to_string(),
        },
    ];
    let out = build_system_prompt("HEAD\n{AVAILABLE_MCP_TOOL_PROMPT}\nTAIL", &tools);
    let expected = "HEAD\n- Server name: time\nTool name: now\nDescription: the current time\n- Server name: time\nTool name: convert\nDescription: <desc>line one\nline two</desc>\nTAIL";
    assert_eq!(out, expected);
}

#[test]
fn prompt_without_tools_clears_the_marker() {
    let out = build_system_prompt("A{AVAILABLE_MCP_TOOL_PROMPT}B", &vec![]);
    assert_eq!(out, "AB");
}

#[test]
fn repo_rows_assemble_from_columns() {
    let tools = tools_from_columns(
        vec![Some("s1".to_string()), None],
        vec![Some("t1".to_string()), Some("t2".to_string())],
        vec![None, Some("d2".to_string())],
    );
    assert_eq!(tools.len(), 2);
    assert_eq!(tools[0].server_name, "s1");
    assert_eq!(tools[0].description, "");
    assert_eq!(tools[1].server_name, "");
    assert_eq!(tools[1].tool_name, "t2");
    assert_eq!(tools[1].description, "d2");
}

#[test]
fn query_outcomes_wrap_errors() {
    let ok = run_query_outcome(Ok("[{\"a\":1}]".to_string()));
    assert!(!ok.is_error);
    assert_eq!(ok.text, "[{\"a\":1}]");
    let err = run_query_outcome(Err("no such table".to_string()));
    assert!(err.is_error);
    assert_eq!(err.text, "invalid query. no such table");
}

#[test]
fn error_messages_render() {
    let e = AgentError::new_no_input_error("no question provided");
    assert_eq!(e.message(), "No input provided. no question provided");
    let e = AgentError::new_no_tool_included_error("resp".to_string());
    assert_eq!(e.message(), "NoToolIncluded in response. response: resp");
    let e = AgentError::new_unexpected_error("boom".to_string());
    assert_eq!(e.message(), "boom");
}
