//! The virtual catalog: pushdown and rows.

use data_harpoon::catalog::{
    selected_configs, server_name_filters, server_rows, supports_filters_pushdown, tools_to_rows,
    FilterExpr, PushDown, ToolInfo,
};
use data_harpoon::config::McpServerConfig;
use data_harpoon::mcp::ServerMap;

fn server(name: &str) -> McpServerConfig {
    McpServerConfig::new(name.to_string(), format!("{}-cmd", name), vec![], vec![])
}

#[test]
fn server_name_equality_pushes_down() {
    let filters = vec![
        FilterExpr::ColumnEqLiteral {
            column: "server_name".to_string(),
            literal: "time".to_string(),
        },
        FilterExpr::ColumnEqLiteral {
            column: "tool_name".to_string(),
            literal: "now".to_string(),
        },
        FilterExpr::Unsupported,
    ];
    let named = server_name_filters(&filters);
    assert_eq!(named, vec![Some("time".to_string()), None, None]);
    let support = supports_filters_pushdown(&filters);
    assert_eq!(
        support,
        vec![PushDown::Exact, PushDown::Unsupported, PushDown::Unsupported]
    );
}

#[test]
fn filtered_scan_contacts_only_named_servers() {
    // config with servers {time, other}: only `time` is contacted
    let configs = vec![server("time"), server("other")];
    let selected = selected_configs(configs, &Some(vec!["time".to_string()]));
    assert_eq!(selected.len(), 1);
    assert_eq!(selected[0].name, "time");
}

#[test]
fn unfiltered_scan_contacts_all_servers() {
    let configs = vec![server("a"), server("b"), server("c")];
    let selected = selected_configs(configs, &None);
    assert_eq!(selected.len(), 3);
    assert_eq!(selected[0].name, "a");
    assert_eq!(selected[2].name, "c");
}

#[test]
fn several_filters_select_their_union() {
    let configs = vec![server("a"), server("b"), server("c")];
    let selected = selected_configs(configs, &Some(vec!["c".to_string(), "a".to_string()]));
    // map order is kept, not filter order
    assert_eq!(selected.len(), 2);
    assert_eq!(selected[0].name, "a");
    assert_eq!(selected[1].name, "c");
}

#[test]
fn tool_listing_becomes_rows() {
    let tools = vec![
        ToolInfo {
            name: "now".to_string(),
            description: "current time".to_string(),
            input_schema: Some("{}".to_string()),
        },
        ToolInfo {
            name: "convert".to_string(),
            description: "convert time".to_string(),
            input_schema: None,
        },
    ];
    let rows = tools_to_rows(&"time".to_string(), tools);
    assert_eq!(rows.len(), 2);
    assert_eq!(rows[0].server_name, "time");
    assert_eq!(rows[0].tool_name, "now");
    assert_eq!(rows[0].input_schema, Some("{}".to_string()));
    assert_eq!(rows[1].server_name, "time");
    assert_eq!(rows[1].tool_name, "convert");
    assert_eq!(rows[1].input_schema, None);
}

#[test]
fn server_table_has_one_row_per_server() {
    let configs = vec![server("x"), server("y")];
    let rows = server_rows(&configs);
    assert_eq!(rows.len(), 2);
    assert_eq!(rows[0].server_name, "x");
    assert_eq!(rows[0].command, "x-cmd");
    assert_eq!(rows[1].server_name, "y");
}

#[test]
fn server_map_resolves_by_name() {
    let map = ServerMap::from_configs(vec![server("a"), server("b")]);
    assert_eq!(map.get("a").unwrap().command, "a-cmd");
    assert!(map.get("missing").is_none());
    assert!(map.resolve("b").is_ok());
    assert!(map.resolve("missing").is_err());
}

#[test]
fn server_map_keeps_the_later_duplicate() {
    let mut first = server("a");
    first.command = "old".to_string();
    let mut second = server("a");
    second.command = "new".to_string();
    let map = ServerMap::from_configs(vec![first, second, server("b")]);
    assert_eq!(map.servers.len(), 2);
    assert_eq!(map.get("a").unwrap().command, "new");
}
