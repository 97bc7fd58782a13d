//! Planning and marshalling of the MCP SQL functions.

use data_harpoon::engine_error::EngineError;
use data_harpoon::json::JsonValue;
use data_harpoon::udf::{
    check_arg_types, extract_mcp_arguments, extract_mcp_tool_arguments, marshal_exec_args,
    struct_columns_to_json_objects, ArgExpr, CellValue, ColumnData, ColumnType,
};

fn named_struct(args: Vec<ArgExpr>) -> ArgExpr {
    ArgExpr::ScalarFunction { name: "named_struct".to_string(), args }
}

#[test]
fn call_mcp_accepts_the_four_scalar_types() {
    let e = named_struct(vec![
        ArgExpr::Utf8Literal("s".to_string()),
        ArgExpr::Utf8Literal("v".to_string()),
        ArgExpr::Utf8Literal("i".to_string()),
        ArgExpr::Int64Literal(7),
        ArgExpr::Utf8Literal("f".to_string()),
        ArgExpr::Float64Literal("1.5".to_string()),
        ArgExpr::Utf8Literal("b".to_string()),
        ArgExpr::BooleanLiteral(true),
    ]);
    let obj = extract_mcp_tool_arguments(Some(e)).unwrap().unwrap();
    assert_eq!(obj.len(), 4);
    assert_eq!(obj[0], ("s".to_string(), JsonValue::Str("v".to_string())));
    assert_eq!(obj[1], ("i".to_string(), JsonValue::Int(7)));
    assert_eq!(obj[2], ("f".to_string(), JsonValue::NumText("1.5".to_string())));
    assert_eq!(obj[3], ("b".to_string(), JsonValue::Bool(true)));
}

#[test]
fn call_mcp_rejects_unsupported_value_types() {
    // a nested function call is not a supported scalar
    let e = named_struct(vec![
        ArgExpr::Utf8Literal("k".to_string()),
        ArgExpr::ScalarFunction { name: "array".to_string(), args: vec![] },
    ]);
    let r = extract_mcp_tool_arguments(Some(e));
    assert!(matches!(r, Err(EngineError::Plan(_))));

    // an arbitrary expression is rejected too
    let e2 = named_struct(vec![
        ArgExpr::Utf8Literal("k".to_string()),
        ArgExpr::Other("CAST(...)".to_string()),
    ]);
    assert!(matches!(extract_mcp_tool_arguments(Some(e2)), Err(EngineError::Plan(_))));

    // a non-string key is rejected
    let e3 = named_struct(vec![ArgExpr::Int64Literal(1), ArgExpr::Int64Literal(2)]);
    assert!(matches!(extract_mcp_tool_arguments(Some(e3)), Err(EngineError::Plan(_))));
}

#[test]
fn call_mcp_third_argument_must_be_named_struct() {
    let r = extract_mcp_tool_arguments(Some(ArgExpr::Utf8Literal("x".to_string())));
    assert!(matches!(r, Err(EngineError::Plan(_))));
    let r2 = extract_mcp_tool_arguments(Some(ArgExpr::ScalarFunction {
        name: "other_fn".to_string(),
        args: vec![],
    }));
    assert!(matches!(r2, Err(EngineError::Plan(_))));
    assert_eq!(extract_mcp_tool_arguments(None).unwrap(), None);
}

#[test]
fn call_mcp_extracts_server_and_tool() {
    let args = vec![
        ArgExpr::Utf8Literal("echo".to_string()),
        ArgExpr::Utf8Literal("identity".to_string()),
        named_struct(vec![
            ArgExpr::Utf8Literal("x".to_string()),
            ArgExpr::Int64Literal(1),
            ArgExpr::Utf8Literal("y".to_string()),
            ArgExpr::Utf8Literal("a".to_string()),
        ]),
    ];
    let (server, tool, obj) = extract_mcp_arguments(args).unwrap();
    assert_eq!(server, "echo");
    assert_eq!(tool, "identity");
    let obj = obj.unwrap();
    assert_eq!(obj[0], ("x".to_string(), JsonValue::Int(1)));
    assert_eq!(obj[1], ("y".to_string(), JsonValue::Str("a".to_string())));
}

#[test]
fn call_mcp_requires_string_literals() {
    assert!(extract_mcp_arguments(vec![]).is_err());
    assert!(extract_mcp_arguments(vec![ArgExpr::Int64Literal(1)]).is_err());
    assert!(
        extract_mcp_arguments(vec![
            ArgExpr::Utf8Literal("s".to_string()),
            ArgExpr::Int64Literal(1),
        ])
        .is_err()
    );
}

#[test]
fn exec_mcp_signature_check() {
    assert!(check_arg_types(&vec![ColumnType::Utf8, ColumnType::Utf8]).is_ok());
    assert!(check_arg_types(&vec![ColumnType::Utf8, ColumnType::Utf8, ColumnType::Struct]).is_ok());
    assert!(check_arg_types(&vec![]).is_err());
    assert!(check_arg_types(&vec![ColumnType::Int64, ColumnType::Utf8]).is_err());
    assert!(check_arg_types(&vec![ColumnType::Utf8, ColumnType::Boolean]).is_err());
    assert!(check_arg_types(&vec![
        ColumnType::Utf8,
        ColumnType::Utf8,
        ColumnType::Other("List".to_string())
    ])
    .is_err());
}

#[test]
fn exec_mcp_marshals_one_call_per_row() {
    let servers = vec![Some("a".to_string()), None, Some("c".to_string())];
    let tools = vec![Some("t1".to_string()), Some("t2".to_string()), None];
    let objs = Some(vec![
        vec![("x".to_string(), JsonValue::Int(1))],
        vec![],
        vec![("y".to_string(), JsonValue::Bool(false))],
    ]);
    let calls = marshal_exec_args(servers, tools, objs);
    // length-3 input gives length-3 output, rows aligned
    assert_eq!(calls.len(), 3);
    assert_eq!(calls[0].server_name, "a");
    assert_eq!(calls[0].tool_name, "t1");
    assert_eq!(calls[0].arguments.as_ref().unwrap()[0].1, JsonValue::Int(1));
    assert_eq!(calls[1].server_name, "");
    assert_eq!(calls[1].tool_name, "t2");
    assert_eq!(calls[2].server_name, "c");
    assert_eq!(calls[2].tool_name, "");
    assert_eq!(calls[2].arguments.as_ref().unwrap()[0].0, "y");
}

#[test]
fn exec_mcp_builds_row_records() {
    let cols = vec![
        ColumnData {
            name: "x".to_string(),
            cells: vec![CellValue::Int(1), CellValue::Null],
        },
        ColumnData {
            name: "y".to_string(),
            cells: vec![CellValue::Str("a".to_string()), CellValue::Bool(true)],
        },
    ];
    let rows = struct_columns_to_json_objects(&cols, 2).unwrap();
    assert_eq!(rows.len(), 2);
    assert_eq!(rows[0], vec![
        ("x".to_string(), JsonValue::Int(1)),
        ("y".to_string(), JsonValue::Str("a".to_string())),
    ]);
    assert_eq!(rows[1], vec![
        ("x".to_string(), JsonValue::Null),
        ("y".to_string(), JsonValue::Bool(true)),
    ]);
}

#[test]
fn exec_mcp_rejects_unsupported_cells() {
    let cols = vec![ColumnData {
        name: "x".to_string(),
        cells: vec![CellValue::Unsupported("List".to_string())],
    }];
    assert!(matches!(
        struct_columns_to_json_objects(&cols, 1),
        Err(EngineError::Plan(_))
    ));
}

#[test]
fn repeated_keys_keep_the_last_value() {
    let e = named_struct(vec![
        ArgExpr::Utf8Literal("k".to_string()),
        ArgExpr::Int64Literal(1),
        ArgExpr::Utf8Literal("k".to_string()),
        ArgExpr::Int64Literal(2),
    ]);
    let obj = extract_mcp_tool_arguments(Some(e)).unwrap().unwrap();
    assert_eq!(obj, vec![("k".to_string(), JsonValue::Int(2))]);
}
