//! Tool-response normalization, schema inference and row projection.

use data_harpoon::config::McpServerConfig;
use data_harpoon::engine_error::EngineError;
use data_harpoon::json::JsonValue;
use data_harpoon::mcp::{first_text_content, McpToolCaller, ToolContent};
use data_harpoon::schema::{infer_schema, project_row, Field, FieldList, JsonType};
use std::sync::Arc;

fn caller() -> McpToolCaller {
    McpToolCaller::new(Arc::new(McpServerConfig::new(
        "echo".to_string(),
        "echo-cmd".to_string(),
        vec![],
        vec![],
    )))
}

#[test]
fn echoed_object_row_decodes() {
    // one echoed record: one row with x:int64=1, y:string="a"
    let rows = caller().to_values("[{\"x\":1,\"y\":\"a\"}]").unwrap();
    assert_eq!(rows.len(), 1);
    let fields = infer_schema(&rows).unwrap();
    assert_eq!(fields.len(), 2);
    assert_eq!(fields[0].name, "x");
    assert_eq!(fields[0].jtype, JsonType::Int64);
    assert_eq!(fields[1].name, "y");
    assert_eq!(fields[1].jtype, JsonType::Utf8);
    let mut rows = rows;
    let cells = project_row(&fields, rows.remove(0)).unwrap();
    assert_eq!(cells, vec![JsonValue::Int(1), JsonValue::Str("a".to_string())]);
}

#[test]
fn lone_object_becomes_one_row() {
    let rows = caller().to_values("{\"k\":true}").unwrap();
    assert_eq!(rows.len(), 1);
    assert_eq!(
        rows[0],
        JsonValue::Object(vec![("k".to_string(), JsonValue::Bool(true))])
    );
}

#[test]
fn array_yields_its_elements() {
    let rows = caller().to_values("[1, 2, 3]").unwrap();
    assert_eq!(rows, vec![JsonValue::Int(1), JsonValue::Int(2), JsonValue::Int(3)]);
}

#[test]
fn scalar_response_is_rejected() {
    assert!(matches!(caller().to_values("42"), Err(EngineError::Exec(_))));
    assert!(matches!(caller().to_values("\"text\""), Err(EngineError::Exec(_))));
}

#[test]
fn non_json_response_is_rejected() {
    assert!(matches!(caller().to_values("not json"), Err(EngineError::Exec(_))));
}

#[test]
fn numbers_split_into_ints_and_floats() {
    let rows = caller().to_values("[{\"a\":1,\"b\":1.5}]").unwrap();
    match &rows[0] {
        JsonValue::Object(ps) => {
            assert_eq!(ps[0].1, JsonValue::Int(1));
            assert_eq!(ps[1].1, JsonValue::NumText("1.5".to_string()));
        }
        other => panic!("expected a record, got {:?}", other),
    }
}

#[test]
fn first_content_item_must_be_text() {
    assert_eq!(
        first_text_content(vec![ToolContent::Text("[1]".to_string())], "s").unwrap(),
        "[1]"
    );
    assert!(first_text_content(vec![], "s").is_err());
    assert!(first_text_content(vec![ToolContent::Other("image".to_string())], "s").is_err());
}

#[test]
fn schema_merges_union_of_fields() {
    let rows = caller()
        .to_values("[{\"x\":1},{\"y\":\"a\"},{\"x\":2.5}]")
        .unwrap();
    let fields = infer_schema(&rows).unwrap();
    assert_eq!(fields.len(), 2);
    assert_eq!(fields[0].name, "x");
    // 1 then 2.5 widens the column to a float
    assert_eq!(fields[0].jtype, JsonType::Float64);
    assert_eq!(fields[1].name, "y");
    assert_eq!(fields[1].jtype, JsonType::Utf8);
}

#[test]
fn schema_null_yields_to_any_type() {
    let rows = caller().to_values("[{\"x\":null},{\"x\":\"v\"}]").unwrap();
    let fields = infer_schema(&rows).unwrap();
    assert_eq!(fields[0].jtype, JsonType::Utf8);
}

#[test]
fn incompatible_field_types_fail_planning() {
    let rows = caller().to_values("[{\"x\":1},{\"x\":\"a\"}]").unwrap();
    assert!(matches!(infer_schema(&rows), Err(EngineError::Plan(_))));
}

#[test]
fn empty_row_list_gives_empty_schema() {
    let rows = caller().to_values("[]").unwrap();
    assert_eq!(rows.len(), 0);
    let fields = infer_schema(&rows).unwrap();
    assert_eq!(fields.len(), 0);
}

#[test]
fn only_first_ten_rows_are_sampled() {
    let mut text = String::from("[");
    for i in 0..10 {
        if i > 0 {
            text.push(',');
        }
        text.push_str("{\"x\":1}");
    }
    // an eleventh, incompatible row is beyond the sample bound
    text.push_str(",{\"x\":\"s\"}]");
    let rows = caller().to_values(&text).unwrap();
    assert_eq!(rows.len(), 11);
    let fields = infer_schema(&rows).unwrap();
    assert_eq!(fields[0].jtype, JsonType::Int64);
}

#[test]
fn missing_field_projects_to_null() {
    let rows = caller().to_values("[{\"x\":1},{\"y\":2}]").unwrap();
    let fields = infer_schema(&rows).unwrap();
    let mut rows = rows;
    let second = rows.remove(1);
    let cells = project_row(&fields, second).unwrap();
    assert_eq!(cells, vec![JsonValue::Null, JsonValue::Int(2)]);
}

fn fields_of(entries: Vec<(&str, JsonType)>) -> FieldList {
    let mut out = FieldList::Nil;
    for (name, jtype) in entries.into_iter().rev() {
        out = FieldList::Cons(
            Box::new(Field { name: name.to_string(), jtype }),
            Box::new(out),
        );
    }
    out
}

#[test]
fn nested_record_becomes_a_struct_column() {
    let rows = caller().to_values("[{\"a\":{\"b\":1}}]").unwrap();
    let fields = infer_schema(&rows).unwrap();
    assert_eq!(fields.len(), 1);
    assert_eq!(fields[0].name, "a");
    assert_eq!(
        fields[0].jtype,
        JsonType::Struct(fields_of(vec![("b", JsonType::Int64)]))
    );
}

#[test]
fn nested_array_becomes_a_list_column() {
    let rows = caller().to_values("[{\"xs\":[1,2]}]").unwrap();
    let fields = infer_schema(&rows).unwrap();
    assert_eq!(fields[0].jtype, JsonType::List(Box::new(JsonType::Int64)));
}

#[test]
fn empty_array_lists_nulls() {
    let rows = caller().to_values("[{\"xs\":[]}]").unwrap();
    let fields = infer_schema(&rows).unwrap();
    assert_eq!(fields[0].jtype, JsonType::List(Box::new(JsonType::Null)));
}

#[test]
fn array_elements_widen() {
    let rows = caller().to_values("[{\"xs\":[1, 2.5, null]}]").unwrap();
    let fields = infer_schema(&rows).unwrap();
    assert_eq!(fields[0].jtype, JsonType::List(Box::new(JsonType::Float64)));
    assert!(matches!(
        infer_schema(&caller().to_values("[{\"xs\":[1, \"a\"]}]").unwrap()),
        Err(EngineError::Plan(_))
    ));
}

#[test]
fn nested_fields_union_and_widen_across_samples() {
    let rows = caller()
        .to_values("[{\"a\":{\"b\":1}},{\"a\":{\"c\":null}},{\"a\":{\"b\":2.5,\"c\":\"x\"}}]")
        .unwrap();
    let fields = infer_schema(&rows).unwrap();
    assert_eq!(
        fields[0].jtype,
        JsonType::Struct(fields_of(vec![
            ("b", JsonType::Float64),
            ("c", JsonType::Utf8),
        ]))
    );
}

#[test]
fn incompatible_nested_types_fail_planning() {
    let rows = caller()
        .to_values("[{\"a\":{\"b\":1}},{\"a\":{\"b\":\"s\"}}]")
        .unwrap();
    assert!(matches!(infer_schema(&rows), Err(EngineError::Plan(_))));
    // a list cannot widen into a record either
    let rows = caller().to_values("[{\"a\":[1]},{\"a\":{\"b\":1}}]").unwrap();
    assert!(matches!(infer_schema(&rows), Err(EngineError::Plan(_))));
}

#[test]
fn null_yields_to_a_nested_type() {
    let rows = caller()
        .to_values("[{\"a\":null},{\"a\":{\"b\":true}}]")
        .unwrap();
    let fields = infer_schema(&rows).unwrap();
    assert_eq!(
        fields[0].jtype,
        JsonType::Struct(fields_of(vec![("b", JsonType::Boolean)]))
    );
}

#[test]
fn nested_cells_project_through_unchanged() {
    let rows = caller().to_values("[{\"a\":{\"b\":1}}]").unwrap();
    let fields = infer_schema(&rows).unwrap();
    let mut rows = rows;
    let cells = project_row(&fields, rows.remove(0)).unwrap();
    assert_eq!(
        cells,
        vec![JsonValue::Object(vec![("b".to_string(), JsonValue::Int(1))])]
    );
}

#[test]
fn non_record_row_cannot_be_projected() {
    let fields = vec![];
    assert!(matches!(
        project_row(&fields, JsonValue::Int(1)),
        Err(EngineError::Exec(_))
    ));
}
