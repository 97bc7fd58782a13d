//! Planning and marshalling rules of the `call_mcp` and `exec_mcp` SQL
//! functions.
//!
//! The SQL engine hands these functions expressions at planning time and
//! typed columns at execution time. Both are modeled here as closed
//! datatypes carrying exactly what the rules read: literal values and
//! column types. The supported scalar leaf types of a tool-argument
//! struct are UTF-8 strings, signed 64-bit integers, 64-bit floats and
//! booleans; anything else is rejected at planning time.

use crate::engine_error::EngineError;
use crate::json::JsonValue;
use crate::text::str_eq;
use vstd::prelude::*;

verus! {

use vstd::string::StringExecFns;

/// Model of an argument expression seen by the planner.
#[derive(Debug, PartialEq, Eq)]
pub enum ArgExpr {
    /// A UTF-8 string literal.
    Utf8Literal(String),
    /// A signed 64-bit integer literal.
    Int64Literal(i64),
    /// A 64-bit float literal, carried as its decimal rendering.
    Float64Literal(String),
    /// A boolean literal.
    BooleanLiteral(bool),
    /// A function call such as the row constructor `named_struct`.
    ScalarFunction { name: String, args: Vec<ArgExpr> },
    /// Any other expression, as a rendering for error messages.
    Other(String),
}

/// The JSON value of a supported scalar literal; `None` for every
/// unsupported expression.
pub open spec fn spec_scalar_to_json(e: ArgExpr) -> Option<JsonValue> {
    match e {
        ArgExpr::Utf8Literal(s) => Some(JsonValue::Str(s)),
        ArgExpr::Int64Literal(i) => Some(JsonValue::Int(i)),
        ArgExpr::Float64Literal(t) => Some(JsonValue::NumText(t)),
        ArgExpr::BooleanLiteral(b) => Some(JsonValue::Bool(b)),
        _ => None,
    }
}

/// Inserting into an argument object: a pair whose key is already there
/// replaces that value in place; a fresh key is appended.
pub open spec fn spec_obj_insert(
    pairs: Seq<(String, JsonValue)>,
    k: String,
    v: JsonValue,
) -> Seq<(String, JsonValue)>
    decreases pairs.len(),
{
    if pairs.len() == 0 {
        seq![(k, v)]
    } else if pairs[0].0@ == k@ {
        seq![(pairs[0].0, v)] + pairs.drop_first()
    } else {
        seq![pairs[0]] + spec_obj_insert(pairs.drop_first(), k, v)
    }
}

/// The object that the `named_struct` children denote, processed left
/// to right starting from `acc`: even positions are keys, odd positions
/// are values; `None` when a key is not a string literal or a value is
/// not a supported scalar. A trailing key without a value contributes
/// nothing.
pub open spec fn spec_struct_obj_acc(
    args: Seq<ArgExpr>,
    acc: Seq<(String, JsonValue)>,
) -> Option<Seq<(String, JsonValue)>>
    decreases args.len(),
{
    if args.len() == 0 {
        Some(acc)
    } else if !(args[0] is Utf8Literal) {
        None
    } else if args.len() == 1 {
        Some(acc)
    } else {
        match spec_scalar_to_json(args[1]) {
            Some(j) => spec_struct_obj_acc(
                args.skip(2),
                spec_obj_insert(acc, args[0]->Utf8Literal_0, j),
            ),
            None => None,
        }
    }
}

/// The object denoted by the children of a `named_struct` call.
pub open spec fn spec_struct_obj(args: Seq<ArgExpr>) -> Option<Seq<(String, JsonValue)>> {
    spec_struct_obj_acc(args, Seq::empty())
}

/// Inserts a pair into an argument object, replacing the value of an
/// existing key in place.
fn obj_insert(pairs: Vec<(String, JsonValue)>, k: String, v: JsonValue) -> (r: Vec<
    (String, JsonValue),
>)
    ensures
        r@ == spec_obj_insert(pairs@, k, v),
    decreases pairs@.len(),
{
    let ghost pairs0 = pairs@;
    let mut pairs = pairs;
    if pairs.len() == 0 {
        pairs.push((k, v));
        proof {
            assert(pairs@ =~= seq![(k, v)]);
        }
        pairs
    } else {
        let (k0, v0) = pairs.remove(0);
        if k0 == k {
            proof {
                assert(k0@ == k@);
            }
            pairs.insert(0, (k0, v));
            proof {
                assert(pairs@ =~= seq![(pairs0[0].0, v)] + pairs0.drop_first());
            }
            pairs
        } else {
            let mut rest = obj_insert(pairs, k, v);
            rest.insert(0, (k0, v0));
            proof {
                assert(rest@ =~= seq![pairs0[0]] + spec_obj_insert(pairs0.drop_first(), k, v));
            }
            rest
        }
    }
}

/// Extracts the tool-argument object from the optional third argument
/// of `call_mcp`: absent means no arguments; otherwise it must be a
/// `named_struct` call whose keys are string literals and whose values
/// are supported scalars.
#[verifier::loop_isolation(false)]
pub fn extract_mcp_tool_arguments(expr: Option<ArgExpr>) -> (r: Result<
    Option<Vec<(String, JsonValue)>>,
    EngineError,
>)
    ensures
        expr is None ==> r == Ok::<Option<Vec<(String, JsonValue)>>, EngineError>(
            None::<Vec<(String, JsonValue)>>,
        ),
        (expr matches Some(e) ==> match e {
            ArgExpr::ScalarFunction { name, args } => {
                if name@ == "named_struct"@ {
                    match spec_struct_obj(args@) {
                        Some(obj) => r matches Ok(Some(pairs)) && pairs@ == obj,
                        None => r matches Err(er) && er is Plan,
                    }
                } else {
                    r matches Err(er) && er is Plan
                }
            },
            _ => r matches Err(er) && er is Plan,
        }),
{
    let e = match expr {
        None => {
            return Ok(None);
        },
        Some(e) => e,
    };
    match e {
        ArgExpr::ScalarFunction { name, args } => {
            if !str_eq(name.as_str(), "named_struct") {
                return Err(
                    EngineError::Plan(
                        String::from_str(
                            "Third argument must be an named_struct for tool's parameter.",
                        ),
                    ),
                );
            }
            let ghost orig_args = args@;
            let mut ret: Vec<(String, JsonValue)> = Vec::new();
            let mut rest = args;
            while rest.len() > 0
                invariant
                    spec_struct_obj_acc(rest@, ret@) == spec_struct_obj(orig_args),
                decreases rest@.len(),
            {
                let ghost rest_pre = rest@;
                let key_expr = rest.remove(0);
                let key = match key_expr {
                    ArgExpr::Utf8Literal(k) => k,
                    _ => {
                        return Err(
                            EngineError::Plan(
                                String::from_str(
                                    "unexpected error. not string for key of named_struct.",
                                ),
                            ),
                        );
                    },
                };
                if rest.len() == 0 {
                    proof {
                        assert(rest_pre.len() == 1);
                    }
                    break ;
                }
                let val_expr = rest.remove(0);
                proof {
                    assert(rest@ =~= rest_pre.skip(2));
                    assert(rest_pre[1] == val_expr);
                }
                let val = match scalar_to_json(val_expr) {
                    Some(v) => v,
                    None => {
                        return Err(
                            EngineError::Plan(
                                String::from_str(
                                    "unimplemented error. only string and int, float, boolean is supported for the value of mcp-tool arguments.",
                                ),
                            ),
                        );
                    },
                };
                ret = obj_insert(ret, key, val);
            }
            Ok(Some(ret))
        },
        _ => Err(
            EngineError::Plan(
                String::from_str("Third argument must be an named_struct for tool's parameter."),
            ),
        ),
    }
}

/// Converts one supported scalar literal to its JSON value.
fn scalar_to_json(e: ArgExpr) -> (r: Option<JsonValue>)
    ensures
        r == spec_scalar_to_json(e),
{
    match e {
        ArgExpr::Utf8Literal(s) => Some(JsonValue::Str(s)),
        ArgExpr::Int64Literal(i) => Some(JsonValue::Int(i)),
        ArgExpr::Float64Literal(t) => Some(JsonValue::NumText(t)),
        ArgExpr::BooleanLiteral(b) => Some(JsonValue::Bool(b)),
        _ => None,
    }
}

/// Extracts `(server, tool, arguments?)` from the planner's argument
/// list for `call_mcp`: the first two arguments must be string
/// literals; the optional third goes through
/// `extract_mcp_tool_arguments`.
pub fn extract_mcp_arguments(args: Vec<ArgExpr>) -> (r: Result<
    (String, String, Option<Vec<(String, JsonValue)>>),
    EngineError,
>)
    ensures
        args@.len() == 0 ==> (r matches Err(e) && e is Plan),
        (args@.len() >= 1 && !(args@[0] is Utf8Literal)) ==> (r matches Err(e) && e is Plan),
        (args@.len() == 1 && args@[0] is Utf8Literal) ==> (r matches Err(e) && e is Plan),
        (args@.len() >= 2 && args@[0] is Utf8Literal && !(args@[1] is Utf8Literal)) ==> (
        r matches Err(e) && e is Plan),
        (args@.len() >= 2 && args@[0] is Utf8Literal && args@[1] is Utf8Literal) ==> {
            let third = if args@.len() >= 3 {
                Some(args@[2])
            } else {
                None::<ArgExpr>
            };
            match third {
                None => r matches Ok(t) && t.0@ == args@[0]->Utf8Literal_0@ && t.1@
                    == args@[1]->Utf8Literal_0@ && t.2 is None,
                Some(e) => match e {
                    ArgExpr::ScalarFunction { name, args: fargs } => {
                        if name@ == "named_struct"@ {
                            match spec_struct_obj(fargs@) {
                                Some(obj) => r matches Ok(t) && t.0@ == args@[0]->Utf8Literal_0@
                                    && t.1@ == args@[1]->Utf8Literal_0@ && (t.2 matches Some(pairs)
                                    && pairs@ == obj),
                                None => r matches Err(er) && er is Plan,
                            }
                        } else {
                            r matches Err(er) && er is Plan
                        }
                    },
                    _ => r matches Err(er) && er is Plan,
                },
            }
        },
{
    let mut args = args;
    if args.len() == 0 {
        return Err(
            EngineError::Plan(
                String::from_str("first argument for call_mcp must be an string (server-name)"),
            ),
        );
    }
    let first = args.remove(0);
    let server_name = match first {
        ArgExpr::Utf8Literal(s) => s,
        _ => {
            return Err(
                EngineError::Plan(
                    String::from_str(
                        "first argument for call_mcp must be an string (server-name)",
                    ),
                ),
            );
        },
    };
    if args.len() == 0 {
        return Err(
            EngineError::Plan(
                String::from_str("second argument for call_mcp must be an string (tool-name)"),
            ),
        );
    }
    let second = args.remove(0);
    let tool_name = match second {
        ArgExpr::Utf8Literal(s) => s,
        _ => {
            return Err(
                EngineError::Plan(
                    String::from_str(
                        "second argument for call_mcp must be an string (tool-name)",
                    ),
                ),
            );
        },
    };
    let third = if args.len() > 0 {
        Some(args.remove(0))
    } else {
        None
    };
    let tool_arguments = match extract_mcp_tool_arguments(third) {
        Ok(t) => t,
        Err(e) => {
            return Err(e);
        },
    };
    Ok((server_name, tool_name, tool_arguments))
}

// ---------------------------------------------------------------------------
// exec_mcp: column types and row marshalling.
// ---------------------------------------------------------------------------
/// Model of the SQL type of one argument column.
#[derive(Debug, Clone, PartialEq, Eq)]
pub enum ColumnType {
    Utf8,
    Int64,
    Float64,
    Boolean,
    Struct,
    /// Any other type, as a rendering for error messages.
    Other(String),
}

/// Checks the signature of an `exec_mcp` call: two UTF-8 arguments,
/// optionally followed by a struct of tool arguments.
pub fn check_arg_types(arguments: &Vec<ColumnType>) -> (r: Result<(), EngineError>)
    ensures
        r is Ok <==> (arguments@.len() >= 2 && arguments@[0] is Utf8 && arguments@[1] is Utf8 && (
        arguments@.len() < 3 || arguments@[2] is Struct)),
        r matches Err(e) ==> e is Plan,
{
    if arguments.len() < 1 {
        return Err(
            EngineError::Plan(String::from_str("the first argument not exists for exec_mcp")),
        );
    }
    match &arguments[0] {
        ColumnType::Utf8 => {},
        _ => {
            return Err(
                EngineError::Plan(
                    String::from_str("the first argument must be UTF8(String) for exec_mcp"),
                ),
            );
        },
    }
    if arguments.len() < 2 {
        return Err(
            EngineError::Plan(String::from_str("the second argument not exists for exec_mcp")),
        );
    }
    match &arguments[1] {
        ColumnType::Utf8 => {},
        _ => {
            return Err(
                EngineError::Plan(
                    String::from_str("the second argument must be UTF8(String) for exec_mcp"),
                ),
            );
        },
    }
    if arguments.len() < 3 {
        return Ok(());
    }
    match &arguments[2] {
        ColumnType::Struct => Ok(()),
        _ => Err(
            EngineError::Plan(String::from_str("the third argument must be Struct for exec_mcp")),
        ),
    }
}

/// Model of one cell of an argument column at execution time.
#[derive(Debug, Clone, PartialEq, Eq)]
pub enum CellValue {
    /// SQL NULL.
    Null,
    Str(String),
    Int(i64),
    /// A 64-bit float, carried as its decimal rendering.
    Num(String),
    Bool(bool),
    /// A value of an unsupported type, as a rendering for messages.
    Unsupported(String),
}

/// One column of the argument struct, named, with one cell per row.
#[derive(Debug, Clone, PartialEq, Eq)]
pub struct ColumnData {
    pub name: String,
    pub cells: Vec<CellValue>,
}

/// The JSON value of one cell; `None` for an unsupported cell.
pub open spec fn spec_cell_to_json(c: CellValue) -> Option<JsonValue> {
    match c {
        CellValue::Null => Some(JsonValue::Null),
        CellValue::Str(s) => Some(JsonValue::Str(s)),
        CellValue::Int(i) => Some(JsonValue::Int(i)),
        CellValue::Num(t) => Some(JsonValue::NumText(t)),
        CellValue::Bool(b) => Some(JsonValue::Bool(b)),
        CellValue::Unsupported(_) => None,
    }
}

/// Converts one cell, rejecting unsupported types as the planner does.
pub fn cell_to_json(c: CellValue) -> (r: Result<JsonValue, EngineError>)
    ensures
        match spec_cell_to_json(c) {
            Some(j) => r == Ok::<JsonValue, EngineError>(j),
            None => r matches Err(e) && e is Plan,
        },
{
    match c {
        CellValue::Null => Ok(JsonValue::Null),
        CellValue::Str(s) => Ok(JsonValue::Str(s)),
        CellValue::Int(i) => Ok(JsonValue::Int(i)),
        CellValue::Num(t) => Ok(JsonValue::NumText(t)),
        CellValue::Bool(b) => Ok(JsonValue::Bool(b)),
        CellValue::Unsupported(_) => Err(
            EngineError::Plan(
                String::from_str(
                    "unimplemented error. only string and int, float, boolean is supported for the value of mcp-tool arguments.",
                ),
            ),
        ),
    }
}

/// Copies one cell, field for field.
fn cell_clone(c: &CellValue) -> (r: CellValue)
    ensures
        r == c,
{
    match c {
        CellValue::Null => CellValue::Null,
        CellValue::Str(s) => CellValue::Str(s.clone()),
        CellValue::Int(i) => CellValue::Int(*i),
        CellValue::Num(t) => CellValue::Num(t.clone()),
        CellValue::Bool(b) => CellValue::Bool(*b),
        CellValue::Unsupported(t) => CellValue::Unsupported(t.clone()),
    }
}

/// The JSON record of row `row`: one entry per column, in column
/// order; `None` when some cell of the row is unsupported.
pub open spec fn spec_row_obj(cols: Seq<ColumnData>, row: int) -> Option<
    Seq<(String, JsonValue)>,
>
    decreases cols.len(),
{
    if cols.len() == 0 {
        Some(Seq::empty())
    } else {
        match spec_cell_to_json(cols[0].cells@[row]) {
            None => None,
            Some(j) => match spec_row_obj(cols.drop_first(), row) {
                None => None,
                Some(rest) => Some(seq![(cols[0].name, j)] + rest),
            },
        }
    }
}

/// Builds, for each of `num_rows` rows, the JSON record of the row's
/// cells across the argument struct's columns. Fails exactly when some
/// row holds a cell of an unsupported type.
#[verifier::loop_isolation(false)]
pub fn struct_columns_to_json_objects(cols: &Vec<ColumnData>, num_rows: usize) -> (r: Result<
    Vec<Vec<(String, JsonValue)>>,
    EngineError,
>)
    requires
        forall|c: int| 0 <= c < cols@.len() ==> (#[trigger] cols@[c]).cells@.len() == num_rows,
    ensures
        (r matches Ok(rows) ==> {
            &&& rows@.len() == num_rows
            &&& (forall|i: int|
                0 <= i < num_rows ==> Some((#[trigger] rows@[i])@) == spec_row_obj(
                    cols@,
                    i,
                ))
        }),
        (r matches Err(e) ==> e is Plan && exists|i: int|
            0 <= i < num_rows && (#[trigger] spec_row_obj(cols@, i)) is None),
{
    let mut rows: Vec<Vec<(String, JsonValue)>> = Vec::new();
    let mut i: usize = 0;
    while i < num_rows
        invariant
            0 <= i <= num_rows,
            rows@.len() == i,
            forall|m: int|
                0 <= m < i ==> Some((#[trigger] rows@[m])@) == spec_row_obj(cols@, m),
        decreases num_rows - i,
    {
        let mut obj: Vec<(String, JsonValue)> = Vec::new();
        let mut c: usize = 0;
        proof {
            assert(cols@.skip(0) =~= cols@);
        }
        while c < cols.len()
            invariant
                0 <= c <= cols@.len(),
                0 <= i < num_rows,
                forall|k: int| 0 <= k < cols@.len() ==> (#[trigger] cols@[k]).cells@.len()
                    == num_rows,
                ({
                    match spec_row_obj(cols@.skip(c as int), i as int) {
                        Some(rest) => spec_row_obj(cols@, i as int) == Some(obj@ + rest),
                        None => spec_row_obj(cols@, i as int) is None,
                    }
                }),
            decreases cols@.len() - c,
        {
            let ghost suff = cols@.skip(c as int);
            proof {
                assert(suff[0] == cols@[c as int]);
                assert(suff.drop_first() =~= cols@.skip(c as int + 1));
            }
            let cell = cell_clone(&cols[c].cells[i]);
            let j = match cell_to_json(cell) {
                Ok(j) => j,
                Err(e) => {
                    proof {
                        assert(spec_row_obj(cols@, i as int) is None);
                    }
                    return Err(e);
                },
            };
            obj.push((cols[c].name.clone(), j));
            proof {
                assert(obj@ =~= obj@.subrange(0, obj@.len() - 1) + seq![
                    (cols@[c as int].name, j),
                ]);
            }
            c = c + 1;
        }
        proof {
            assert(spec_row_obj(cols@.skip(cols@.len() as int), i as int) == Some(Seq::<
                (String, JsonValue),
            >::empty()));
            assert(obj@ + Seq::<(String, JsonValue)>::empty() =~= obj@);
        }
        rows.push(obj);
        i = i + 1;
    }
    Ok(rows)
}

/// One planned tool call of a vectorized `exec_mcp` invocation.
#[derive(Debug)]
pub struct McpCallSpec {
    pub server_name: String,
    pub tool_name: String,
    pub arguments: Option<Vec<(String, JsonValue)>>,
}

/// Marshals the argument columns of one `exec_mcp` invocation into one
/// tool call per row: row `i` uses `server[i]`, `tool[i]` and, when an
/// argument struct was given, its row `i` record. A null name becomes
/// the empty string. The output has exactly one call per input row.
#[verifier::loop_isolation(false)]
pub fn marshal_exec_args(
    server_names: Vec<Option<String>>,
    tool_names: Vec<Option<String>>,
    objs: Option<Vec<Vec<(String, JsonValue)>>>,
) -> (r: Vec<McpCallSpec>)
    ensures
        r@.len() == server_names@.len(),
        forall|i: int|
            0 <= i < server_names@.len() ==> {
                &&& (#[trigger] r@[i]).server_name@ == (match server_names@[i] {
                    Some(s) => s@,
                    None => Seq::<char>::empty(),
                })
                &&& r@[i].tool_name@ == (if i < tool_names@.len() {
                    match tool_names@[i] {
                        Some(s) => s@,
                        None => Seq::<char>::empty(),
                    }
                } else {
                    Seq::<char>::empty()
                })
                &&& r@[i].arguments is Some <==> (objs is Some && i < objs->Some_0@.len())
                &&& (objs is Some && i < objs->Some_0@.len() ==> r@[i].arguments->Some_0
                    == objs->Some_0@[i])
            },
{
    let ghost servers0 = server_names@;
    let ghost tools0 = tool_names@;
    let n = server_names.len();
    let mut servers = server_names;
    let mut tools = tool_names;
    let mut objs_rest = objs;
    let mut out: Vec<McpCallSpec> = Vec::new();
    let mut i: usize = 0;
    while i < n
        invariant
            0 <= i <= n,
            n == servers0.len(),
            out@.len() == i,
            servers@ =~= servers0.skip(i as int),
            tools@ =~= (if i <= tools0.len() {
                tools0.skip(i as int)
            } else {
                Seq::<Option<String>>::empty()
            }),
            objs_rest matches Some(v) <==> objs is Some,
            objs_rest matches Some(v) ==> v@ =~= (if i <= objs->Some_0@.len() {
                objs->Some_0@.skip(i as int)
            } else {
                Seq::<Vec<(String, JsonValue)>>::empty()
            }),
            forall|m: int|
                0 <= m < i ==> {
                    &&& (#[trigger] out@[m]).server_name@ == (match servers0[m] {
                        Some(s) => s@,
                        None => Seq::<char>::empty(),
                    })
                    &&& out@[m].tool_name@ == (if m < tools0.len() {
                        match tools0[m] {
                            Some(s) => s@,
                            None => Seq::<char>::empty(),
                        }
                    } else {
                        Seq::<char>::empty()
                    })
                    &&& out@[m].arguments is Some <==> (objs is Some && m < objs->Some_0@.len())
                    &&& (objs is Some && m < objs->Some_0@.len() ==> out@[m].arguments->Some_0
                        == objs->Some_0@[m])
                },
        decreases n - i,
    {
        let server = match servers.remove(0) {
            Some(s) => s,
            None => String::new(),
        };
        let tool = if tools.len() > 0 {
            match tools.remove(0) {
                Some(s) => s,
                None => String::new(),
            }
        } else {
            String::new()
        };
        let arguments = match &mut objs_rest {
            Some(v) => if v.len() > 0 {
                Some(v.remove(0))
            } else {
                None
            },
            None => None,
        };
        out.push(McpCallSpec { server_name: server, tool_name: tool, arguments });
        i = i + 1;
    }
    out
}

} // verus!
