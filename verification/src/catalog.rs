//! The virtual catalog: `information_schema.mcp_servers` and
//! `information_schema.mcp_tools`.
//!
//! `mcp_servers` is one batch built from the server map. `mcp_tools` is
//! streamed: one batch per server, produced by asking each selected
//! server for its tools. The scan supports predicate pushdown for
//! equality filters on `server_name`: with at least one such filter
//! only the named servers are contacted, otherwise all are. Everything
//! decided here — which filters are supported, which servers are
//! selected, how tool listings become rows — is verified; the stream
//! scaffolding around it performs the process I/O.

use crate::config::McpServerConfig;
use vstd::prelude::*;

verus! {

/// Model of one predicate offered to the scan.
#[derive(Debug, Clone)]
pub enum FilterExpr {
    /// `column = 'literal'`, an equality between a column and a UTF-8
    /// string literal.
    ColumnEqLiteral { column: String, literal: String },
    /// Any other predicate.
    Unsupported,
}

/// How the scan answers the engine for one offered predicate.
#[derive(Debug, Clone, PartialEq, Eq)]
pub enum PushDown {
    /// The scan applies the predicate itself, exactly.
    Exact,
    /// The engine must evaluate the predicate above the scan.
    Unsupported,
}

/// The server name that one predicate pins down, if any.
pub open spec fn spec_server_name_filter(f: FilterExpr) -> Option<String> {
    match f {
        FilterExpr::ColumnEqLiteral { column, literal } => if column@ == "server_name"@ {
            Some(literal)
        } else {
            None
        },
        FilterExpr::Unsupported => None,
    }
}

/// Extracts, for each offered predicate, the server name it pins down:
/// `Some` exactly for `server_name = 'literal'`.
pub fn server_name_filters(filters: &Vec<FilterExpr>) -> (r: Vec<Option<String>>)
    ensures
        r@.len() == filters@.len(),
        forall|i: int|
            0 <= i < filters@.len() ==> #[trigger] r@[i] == spec_server_name_filter(
                filters@[i],
            ),
{
    let mut r: Vec<Option<String>> = Vec::new();
    let mut i: usize = 0;
    while i < filters.len()
        invariant
            0 <= i <= filters@.len(),
            r@.len() == i,
            forall|m: int|
                0 <= m < i ==> #[trigger] r@[m] == spec_server_name_filter(filters@[m]),
        decreases filters@.len() - i,
    {
        let entry = match &filters[i] {
            FilterExpr::ColumnEqLiteral { column, literal } => {
                if crate::text::str_eq(column.as_str(), "server_name") {
                    Some(literal.clone())
                } else {
                    None
                }
            },
            FilterExpr::Unsupported => None,
        };
        r.push(entry);
        i = i + 1;
    }
    r
}

/// Answers the engine's pushdown question: equality filters on
/// `server_name` are handled exactly; everything else stays above the
/// scan.
pub fn supports_filters_pushdown(filters: &Vec<FilterExpr>) -> (r: Vec<PushDown>)
    ensures
        r@.len() == filters@.len(),
        forall|i: int|
            0 <= i < filters@.len() ==> (#[trigger] r@[i] == PushDown::Exact
                <==> spec_server_name_filter(filters@[i]) is Some),
{
    let named = server_name_filters(filters);
    let mut r: Vec<PushDown> = Vec::new();
    let mut i: usize = 0;
    while i < named.len()
        invariant
            0 <= i <= named@.len(),
            named@.len() == filters@.len(),
            r@.len() == i,
            forall|m: int|
                0 <= m < filters@.len() ==> #[trigger] named@[m] == spec_server_name_filter(
                    filters@[m],
                ),
            forall|m: int|
                0 <= m < i ==> (#[trigger] r@[m] == PushDown::Exact <==> spec_server_name_filter(
                    filters@[m],
                ) is Some),
        decreases named@.len() - i,
    {
        match &named[i] {
            Some(_) => {
                r.push(PushDown::Exact);
            },
            None => {
                r.push(PushDown::Unsupported);
            },
        }
        i = i + 1;
    }
    r
}

/// Some filter names this server.
pub open spec fn name_matches(fs: Seq<String>, name: Seq<char>) -> bool {
    exists|i: int| 0 <= i < fs.len() && fs[i]@ == name
}

/// The servers the scan will contact, in map order: all of them when no
/// filter was pushed down, otherwise exactly those some filter names.
pub open spec fn spec_selected(
    configs: Seq<McpServerConfig>,
    filters: Option<Seq<String>>,
) -> Seq<McpServerConfig>
    decreases configs.len(),
{
    match filters {
        None => configs,
        Some(fs) => {
            if configs.len() == 0 {
                configs
            } else if name_matches(fs, configs[0].name@) {
                seq![configs[0]] + spec_selected(configs.drop_first(), Some(fs))
            } else {
                spec_selected(configs.drop_first(), Some(fs))
            }
        },
    }
}

/// Law: pushdown contacts exactly the servers the filters do not
/// restrict away — a server is selected if and only if it is in the map
/// and some pushed filter names it; with no pushed filter, every server
/// is selected (by definition of `spec_selected`).
pub proof fn lemma_selected_membership(
    configs: Seq<McpServerConfig>,
    fs: Seq<String>,
    c: McpServerConfig,
)
    ensures
        spec_selected(configs, Some(fs)).contains(c) <==> (configs.contains(c) && name_matches(
            fs,
            c.name@,
        )),
    decreases configs.len(),
{
    if configs.len() == 0 {
        assert(!spec_selected(configs, Some(fs)).contains(c));
        assert(!configs.contains(c));
    } else {
        lemma_selected_membership(configs.drop_first(), fs, c);
        let rest = spec_selected(configs.drop_first(), Some(fs));
        if name_matches(fs, configs[0].name@) {
            let whole = seq![configs[0]] + rest;
            assert(spec_selected(configs, Some(fs)) == whole);
            if c == configs[0] {
                assert(whole[0] == c);
                assert(whole.contains(c));
                assert(configs.contains(c)) by {
                    assert(configs[0] == c);
                }
            } else {
                assert(whole.contains(c) <==> rest.contains(c)) by {
                    if whole.contains(c) {
                        let i = choose|i: int| 0 <= i < whole.len() && whole[i] == c;
                        assert(i != 0);
                        assert(rest[i - 1] == c);
                    }
                    if rest.contains(c) {
                        let i = choose|i: int| 0 <= i < rest.len() && rest[i] == c;
                        assert(whole[i + 1] == c);
                    }
                }
                assert(configs.contains(c) <==> configs.drop_first().contains(c)) by {
                    if configs.contains(c) {
                        let i = choose|i: int| 0 <= i < configs.len() && configs[i] == c;
                        assert(i != 0);
                        assert(configs.drop_first()[i - 1] == c);
                    }
                    if configs.drop_first().contains(c) {
                        let i = choose|i: int|
                            0 <= i < configs.drop_first().len() && configs.drop_first()[i] == c;
                        assert(configs[i + 1] == c);
                    }
                }
            }
        } else {
            assert(spec_selected(configs, Some(fs)) == rest);
            if c == configs[0] {
                assert(!name_matches(fs, c.name@));
            } else {
                assert(configs.contains(c) <==> configs.drop_first().contains(c)) by {
                    if configs.contains(c) {
                        let i = choose|i: int| 0 <= i < configs.len() && configs[i] == c;
                        assert(i != 0);
                        assert(configs.drop_first()[i - 1] == c);
                    }
                    if configs.drop_first().contains(c) {
                        let i = choose|i: int|
                            0 <= i < configs.drop_first().len() && configs.drop_first()[i] == c;
                        assert(configs[i + 1] == c);
                    }
                }
            }
        }
    }
}

/// Tests whether any pushed filter names this server.
fn any_filter_matches(fs: &Vec<String>, name: &String) -> (r: bool)
    ensures
        r == name_matches(fs@, name@),
{
    let mut i: usize = 0;
    while i < fs.len()
        invariant
            0 <= i <= fs@.len(),
            forall|m: int| 0 <= m < i ==> (#[trigger] fs@[m])@ != name@,
        decreases fs@.len() - i,
    {
        if crate::text::str_eq(fs[i].as_str(), name.as_str()) {
            return true;
        }
        i = i + 1;
    }
    false
}

/// Selects the servers the scan will contact, preserving map order.
#[verifier::loop_isolation(false)]
pub fn selected_configs(configs: Vec<McpServerConfig>, filters: &Option<Vec<String>>) -> (r: Vec<
    McpServerConfig,
>)
    ensures
        ({
            let sf = match filters {
                Some(fs) => Some(fs@),
                None => None::<Seq<String>>,
            };
            r@ == spec_selected(configs@, sf)
        }),
{
    let fs = match filters {
        None => {
            return configs;
        },
        Some(fs) => fs,
    };
    let ghost orig = configs@;
    let mut rest = configs;
    let mut out: Vec<McpServerConfig> = Vec::new();
    proof {
        assert(out@ + spec_selected(orig, Some(fs@)) =~= spec_selected(orig, Some(fs@)));
    }
    while rest.len() > 0
        invariant
            out@ + spec_selected(rest@, Some(fs@)) == spec_selected(orig, Some(fs@)),
        decreases rest@.len(),
    {
        let ghost rest_pre = rest@;
        let c = rest.remove(0);
        proof {
            assert(rest@ =~= rest_pre.drop_first());
            assert(c == rest_pre[0]);
        }
        if any_filter_matches(fs, &c.name) {
            out.push(c);
            proof {
                assert(out@ + spec_selected(rest@, Some(fs@)) =~= spec_selected(
                    orig,
                    Some(fs@),
                ));
            }
        }
    }
    proof {
        assert(spec_selected(rest@, Some(fs@)).len() == 0);
        assert(out@ =~= spec_selected(orig, Some(fs@)));
    }
    out
}

// ---------------------------------------------------------------------------
// Rows.
// ---------------------------------------------------------------------------
/// One discovered tool, as the transport reports it: the JSON schema is
/// already rendered to text, `None` when rendering failed.
#[derive(Debug, Clone)]
pub struct ToolInfo {
    pub name: String,
    pub description: String,
    pub input_schema: Option<String>,
}

/// One row of `information_schema.mcp_tools`.
#[derive(Debug, Clone)]
pub struct McpToolRow {
    pub server_name: String,
    pub tool_name: String,
    pub description: String,
    /// The tool's JSON Schema as text; NULL when it could not be
    /// rendered.
    pub input_schema: Option<String>,
}

/// Builds one batch of `mcp_tools` rows for one server, keeping the
/// listing's order.
pub fn tools_to_rows(server_name: &String, tools: Vec<ToolInfo>) -> (r: Vec<McpToolRow>)
    ensures
        r@.len() == tools@.len(),
        forall|i: int|
            0 <= i < tools@.len() ==> {
                &&& (#[trigger] r@[i]).server_name@ == server_name@
                &&& r@[i].tool_name == tools@[i].name
                &&& r@[i].description == tools@[i].description
                &&& r@[i].input_schema == tools@[i].input_schema
            },
{
    let ghost orig = tools@;
    let mut rest = tools;
    let mut r: Vec<McpToolRow> = Vec::new();
    while rest.len() > 0
        invariant
            r@.len() + rest@.len() == orig.len(),
            rest@ == orig.subrange(r@.len() as int, orig.len() as int),
            forall|i: int|
                0 <= i < r@.len() ==> {
                    &&& (#[trigger] r@[i]).server_name@ == server_name@
                    &&& r@[i].tool_name == orig[i].name
                    &&& r@[i].description == orig[i].description
                    &&& r@[i].input_schema == orig[i].input_schema
                },
        decreases rest@.len(),
    {
        let t = rest.remove(0);
        proof {
            assert(t == orig[r@.len() as int]);
            assert(rest@ =~= orig.subrange(r@.len() as int + 1, orig.len() as int));
        }
        r.push(
            McpToolRow {
                server_name: server_name.clone(),
                tool_name: t.name,
                description: t.description,
                input_schema: t.input_schema,
            },
        );
    }
    r
}

/// One row of `information_schema.mcp_servers`.
#[derive(Debug, Clone)]
pub struct ServerRow {
    pub server_name: String,
    pub command: String,
    pub args: Vec<String>,
}

/// Clones a vector of strings, content for content.
fn clone_string_vec(v: &Vec<String>) -> (r: Vec<String>)
    ensures
        r@ == v@,
{
    let r = v.clone();
    proof {
        assert forall|i: int| 0 <= i < v@.len() implies r@[i] == v@[i] by {
            assert(cloned::<String>(v@[i], r@[i]));
        }
        assert(v@ =~= r@);
    }
    r
}

/// Builds the single batch of `mcp_servers` rows, in map order.
pub fn server_rows(configs: &Vec<McpServerConfig>) -> (r: Vec<ServerRow>)
    ensures
        r@.len() == configs@.len(),
        forall|i: int|
            0 <= i < configs@.len() ==> {
                &&& (#[trigger] r@[i]).server_name == configs@[i].name
                &&& r@[i].command == configs@[i].command
                &&& r@[i].args@ == configs@[i].args@
            },
{
    let mut r: Vec<ServerRow> = Vec::new();
    let mut i: usize = 0;
    while i < configs.len()
        invariant
            0 <= i <= configs@.len(),
            r@.len() == i,
            forall|m: int|
                0 <= m < i ==> {
                    &&& (#[trigger] r@[m]).server_name == configs@[m].name
                    &&& r@[m].command == configs@[m].command
                    &&& r@[m].args@ == configs@[m].args@
                },
        decreases configs@.len() - i,
    {
        r.push(
            ServerRow {
                server_name: configs[i].name.clone(),
                command: configs[i].command.clone(),
                args: clone_string_vec(&configs[i].args),
            },
        );
        i = i + 1;
    }
    r
}

} // verus!
