//! The tool repository: the catalog query whose rows feed the agent's
//! system prompt.

use vstd::prelude::*;

verus! {

/// One tool as the agent's prompt needs it.
#[derive(Debug, Clone)]
pub struct McpTool {
    pub server_name: String,
    pub tool_name: String,
    pub description: String,
}

/// The catalog query that lists the tools.
pub fn list_mcp_tools_sql() -> (r: &'static str)
    ensures
        r@
            == "SELECT server_name, tool_name, description FROM information_schema.mcp_tools ORDER BY server_name, tool_name"@,
{
    "SELECT server_name, tool_name, description FROM information_schema.mcp_tools ORDER BY server_name, tool_name"
}

/// Assembles the tool list from the query's three columns, row by
/// row; a NULL cell becomes the empty string.
pub fn tools_from_columns(
    server_names: Vec<Option<String>>,
    tool_names: Vec<Option<String>>,
    descriptions: Vec<Option<String>>,
) -> (r: Vec<McpTool>)
    requires
        tool_names@.len() == server_names@.len(),
        descriptions@.len() == server_names@.len(),
    ensures
        r@.len() == server_names@.len(),
        forall|i: int|
            0 <= i < server_names@.len() ==> {
                &&& (#[trigger] r@[i]).server_name@ == (match server_names@[i] {
                    Some(s) => s@,
                    None => Seq::<char>::empty(),
                })
                &&& r@[i].tool_name@ == (match tool_names@[i] {
                    Some(s) => s@,
                    None => Seq::<char>::empty(),
                })
                &&& r@[i].description@ == (match descriptions@[i] {
                    Some(s) => s@,
                    None => Seq::<char>::empty(),
                })
            },
{
    let ghost s0 = server_names@;
    let ghost t0 = tool_names@;
    let ghost d0 = descriptions@;
    let n = server_names.len();
    let mut servers = server_names;
    let mut tools = tool_names;
    let mut descs = descriptions;
    let mut r: Vec<McpTool> = Vec::new();
    let mut i: usize = 0;
    while i < n
        invariant
            0 <= i <= n,
            n == s0.len() == t0.len() == d0.len(),
            r@.len() == i,
            servers@ =~= s0.skip(i as int),
            tools@ =~= t0.skip(i as int),
            descs@ =~= d0.skip(i as int),
            forall|m: int|
                0 <= m < i ==> {
                    &&& (#[trigger] r@[m]).server_name@ == (match s0[m] {
                        Some(s) => s@,
                        None => Seq::<char>::empty(),
                    })
                    &&& r@[m].tool_name@ == (match t0[m] {
                        Some(s) => s@,
                        None => Seq::<char>::empty(),
                    })
                    &&& r@[m].description@ == (match d0[m] {
                        Some(s) => s@,
                        None => Seq::<char>::empty(),
                    })
                },
        decreases n - i,
    {
        let server_name = match servers.remove(0) {
            Some(s) => s,
            None => String::new(),
        };
        let tool_name = match tools.remove(0) {
            Some(s) => s,
            None => String::new(),
        };
        let description = match descs.remove(0) {
            Some(s) => s,
            None => String::new(),
        };
        r.push(McpTool { server_name, tool_name, description });
        i = i + 1;
    }
    r
}

} // verus!
