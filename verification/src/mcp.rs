//! Client-side MCP models: the server map, the tool-listing session,
//! and the normalization of tool responses.
//!
//! Talking to a server means spawning its process and exchanging
//! messages over its stdio channel; that transport lives outside the
//! verified core. What is decided here: which server a name resolves
//! to, how paginated tool listings accumulate, which content item of a
//! call's result is used, and how its text becomes table rows.

use crate::catalog::ToolInfo;
use crate::config::McpServerConfig;
use crate::engine_error::EngineError;
use crate::json::{normalize_rows, parse_json, parsed_json, JsonValue};
use crate::text::str_eq;
use std::sync::Arc;
use vstd::prelude::*;

verus! {

use vstd::string::StringExecFns;

// ---------------------------------------------------------------------------
// The server map.
// ---------------------------------------------------------------------------
/// The configured servers, keyed by name: inserting an existing name
/// replaces its entry, resolving walks the entries in order.
#[derive(Debug, Clone)]
pub struct ServerMap {
    pub servers: Vec<McpServerConfig>,
}

/// The first entry with the given name.
pub open spec fn spec_map_get(
    servers: Seq<McpServerConfig>,
    name: Seq<char>,
) -> Option<McpServerConfig>
    decreases servers.len(),
{
    if servers.len() == 0 {
        None
    } else if servers[0].name@ == name {
        Some(servers[0])
    } else {
        spec_map_get(servers.drop_first(), name)
    }
}

/// Insertion: an entry with the same name is replaced in place, a
/// fresh name is appended.
pub open spec fn spec_map_insert(
    servers: Seq<McpServerConfig>,
    c: McpServerConfig,
) -> Seq<McpServerConfig>
    decreases servers.len(),
{
    if servers.len() == 0 {
        seq![c]
    } else if servers[0].name@ == c.name@ {
        seq![c] + servers.drop_first()
    } else {
        seq![servers[0]] + spec_map_insert(servers.drop_first(), c)
    }
}

impl ServerMap {
    /// An empty map.
    pub fn new() -> (m: ServerMap)
        ensures
            m.servers@ == Seq::<McpServerConfig>::empty(),
    {
        ServerMap { servers: Vec::new() }
    }

    /// Builds the map from the configuration's server list, in order;
    /// a repeated name keeps only the later entry.
    pub fn from_configs(configs: Vec<McpServerConfig>) -> (m: ServerMap)
        ensures
            m.servers@ == spec_from_configs(configs@),
    {
        let ghost orig = configs@;
        let mut m = ServerMap::new();
        let mut rest = configs;
        proof {
            assert(spec_insert_all(m.servers@, rest@) == spec_from_configs(orig));
        }
        while rest.len() > 0
            invariant
                spec_insert_all(m.servers@, rest@) == spec_from_configs(orig),
            decreases rest@.len(),
        {
            let ghost rest_pre = rest@;
            let c = rest.remove(0);
            proof {
                assert(c == rest_pre[0]);
                assert(rest@ =~= rest_pre.drop_first());
            }
            m.insert(c);
        }
        m
    }

    /// Inserts one server.
    pub fn insert(&mut self, config: McpServerConfig)
        ensures
            final(self).servers@ == spec_map_insert(old(self).servers@, config),
    {
        let ghost servers0 = self.servers@;
        let mut i: usize = 0;
        while i < self.servers.len()
            invariant
                0 <= i <= self.servers@.len(),
                self.servers@ == servers0,
                servers0 == old(self).servers@,
                forall|m: int| 0 <= m < i ==> (#[trigger] servers0[m]).name@ != config.name@,
            decreases self.servers@.len() - i,
        {
            if str_eq(self.servers[i].name.as_str(), config.name.as_str()) {
                proof {
                    lemma_map_insert_at(servers0, config, i as int);
                }
                self.servers.remove(i);
                self.servers.insert(i, config);
                proof {
                    assert(self.servers@ =~= servers0.update(i as int, config));
                }
                return ;
            }
            i = i + 1;
        }
        self.servers.push(config);
        proof {
            lemma_map_insert_append(servers0, config);
            assert(self.servers@ =~= servers0.push(config));
        }
    }

    /// Looks a server up by name.
    pub fn get(&self, name: &str) -> (r: Option<&McpServerConfig>)
        ensures
            match r {
                Some(c) => spec_map_get(self.servers@, name@) == Some(*c),
                None => spec_map_get(self.servers@, name@) is None,
            },
    {
        let mut i: usize = 0;
        while i < self.servers.len()
            invariant
                0 <= i <= self.servers@.len(),
                forall|m: int| 0 <= m < i ==> (#[trigger] self.servers@[m]).name@ != name@,
            decreases self.servers@.len() - i,
        {
            if str_eq(self.servers[i].name.as_str(), name) {
                proof {
                    lemma_map_get_at(self.servers@, name@, i as int);
                }
                return Some(&self.servers[i]);
            }
            i = i + 1;
        }
        proof {
            lemma_map_get_none(self.servers@, name@);
        }
        None
    }

    /// Resolves a server or reports the planner error for an unknown
    /// one.
    pub fn resolve(&self, name: &str) -> (r: Result<&McpServerConfig, EngineError>)
        ensures
            match r {
                Ok(c) => spec_map_get(self.servers@, name@) == Some(*c),
                Err(e) => spec_map_get(self.servers@, name@) is None && e is Plan,
            },
    {
        match self.get(name) {
            Some(c) => Ok(c),
            None => Err(
                EngineError::Plan(
                    String::from_str("not registered mcp server is used. Server: ").concat(name),
                ),
            ),
        }
    }
}

/// Folds a configuration list into a map.
pub open spec fn spec_insert_all(
    servers: Seq<McpServerConfig>,
    configs: Seq<McpServerConfig>,
) -> Seq<McpServerConfig>
    decreases configs.len(),
{
    if configs.len() == 0 {
        servers
    } else {
        spec_insert_all(spec_map_insert(servers, configs[0]), configs.drop_first())
    }
}

/// The map the configuration's server list denotes.
pub open spec fn spec_from_configs(configs: Seq<McpServerConfig>) -> Seq<McpServerConfig> {
    spec_insert_all(Seq::empty(), configs)
}

/// Replacement in place: when the first match sits at `i`, insertion
/// is an update at `i`.
proof fn lemma_map_insert_at(servers: Seq<McpServerConfig>, c: McpServerConfig, i: int)
    requires
        0 <= i < servers.len(),
        servers[i].name@ == c.name@,
        forall|m: int| 0 <= m < i ==> (#[trigger] servers[m]).name@ != c.name@,
    ensures
        spec_map_insert(servers, c) == servers.update(i, c),
    decreases i,
{
    if i == 0 {
        assert(spec_map_insert(servers, c) == seq![c] + servers.drop_first());
        assert(seq![c] + servers.drop_first() =~= servers.update(0, c));
    } else {
        assert(servers[0].name@ != c.name@);
        assert forall|m: int| 0 <= m < i - 1 implies (#[trigger] servers.drop_first()[m]).name@
            != c.name@ by {
            assert(servers.drop_first()[m] == servers[m + 1]);
        }
        lemma_map_insert_at(servers.drop_first(), c, i - 1);
        assert(seq![servers[0]] + servers.drop_first().update(i - 1, c) =~= servers.update(i, c));
    }
}

/// Appending: without a match, insertion is a push.
proof fn lemma_map_insert_append(servers: Seq<McpServerConfig>, c: McpServerConfig)
    requires
        forall|m: int| 0 <= m < servers.len() ==> (#[trigger] servers[m]).name@ != c.name@,
    ensures
        spec_map_insert(servers, c) == servers.push(c),
    decreases servers.len(),
{
    if servers.len() == 0 {
        assert(spec_map_insert(servers, c) =~= servers.push(c));
    } else {
        assert forall|m: int|
            0 <= m < servers.drop_first().len() implies (#[trigger] servers.drop_first()[m]).name@
            != c.name@ by {
            assert(servers.drop_first()[m] == servers[m + 1]);
        }
        lemma_map_insert_append(servers.drop_first(), c);
        assert(seq![servers[0]] + servers.drop_first().push(c) =~= servers.push(c));
    }
}

/// A lookup that stops at `i` found the first match.
proof fn lemma_map_get_at(servers: Seq<McpServerConfig>, name: Seq<char>, i: int)
    requires
        0 <= i < servers.len(),
        servers[i].name@ == name,
        forall|m: int| 0 <= m < i ==> (#[trigger] servers[m]).name@ != name,
    ensures
        spec_map_get(servers, name) == Some(servers[i]),
    decreases i,
{
    if i > 0 {
        assert forall|m: int| 0 <= m < i - 1 implies (#[trigger] servers.drop_first()[m]).name@
            != name by {
            assert(servers.drop_first()[m] == servers[m + 1]);
        }
        lemma_map_get_at(servers.drop_first(), name, i - 1);
    }
}

/// A lookup that matched nothing yields `None`.
proof fn lemma_map_get_none(servers: Seq<McpServerConfig>, name: Seq<char>)
    requires
        forall|m: int| 0 <= m < servers.len() ==> (#[trigger] servers[m]).name@ != name,
    ensures
        spec_map_get(servers, name) is None,
    decreases servers.len(),
{
    if servers.len() > 0 {
        assert forall|m: int|
            0 <= m < servers.drop_first().len() implies (#[trigger] servers.drop_first()[m]).name@
            != name by {
            assert(servers.drop_first()[m] == servers[m + 1]);
        }
        lemma_map_get_none(servers.drop_first(), name);
    }
}

// ---------------------------------------------------------------------------
// The transport-facing handles.
// ---------------------------------------------------------------------------
/// A session-scoped client for one server; the transport around it
/// spawns the process and speaks the protocol.
pub struct McpClient {
    pub config: Arc<McpServerConfig>,
}

impl McpClient {
    pub fn new(config: Arc<McpServerConfig>) -> (c: McpClient)
        ensures
            c.config == config,
    {
        McpClient { config }
    }
}

/// Accumulates the pages of one paginated `tools/list` exchange: pages
/// concatenate in server order, and the listing goes on exactly while
/// the server returns a cursor.
pub struct ListToolsSession {
    pub found_tools: Vec<ToolInfo>,
}

impl ListToolsSession {
    pub fn new() -> (s: ListToolsSession)
        ensures
            s.found_tools@ == Seq::<ToolInfo>::empty(),
    {
        ListToolsSession { found_tools: Vec::new() }
    }

    /// Absorbs one page and says which cursor to request next; `None`
    /// ends the listing.
    pub fn push_page(&mut self, tools: Vec<ToolInfo>, next_cursor: Option<String>) -> (r: Option<
        String,
    >)
        ensures
            final(self).found_tools@ == old(self).found_tools@ + tools@,
            r == next_cursor,
    {
        let ghost tools_in = tools@;
        let mut rest = tools;
        proof {
            assert(self.found_tools@ + rest@ =~= old(self).found_tools@ + tools_in);
        }
        while rest.len() > 0
            invariant
                self.found_tools@ + rest@ == old(self).found_tools@ + tools_in,
            decreases rest@.len(),
        {
            let ghost rest_pre = rest@;
            let ghost found_pre = self.found_tools@;
            let t = rest.remove(0);
            proof {
                assert(t == rest_pre[0]);
                assert(rest@ =~= rest_pre.drop_first());
            }
            self.found_tools.push(t);
            proof {
                assert(self.found_tools@ + rest@ =~= found_pre + rest_pre);
            }
        }
        proof {
            assert(self.found_tools@ + rest@ =~= self.found_tools@);
        }
        next_cursor
    }

    /// The accumulated tools, in page-concatenation order.
    pub fn finish(self) -> (r: Vec<ToolInfo>)
        ensures
            r == self.found_tools,
    {
        self.found_tools
    }
}

// ---------------------------------------------------------------------------
// Response normalization (the tool-call bridge's computing half).
// ---------------------------------------------------------------------------
/// Model of one content item of a tool call's result.
#[derive(Debug, Clone)]
pub enum ToolContent {
    /// A text item, the kind the bridge consumes.
    Text(String),
    /// Any other kind, as a rendering for messages.
    Other(String),
}

/// Picks the first content item and requires it to be text, as the
/// bridge does before parsing.
pub fn first_text_content(contents: Vec<ToolContent>, server_name: &str) -> (r: Result<
    String,
    EngineError,
>)
    ensures
        contents@.len() == 0 ==> (r matches Err(e) && e is Exec),
        contents@.len() > 0 ==> match contents@[0] {
            ToolContent::Text(t) => r == Ok::<String, EngineError>(t),
            ToolContent::Other(_) => r matches Err(e) && e is Exec,
        },
{
    let mut contents = contents;
    if contents.len() == 0 {
        return Err(
            EngineError::Exec(
                String::from_str("mcp-server(").concat(server_name).concat(
                    ") does not return text",
                ),
            ),
        );
    }
    match contents.remove(0) {
        ToolContent::Text(t) => Ok(t),
        ToolContent::Other(_) => Err(
            EngineError::Exec(
                String::from_str("mcp-server(").concat(server_name).concat(
                    ") does not return text",
                ),
            ),
        ),
    }
}

/// The bridge handle for one tool call against one server.
pub struct McpToolCaller {
    pub server_config: Arc<McpServerConfig>,
}

impl McpToolCaller {
    pub fn new(config: Arc<McpServerConfig>) -> (c: McpToolCaller)
        ensures
            c.server_config == config,
    {
        McpToolCaller { server_config: config }
    }

    /// Normalizes a tool's text response into table rows: the text
    /// must parse as JSON; an array yields its elements, an object a
    /// single row, anything else fails.
    pub fn to_values(&self, response_text: &str) -> (r: Result<Vec<JsonValue>, EngineError>)
        ensures
            match parsed_json(response_text@) {
                None => r matches Err(e) && e is Exec,
                Some(v) => {
                    &&& (v matches JsonValue::Array(a) ==> r == Ok::<
                        Vec<JsonValue>,
                        EngineError,
                    >(a))
                    &&& (v matches JsonValue::Object(_) ==> (r matches Ok(rows) && rows@ == seq![
                        v,
                    ]))
                    &&& (!(v is Array) && !(v is Object) ==> (r matches Err(e) && e is Exec))
                },
            },
    {
        let value = match parse_json(response_text) {
            Some(v) => v,
            None => {
                return Err(
                    EngineError::Exec(
                        String::from_str("mcp-server(").concat(
                            self.server_config.name.as_str(),
                        ).concat(") not return json."),
                    ),
                );
            },
        };
        normalize_rows(value, self.server_config.name.as_str())
    }
}

} // verus!
