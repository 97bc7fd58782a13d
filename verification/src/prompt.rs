//! Building the agent's system prompt.
//!
//! The prompt template carries a placeholder that is replaced by one
//! block per discovered tool: server name, tool name and description,
//! with a multi-line description wrapped in `<desc>` tags. The caller
//! supplies the template text; the assembly is verified here.

use crate::repo::McpTool;
use crate::text::{chars_vec, matches_at, occurs_at, string_from_chars};
use vstd::prelude::*;

verus! {

use vstd::string::StringExecFns;

/// The placeholder the template carries for the tool list.
pub fn tool_prompt_marker() -> (r: &'static str)
    ensures
        r@ == "{AVAILABLE_MCP_TOOL_PROMPT}"@,
{
    "{AVAILABLE_MCP_TOOL_PROMPT}"
}

/// The description holds a line break.
pub open spec fn has_newline(d: Seq<char>) -> bool {
    exists|k: int| 0 <= k < d.len() && d[k] == '\n'
}

/// A multi-line description is wrapped in `<desc>` tags.
pub open spec fn spec_desc_text(d: Seq<char>) -> Seq<char> {
    if has_newline(d) {
        "<desc>"@ + d + "</desc>"@
    } else {
        d
    }
}

/// The prompt block of one tool.
pub open spec fn spec_tool_line(t: McpTool) -> Seq<char> {
    "- Server name: "@ + t.server_name@ + "\nTool name: "@ + t.tool_name@ + "\nDescription: "@
        + spec_desc_text(t.description@)
}

/// The tool blocks joined by line breaks.
pub open spec fn spec_tool_prompt(ts: Seq<McpTool>) -> Seq<char>
    decreases ts.len(),
{
    if ts.len() == 0 {
        Seq::empty()
    } else if ts.len() == 1 {
        spec_tool_line(ts[0])
    } else {
        spec_tool_line(ts[0]) + seq!['\n'] + spec_tool_prompt(ts.drop_first())
    }
}

/// Replacement of every non-overlapping occurrence of `pat`, left to
/// right, as `str::replace` does.
pub open spec fn spec_replace(s: Seq<char>, pat: Seq<char>, rep: Seq<char>) -> Seq<char>
    decreases s.len(),
{
    if s.len() == 0 {
        s
    } else if pat.len() >= 1 && occurs_at(s, pat, 0) {
        rep + spec_replace(s.skip(pat.len() as int), pat, rep)
    } else {
        seq![s[0]] + spec_replace(s.drop_first(), pat, rep)
    }
}

/// The system prompt: the template with the placeholder replaced by
/// the tool blocks.
pub open spec fn spec_system_prompt(template: Seq<char>, ts: Seq<McpTool>) -> Seq<char> {
    spec_replace(template, "{AVAILABLE_MCP_TOOL_PROMPT}"@, spec_tool_prompt(ts))
}

/// Does the description hold a line break?
fn contains_newline(d: &String) -> (r: bool)
    ensures
        r == has_newline(d@),
{
    let cs = chars_vec(d.as_str());
    let mut i: usize = 0;
    while i < cs.len()
        invariant
            0 <= i <= cs@.len(),
            cs@ == d@,
            forall|k: int| 0 <= k < i ==> cs@[k] != '\n',
        decreases cs@.len() - i,
    {
        if cs[i] == '\n' {
            return true;
        }
        i = i + 1;
    }
    false
}

/// Renders one tool's description for the prompt.
fn desc_text(d: &String) -> (r: String)
    ensures
        r@ == spec_desc_text(d@),
{
    if contains_newline(d) {
        let r = String::from_str("<desc>").concat(d.as_str()).concat("</desc>");
        proof {
            assert(r@ =~= "<desc>"@ + d@ + "</desc>"@);
        }
        r
    } else {
        d.clone()
    }
}

/// Renders one tool's prompt block.
fn tool_line(t: &McpTool) -> (r: String)
    ensures
        r@ == spec_tool_line(*t),
{
    let r = String::from_str("- Server name: ").concat(t.server_name.as_str()).concat(
        "\nTool name: ",
    ).concat(t.tool_name.as_str()).concat("\nDescription: ").concat(
        desc_text(&t.description).as_str(),
    );
    proof {
        assert(r@ =~= spec_tool_line(*t));
    }
    r
}

/// Appending one more tool extends the joined blocks by a line break
/// and its block.
proof fn lemma_tool_prompt_snoc(ts: Seq<McpTool>, t: McpTool)
    requires
        ts.len() >= 1,
    ensures
        spec_tool_prompt(ts.push(t)) == spec_tool_prompt(ts) + seq!['\n'] + spec_tool_line(t),
    decreases ts.len(),
{
    if ts.len() == 1 {
        assert(ts.push(t)[0] == ts[0]);
        assert(ts.push(t).drop_first() =~= seq![t]);
        assert(spec_tool_prompt(seq![t]) == spec_tool_line(t));
    } else {
        assert(ts.push(t).drop_first() =~= ts.drop_first().push(t));
        lemma_tool_prompt_snoc(ts.drop_first(), t);
        assert(spec_tool_prompt(ts.push(t)) == spec_tool_line(ts[0]) + seq!['\n'] + (
        spec_tool_prompt(ts.drop_first()) + seq!['\n'] + spec_tool_line(t)));
        assert(spec_tool_line(ts[0]) + seq!['\n'] + (spec_tool_prompt(ts.drop_first())
            + seq!['\n'] + spec_tool_line(t)) =~= (spec_tool_line(ts[0]) + seq!['\n']
            + spec_tool_prompt(ts.drop_first())) + seq!['\n'] + spec_tool_line(t));
    }
}

/// Joins the tool blocks with line breaks.
#[verifier::loop_isolation(false)]
fn tool_prompt(tools: &Vec<McpTool>) -> (r: String)
    ensures
        r@ == spec_tool_prompt(tools@),
{
    let mut acc = String::new();
    let mut i: usize = 0;
    while i < tools.len()
        invariant
            0 <= i <= tools@.len(),
            acc@ == spec_tool_prompt(tools@.take(i as int)),
        decreases tools@.len() - i,
    {
        let line = tool_line(&tools[i]);
        if i == 0 {
            acc = line;
            proof {
                assert(tools@.take(1)[0] == tools@[0]);
                assert(spec_tool_prompt(tools@.take(1)) == spec_tool_line(tools@[0]));
            }
        } else {
            acc = acc.concat("\n").concat(line.as_str());
            proof {
                reveal_strlit("\n");
                assert("\n"@ =~= seq!['\n']);
                assert(tools@.take(i as int + 1) =~= tools@.take(i as int).push(tools@[i as int]));
                lemma_tool_prompt_snoc(tools@.take(i as int), tools@[i as int]);
                assert(acc@ =~= spec_tool_prompt(tools@.take(i as int)) + seq!['\n']
                    + spec_tool_line(tools@[i as int]));
            }
        }
        i = i + 1;
    }
    proof {
        assert(tools@.take(tools@.len() as int) =~= tools@);
    }
    acc
}

/// Replaces every occurrence of `pat` by `rep`, left to right.
#[verifier::loop_isolation(false)]
#[verifier::rlimit(100)]
#[verifier::spinoff_prover]
fn replace_all(s: &Vec<char>, pat: &Vec<char>, rep: &Vec<char>) -> (r: Vec<char>)
    requires
        pat@.len() >= 1,
    ensures
        r@ == spec_replace(s@, pat@, rep@),
{
    let n = s.len();
    let m = pat.len();
    let mut out: Vec<char> = Vec::new();
    let mut i: usize = 0;
    proof {
        assert(s@.skip(0) =~= s@);
        assert(out@ + spec_replace(s@, pat@, rep@) =~= spec_replace(s@, pat@, rep@));
    }
    while i < n
        invariant
            0 <= i <= n,
            out@ + spec_replace(s@.skip(i as int), pat@, rep@) == spec_replace(s@, pat@, rep@),
        decreases n - i,
    {
        let ghost suff = s@.skip(i as int);
        let ghost pre = out@;
        proof {
            assert(suff[0] == s@[i as int]);
            assert(suff.drop_first() =~= s@.skip(i as int + 1));
        }
        if m <= n - i && matches_at(s, pat, i) {
            proof {
                assert(suff.subrange(0, m as int) =~= s@.subrange(i as int, i + m));
                assert(occurs_at(suff, pat@, 0));
                assert(suff.skip(m as int) =~= s@.skip(i as int + m));
            }
            let mut k: usize = 0;
            while k < rep.len()
                invariant
                    0 <= k <= rep@.len(),
                    out@ == pre + rep@.subrange(0, k as int),
                decreases rep@.len() - k,
            {
                out.push(rep[k]);
                k = k + 1;
                proof {
                    assert(pre + rep@.subrange(0, k as int) =~= (pre + rep@.subrange(
                        0,
                        k - 1,
                    )).push(rep@[k - 1]));
                }
            }
            proof {
                assert(rep@.subrange(0, rep@.len() as int) =~= rep@);
                assert(out@ =~= pre + rep@);
            }
            i = i + m;
        } else {
            proof {
                if pat@.len() >= 1 && occurs_at(suff, pat@, 0) {
                    assert(i + m <= n);
                    assert(s@.subrange(i as int, i + m) =~= suff.subrange(0, m as int));
                    assert(occurs_at(s@, pat@, i as int));
                }
            }
            out.push(s[i]);
            proof {
                assert(out@ =~= pre + seq![s@[i as int]]);
            }
            i = i + 1;
        }
    }
    proof {
        assert(s@.skip(n as int).len() == 0);
        assert(out@ =~= spec_replace(s@, pat@, rep@));
    }
    out
}

/// Builds the system prompt from the template and the discovered
/// tools.
pub fn build_system_prompt(template: &str, tools: &Vec<McpTool>) -> (r: String)
    ensures
        r@ == spec_system_prompt(template@, tools@),
{
    let tp = tool_prompt(tools);
    let tcs = chars_vec(template);
    let marker = chars_vec(tool_prompt_marker());
    let rep = chars_vec(tp.as_str());
    proof {
        reveal_strlit("{AVAILABLE_MCP_TOOL_PROMPT}");
    }
    let out = replace_all(&tcs, &marker, &rep);
    string_from_chars(&out)
}

} // verus!
