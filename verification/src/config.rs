//! Configuration model.
//!
//! The configuration file names the MCP servers to launch, the chat
//! budget and the API token. Before the file's text is decoded, every
//! `${VAR}` occurrence is replaced by the value of the variable `VAR`
//! (an absent variable becomes the empty string). The replacement is
//! verified here against a recursive specification; the caller supplies
//! the variable values, so no environment access happens in the core.
//! Variable names are runs of ASCII letters, digits and underscores.

use crate::text::{chars_vec, string_from_chars};
use vstd::prelude::*;

verus! {

/// Launch descriptor of one MCP server. Immutable after load.
#[derive(Debug, Clone)]
pub struct McpServerConfig {
    /// Unique across the configuration.
    pub name: String,
    pub command: String,
    pub args: Vec<String>,
    /// Environment entries handed to the child process, in file order.
    pub env: Vec<(String, String)>,
}

impl McpServerConfig {
    pub fn new(name: String, command: String, args: Vec<String>, env: Vec<(String, String)>) -> (c:
        McpServerConfig)
        ensures
            c.name == name,
            c.command == command,
            c.args == args,
            c.env == env,
    {
        McpServerConfig { name, command, args, env }
    }
}

/// The development switches.
#[derive(Debug, Clone)]
pub struct DevConfig {
    pub use_mock: bool,
}

impl Default for DevConfig {
    fn default() -> (c: DevConfig)
        ensures
            c.use_mock == false,
    {
        DevConfig { use_mock: false }
    }
}

/// The loaded configuration.
#[derive(Debug, Clone)]
pub struct Config {
    pub mcp_servers: Vec<McpServerConfig>,
    pub max_prompt_count: usize,
    pub claude_token: String,
    pub dev: DevConfig,
}

/// The chat budget used when the file does not set one.
pub fn default_max_prompt_count() -> (r: usize)
    ensures
        r == 10,
{
    10
}

impl Default for Config {
    fn default() -> (c: Config)
        ensures
            c.mcp_servers@ == Seq::<McpServerConfig>::empty(),
            c.max_prompt_count == 10,
            c.claude_token@ == Seq::<char>::empty(),
            c.dev.use_mock == false,
    {
        Config {
            mcp_servers: Vec::new(),
            max_prompt_count: default_max_prompt_count(),
            claude_token: String::new(),
            dev: DevConfig::default(),
        }
    }
}

// ---------------------------------------------------------------------------
// `${VAR}` substitution.
// ---------------------------------------------------------------------------
/// An ASCII word character: a letter, a digit or an underscore. The
/// restriction to ASCII is deliberate: variable names in configuration
/// templates are plain identifiers, and the substitution's grammar is
/// kept small enough to state exactly.
pub open spec fn is_word_char(c: char) -> bool {
    let u = c as u32;
    (0x41 <= u && u <= 0x5a) || (0x61 <= u && u <= 0x7a) || (0x30 <= u && u <= 0x39) || u == 0x5f
}

/// Decides `is_word_char` executably.
pub fn word_char(c: char) -> (r: bool)
    ensures
        r == is_word_char(c),
{
    let u = c as u32;
    (0x41 <= u && u <= 0x5a) || (0x61 <= u && u <= 0x7a) || (0x30 <= u && u <= 0x39) || u == 0x5f
}

/// The length of the leading run of word characters.
pub open spec fn word_run(s: Seq<char>) -> nat
    decreases s.len(),
{
    if s.len() == 0 || !is_word_char(s[0]) {
        0
    } else {
        1 + word_run(s.drop_first())
    }
}

/// A run of `k` word characters followed by a non-word boundary is the
/// leading word run.
proof fn lemma_word_run_is(s: Seq<char>, k: int)
    requires
        0 <= k <= s.len(),
        forall|m: int| 0 <= m < k ==> is_word_char(s[m]),
        k < s.len() ==> !is_word_char(s[k]),
    ensures
        word_run(s) == k,
    decreases k,
{
    if k == 0 {
    } else {
        assert(is_word_char(s[0]));
        lemma_word_run_is(s.drop_first(), k - 1);
    }
}

/// The value of the first variable whose name matches; absent names
/// give the empty string.
pub open spec fn spec_lookup(vars: Seq<(String, String)>, name: Seq<char>) -> Seq<char>
    decreases vars.len(),
{
    if vars.len() == 0 {
        Seq::empty()
    } else if vars[0].0@ == name {
        vars[0].1@
    } else {
        spec_lookup(vars.drop_first(), name)
    }
}

/// A prefix without a matching name does not change the lookup.
proof fn lemma_lookup_skip(vars: Seq<(String, String)>, name: Seq<char>, i: int)
    requires
        0 <= i <= vars.len(),
        forall|m: int| 0 <= m < i ==> (#[trigger] vars[m]).0@ != name,
    ensures
        spec_lookup(vars, name) == spec_lookup(vars.skip(i), name),
    decreases i,
{
    if i > 0 {
        assert(vars[0].0@ != name);
        assert forall|m: int| 0 <= m < i - 1 implies (#[trigger] vars.drop_first()[m]).0@
            != name by {
            assert(vars.drop_first()[m] == vars[m + 1]);
        }
        lemma_lookup_skip(vars.drop_first(), name, i - 1);
        assert(vars.drop_first().skip(i - 1) =~= vars.skip(i));
    } else {
        assert(vars.skip(0) =~= vars);
    }
}

/// The text with every `${VAR}` replaced by the variable's value.
pub open spec fn spec_subst(s: Seq<char>, vars: Seq<(String, String)>) -> Seq<char>
    decreases s.len(),
{
    if s.len() == 0 {
        s
    } else if s.len() >= 4 && s[0] == '$' && s[1] == '{' && word_run(s.skip(2)) >= 1 && 2
        + word_run(s.skip(2)) < s.len() && s[2 + word_run(s.skip(2)) as int] == '}' {
        let w = word_run(s.skip(2)) as int;
        spec_lookup(vars, s.subrange(2, 2 + w)) + spec_subst(s.skip(3 + w), vars)
    } else {
        seq![s[0]] + spec_subst(s.drop_first(), vars)
    }
}

/// Looks a variable up among the supplied pairs.
fn lookup_var(vars: &Vec<(String, String)>, name: &String) -> (r: Vec<char>)
    ensures
        r@ == spec_lookup(vars@, name@),
{
    let mut i: usize = 0;
    while i < vars.len()
        invariant
            0 <= i <= vars@.len(),
            forall|m: int| 0 <= m < i ==> (#[trigger] vars@[m]).0@ != name@,
        decreases vars@.len() - i,
    {
        if crate::text::str_eq(vars[i].0.as_str(), name.as_str()) {
            proof {
                lemma_lookup_skip(vars@, name@, i as int);
                assert(vars@.skip(i as int)[0] == vars@[i as int]);
                assert(vars@.skip(i as int).len() > 0);
            }
            return chars_vec(vars[i].1.as_str());
        }
        i = i + 1;
    }
    proof {
        lemma_lookup_skip(vars@, name@, i as int);
    }
    Vec::new()
}

/// Replaces every `${VAR}` in `content` by the supplied value of
/// `VAR`; a variable without a supplied value becomes empty.
#[verifier::loop_isolation(false)]
#[verifier::rlimit(100)]
#[verifier::spinoff_prover]
pub fn substitute_vars(content: &str, vars: &Vec<(String, String)>) -> (r: String)
    ensures
        r@ == spec_subst(content@, vars@),
{
    let cs = chars_vec(content);
    let n = cs.len();
    let mut out: Vec<char> = Vec::new();
    let mut i: usize = 0;
    proof {
        assert(cs@.skip(0) =~= cs@);
        assert(out@ + spec_subst(cs@, vars@) =~= spec_subst(cs@, vars@));
    }
    while i < n
        invariant
            0 <= i <= n,
            out@ + spec_subst(cs@.skip(i as int), vars@) == spec_subst(cs@, vars@),
        decreases n - i,
    {
        let ghost pre = out@;
        let ghost suff = cs@.skip(i as int);
        if cs[i] == '$' && i + 1 < n && cs[i + 1] == '{' {
            // measure the word run after "${"
            let mut k: usize = i + 2;
            while k < n && word_char(cs[k])
                invariant
                    i + 2 <= k <= n,
                    forall|m: int| i + 2 <= m < k ==> is_word_char(cs@[m]),
                decreases n - k,
            {
                k = k + 1;
            }
            proof {
                assert forall|m: int| 0 <= m < k - (i + 2) implies is_word_char(
                    #[trigger] suff.skip(2)[m],
                ) by {
                    assert(suff.skip(2)[m] == cs@[i + 2 + m]);
                }
                if k < n {
                    assert(suff.skip(2)[k - (i + 2)] == cs@[k as int]);
                }
                lemma_word_run_is(suff.skip(2), k - (i + 2));
            }
            if k > i + 2 && k < n && cs[k] == '}' {
                let name = string_from_chars(&crate::text::subvec(&cs, i + 2, k));
                let val = lookup_var(vars, &name);
                let mut m: usize = 0;
                while m < val.len()
                    invariant
                        0 <= m <= val@.len(),
                        out@ == pre + val@.subrange(0, m as int),
                    decreases val@.len() - m,
                {
                    out.push(val[m]);
                    m = m + 1;
                    proof {
                        assert(pre + val@.subrange(0, m as int) =~= (pre + val@.subrange(
                            0,
                            m - 1,
                        )).push(val@[m - 1]));
                    }
                }
                proof {
                    let w = word_run(suff.skip(2)) as int;
                    assert(w == k - (i + 2));
                    assert(suff.subrange(2, 2 + w) =~= cs@.subrange(i + 2, k as int));
                    assert(suff.skip(3 + w) =~= cs@.skip(k + 1));
                    assert(val@.subrange(0, val@.len() as int) =~= val@);
                    assert(out@ =~= pre + val@);
                    assert(spec_subst(suff, vars@) == val@ + spec_subst(cs@.skip(k + 1), vars@));
                }
                i = k + 1;
            } else {
                proof {
                    assert(spec_subst(suff, vars@) == seq![suff[0]] + spec_subst(
                        suff.drop_first(),
                        vars@,
                    ));
                    assert(suff.drop_first() =~= cs@.skip(i + 1));
                    assert(suff[0] == cs@[i as int]);
                }
                out.push(cs[i]);
                proof {
                    assert(out@ =~= pre.push(cs@[i as int]));
                    assert(pre.push(cs@[i as int]) =~= pre + seq![cs@[i as int]]);
                }
                i = i + 1;
            }
        } else {
            proof {
                if suff.len() >= 4 && suff[0] == '$' && suff[1] == '{' {
                    assert(suff[1] == cs@[i + 1]);
                }
                assert(spec_subst(suff, vars@) == seq![suff[0]] + spec_subst(
                    suff.drop_first(),
                    vars@,
                ));
                assert(suff.drop_first() =~= cs@.skip(i + 1));
                assert(suff[0] == cs@[i as int]);
            }
            out.push(cs[i]);
            proof {
                assert(out@ =~= pre.push(cs@[i as int]));
                assert(pre.push(cs@[i as int]) =~= pre + seq![cs@[i as int]]);
            }
            i = i + 1;
        }
    }
    proof {
        assert(cs@.skip(n as int).len() == 0);
        assert(out@ =~= spec_subst(cs@, vars@));
    }
    string_from_chars(&out)
}

/// The variable names that `spec_subst` would look up, in order of
/// occurrence.
pub open spec fn spec_var_names(s: Seq<char>) -> Seq<Seq<char>>
    decreases s.len(),
{
    if s.len() == 0 {
        Seq::empty()
    } else if s.len() >= 4 && s[0] == '$' && s[1] == '{' && word_run(s.skip(2)) >= 1 && 2
        + word_run(s.skip(2)) < s.len() && s[2 + word_run(s.skip(2)) as int] == '}' {
        let w = word_run(s.skip(2)) as int;
        seq![s.subrange(2, 2 + w)] + spec_var_names(s.skip(3 + w))
    } else {
        spec_var_names(s.drop_first())
    }
}

/// The variable names that occur in the text, in order of occurrence,
/// so that a caller can fetch their values before substituting.
#[verifier::loop_isolation(false)]
#[verifier::rlimit(100)]
#[verifier::spinoff_prover]
pub fn template_var_names(content: &str) -> (r: Vec<String>)
    ensures
        r@.len() == spec_var_names(content@).len(),
        forall|m: int|
            0 <= m < r@.len() ==> (#[trigger] r@[m])@ == spec_var_names(content@)[m],
{
    let cs = chars_vec(content);
    let n = cs.len();
    let mut out: Vec<String> = Vec::new();
    let mut i: usize = 0;
    proof {
        assert(cs@.skip(0) =~= cs@);
        assert(out@.map_values(|x: String| x@) + spec_var_names(cs@) =~= spec_var_names(cs@));
    }
    while i < n
        invariant
            0 <= i <= n,
            out@.map_values(|x: String| x@) + spec_var_names(cs@.skip(i as int))
                =~= spec_var_names(cs@),
        decreases n - i,
    {
        let ghost pre = out@.map_values(|x: String| x@);
        let ghost suff = cs@.skip(i as int);
        if cs[i] == '$' && i + 1 < n && cs[i + 1] == '{' {
            let mut k: usize = i + 2;
            while k < n && word_char(cs[k])
                invariant
                    i + 2 <= k <= n,
                    forall|m: int| i + 2 <= m < k ==> is_word_char(cs@[m]),
                decreases n - k,
            {
                k = k + 1;
            }
            proof {
                assert forall|m: int| 0 <= m < k - (i + 2) implies is_word_char(
                    #[trigger] suff.skip(2)[m],
                ) by {
                    assert(suff.skip(2)[m] == cs@[i + 2 + m]);
                }
                if k < n {
                    assert(suff.skip(2)[k - (i + 2)] == cs@[k as int]);
                }
                lemma_word_run_is(suff.skip(2), k - (i + 2));
            }
            if k > i + 2 && k < n && cs[k] == '}' {
                let name = string_from_chars(&crate::text::subvec(&cs, i + 2, k));
                out.push(name);
                proof {
                    let w = word_run(suff.skip(2)) as int;
                    assert(w == k - (i + 2));
                    assert(suff.subrange(2, 2 + w) =~= cs@.subrange(i + 2, k as int));
                    assert(suff.skip(3 + w) =~= cs@.skip(k + 1));
                    assert(out@.map_values(|x: String| x@) =~= pre + seq![
                        cs@.subrange(i + 2, k as int),
                    ]);
                    assert(spec_var_names(suff) == seq![suff.subrange(2, 2 + w)]
                        + spec_var_names(cs@.skip(k + 1)));
                }
                i = k + 1;
            } else {
                proof {
                    assert(spec_var_names(suff) == spec_var_names(suff.drop_first()));
                    assert(suff.drop_first() =~= cs@.skip(i + 1));
                }
                i = i + 1;
            }
        } else {
            proof {
                if suff.len() >= 4 && suff[0] == '$' && suff[1] == '{' {
                    assert(suff[1] == cs@[i + 1]);
                }
                assert(spec_var_names(suff) == spec_var_names(suff.drop_first()));
                assert(suff.drop_first() =~= cs@.skip(i + 1));
            }
            i = i + 1;
        }
    }
    proof {
        assert(cs@.skip(n as int).len() == 0);
        assert forall|m: int| 0 <= m < out@.len() implies (#[trigger] out@[m])@
            == spec_var_names(content@)[m] by {
            assert(out@.map_values(|x: String| x@)[m] == out@[m]@);
        }
    }
    out
}

} // verus!
