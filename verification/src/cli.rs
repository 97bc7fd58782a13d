//! Command-line surface: input splitting and dispatch decisions.
//!
//! The REPL reads a line, decides whether it is a slash command or
//! SQL, splits SQL input into statements at semicolons outside of
//! quotes, and keeps reading while a statement is unfinished. Those
//! decisions are verified here; reading and printing stay outside.

use crate::text::{chars_vec, is_space_char, spec_trim, string_from_chars, trim_vec};
use vstd::prelude::*;

verus! {

/// The command-line arguments, after parsing.
#[derive(Debug, Clone)]
pub struct Cli {
    pub command: Option<Commands>,
    /// Path of the configuration file.
    pub config: String,
}

#[derive(Debug, Clone)]
pub enum Commands {
    /// Start the local server.
    Serve(ServeArgs),
    /// Start the interactive shell.
    Repl,
}

#[derive(Debug, Clone)]
pub struct ServeArgs {
    pub command: ServeCommands,
}

#[derive(Debug, Clone)]
pub enum ServeCommands {
    /// Start the MCP server.
    Mcp,
}

/// What `run_cli` starts for the given command.
#[derive(Debug, Clone, PartialEq, Eq, Structural)]
pub enum DispatchTarget {
    Repl,
    ServeMcp,
}

/// Decides what the command line starts: the REPL by default, the MCP
/// server under `serve mcp`.
pub fn dispatch(cli: &Cli) -> (r: DispatchTarget)
    ensures
        r == DispatchTarget::ServeMcp <==> (cli.command matches Some(Commands::Serve(_))),
{
    match &cli.command {
        Some(Commands::Serve(_)) => DispatchTarget::ServeMcp,
        Some(Commands::Repl) => DispatchTarget::Repl,
        None => DispatchTarget::Repl,
    }
}

// ---------------------------------------------------------------------------
// Splitting input into SQL statements.
// ---------------------------------------------------------------------------
/// The splitter cannot finish: a quote is still open at the end of the
/// input.
#[derive(Debug, Clone, PartialEq, Eq, Structural)]
pub enum InputErr {
    InComplete,
}

/// One step of the quote tracker: how `'` and `"` toggle the two
/// in-quote flags.
pub open spec fn spec_quote_step(c: char, in_s: bool, in_d: bool) -> (bool, bool) {
    if c == '\'' && !in_d {
        (!in_s, in_d)
    } else if c == '"' && !in_s {
        (in_s, !in_d)
    } else {
        (in_s, in_d)
    }
}

/// The splitter: statements end at semicolons outside of quotes; each
/// emitted statement is trimmed and gets its semicolon back; leftover
/// text becomes a final statement; input with an open quote fails.
pub open spec fn spec_split(
    s: Seq<char>,
    in_s: bool,
    in_d: bool,
    cur: Seq<char>,
    acc: Seq<Seq<char>>,
) -> Result<Seq<Seq<char>>, InputErr>
    decreases s.len(),
{
    if s.len() == 0 {
        if in_s || in_d {
            Err(InputErr::InComplete)
        } else {
            let rem = spec_trim(cur);
            if rem.len() > 0 {
                Ok(acc.push(rem + seq![';']))
            } else {
                Ok(acc)
            }
        }
    } else {
        let c = s[0];
        let q = spec_quote_step(c, in_s, in_d);
        if c == ';' && !q.0 && !q.1 {
            let sql = spec_trim(cur);
            if sql.len() > 0 {
                spec_split(s.drop_first(), q.0, q.1, Seq::empty(), acc.push(sql + seq![';']))
            } else {
                spec_split(s.drop_first(), q.0, q.1, cur, acc)
            }
        } else {
            spec_split(s.drop_first(), q.0, q.1, cur.push(c), acc)
        }
    }
}

/// Splits console input into SQL statements: semicolons outside of
/// single and double quotes end a statement; statements are trimmed
/// and re-terminated with `;`; trailing text forms a last statement;
/// an unclosed quote reports unfinished input.
#[verifier::loop_isolation(false)]
#[verifier::rlimit(100)]
#[verifier::spinoff_prover]
pub fn split_to_sqls(input: String) -> (r: Result<Vec<String>, InputErr>)
    ensures
        ({
            let spec_r = spec_split(input@, false, false, Seq::empty(), Seq::empty());
            match spec_r {
                Ok(sqls) => r matches Ok(v) && v@.len() == sqls.len() && (forall|i: int|
                    0 <= i < sqls.len() ==> (#[trigger] v@[i])@ == sqls[i]),
                Err(e) => r == Err::<Vec<String>, InputErr>(e),
            }
        }),
{
    let cs = chars_vec(input.as_str());
    let n = cs.len();
    let mut sqls: Vec<String> = Vec::new();
    let mut current: Vec<char> = Vec::new();
    let mut in_single = false;
    let mut in_double = false;
    let mut i: usize = 0;
    proof {
        reveal_strlit(";");
        assert(";"@ =~= seq![';']);
        assert(cs@.skip(0) =~= cs@);
        assert(sqls@.map_values(|x: String| x@) =~= Seq::<Seq<char>>::empty());
    }
    while i < n
        invariant
            0 <= i <= n,
            spec_split(cs@.skip(i as int), in_single, in_double, current@, sqls@.map_values(
                |x: String| x@,
            )) == spec_split(cs@, false, false, Seq::empty(), Seq::empty()),
        decreases n - i,
    {
        let ghost suff = cs@.skip(i as int);
        let ghost acc_pre = sqls@.map_values(|x: String| x@);
        let ghost cur_pre = current@;
        proof {
            reveal_strlit(";");
            assert(suff[0] == cs@[i as int]);
            assert(suff.drop_first() =~= cs@.skip(i as int + 1));
        }
        let c = cs[i];
        if c == '\'' && !in_double {
            in_single = !in_single;
        } else if c == '"' && !in_single {
            in_double = !in_double;
        }
        if c == ';' && !in_single && !in_double {
            let sql = trim_vec(&current);
            if sql.len() > 0 {
                let stmt = string_from_chars(&sql).concat(";");
                proof {
                    assert(stmt@ =~= spec_trim(cur_pre) + seq![';']);
                }
                sqls.push(stmt);
                current = Vec::new();
                proof {
                    assert(sqls@.map_values(|x: String| x@) =~= acc_pre.push(stmt@));
                    assert(current@ =~= Seq::<char>::empty());
                }
            }
        } else {
            current.push(c);
            proof {
                assert(current@ =~= cur_pre.push(cs@[i as int]));
            }
        }
        i = i + 1;
    }
    if in_double || in_single {
        proof {
            assert(cs@.skip(n as int).len() == 0);
        }
        return Err(InputErr::InComplete);
    }
    let remaining = trim_vec(&current);
    if remaining.len() > 0 {
        let stmt = string_from_chars(&remaining).concat(";");
        proof {
            reveal_strlit(";");
            assert(stmt@ =~= spec_trim(current@) + seq![';']);
            assert(cs@.skip(n as int).len() == 0);
            assert(sqls@.push(stmt).map_values(|x: String| x@) =~= sqls@.map_values(
                |x: String| x@,
            ).push(stmt@));
        }
        sqls.push(stmt);
    } else {
        proof {
            assert(cs@.skip(n as int).len() == 0);
        }
    }
    proof {
        assert forall|i2: int|
            0 <= i2 < sqls@.len() implies (#[trigger] sqls@[i2])@ == sqls@.map_values(
            |x: String| x@,
        )[i2] by {}
    }
    Ok(sqls)
}

// ---------------------------------------------------------------------------
// The `/ask` command.
// ---------------------------------------------------------------------------
/// The length of the leading run of whitespace.
pub open spec fn space_run(s: Seq<char>) -> nat
    decreases s.len(),
{
    if s.len() == 0 || !is_space_char(s[0]) {
        0
    } else {
        1 + space_run(s.drop_first())
    }
}

/// The length of the leading run of characters before a line break.
pub open spec fn line_run(s: Seq<char>) -> nat
    decreases s.len(),
{
    if s.len() == 0 || s[0] == '\n' {
        0
    } else {
        1 + line_run(s.drop_first())
    }
}

proof fn lemma_space_run_is(s: Seq<char>, k: int)
    requires
        0 <= k <= s.len(),
        forall|m: int| 0 <= m < k ==> is_space_char(s[m]),
        k < s.len() ==> !is_space_char(s[k]),
    ensures
        space_run(s) == k,
    decreases k,
{
    if k > 0 {
        lemma_space_run_is(s.drop_first(), k - 1);
    }
}

proof fn lemma_line_run_is(s: Seq<char>, k: int)
    requires
        0 <= k <= s.len(),
        forall|m: int| 0 <= m < k ==> s[m] != '\n',
        k < s.len() ==> s[k] == '\n',
    ensures
        line_run(s) == k,
    decreases k,
{
    if k > 0 {
        lemma_line_run_is(s.drop_first(), k - 1);
    }
}

/// The question an `/ask` line carries: the line must start with
/// `/ask`, then at least one whitespace character; the question runs
/// from the first non-whitespace character to the end of that line,
/// and must be nonempty.
pub open spec fn spec_ask_question(s: Seq<char>) -> Option<Seq<char>> {
    if s.len() >= 5 && s.subrange(0, 4) == "/ask"@ && space_run(s.skip(4)) >= 1 {
        let k = 4 + space_run(s.skip(4)) as int;
        if k < s.len() {
            Some(s.subrange(k, k + line_run(s.skip(k)) as int))
        } else {
            None
        }
    } else {
        None
    }
}

/// Parses an `/ask <question>` line, per `spec_ask_question`.
#[verifier::loop_isolation(false)]
pub fn parse_ask_command(line: &str) -> (r: Option<String>)
    ensures
        match r {
            Some(q) => spec_ask_question(line@) matches Some(sq) && q@ == sq,
            None => spec_ask_question(line@) is None,
        },
{
    let cs = chars_vec(line);
    let n = cs.len();
    proof {
        reveal_strlit("/ask");
    }
    if n < 5 {
        return None;
    }
    let prefix = crate::text::subvec(&cs, 0, 4);
    let ask = chars_vec("/ask");
    if !crate::text::chars_eq(&prefix, &ask) {
        return None;
    }
    let mut k: usize = 4;
    while k < n && crate::text::is_space(cs[k])
        invariant
            4 <= k <= n,
            forall|m: int| 4 <= m < k ==> is_space_char(cs@[m]),
        decreases n - k,
    {
        k = k + 1;
    }
    proof {
        assert forall|m: int| 0 <= m < k - 4 implies is_space_char(#[trigger] cs@.skip(4)[m]) by {
            assert(cs@.skip(4)[m] == cs@[4 + m]);
        }
        if k < n {
            assert(cs@.skip(4)[k - 4] == cs@[k as int]);
        }
        lemma_space_run_is(cs@.skip(4), k - 4);
    }
    if k == 4 {
        return None;
    }
    if k >= n {
        return None;
    }
    let mut e: usize = k;
    while e < n && cs[e] != '\n'
        invariant
            k <= e <= n,
            forall|m: int| k <= m < e ==> cs@[m] != '\n',
        decreases n - e,
    {
        e = e + 1;
    }
    proof {
        assert forall|m: int| 0 <= m < e - k implies #[trigger] cs@.skip(k as int)[m] != '\n' by {
            assert(cs@.skip(k as int)[m] == cs@[k + m]);
        }
        if e < n {
            assert(cs@.skip(k as int)[e - k] == cs@[e as int]);
        }
        lemma_line_run_is(cs@.skip(k as int), e - k);
    }
    let q = crate::text::subvec(&cs, k, e);
    Some(string_from_chars(&q))
}

// ---------------------------------------------------------------------------
// The REPL input validator.
// ---------------------------------------------------------------------------
/// Whether a line of console input is complete.
#[derive(Debug, Clone, PartialEq, Eq, Structural)]
pub enum ValidationVerdict {
    Complete,
    Incomplete,
}

/// Judges whether a line of console input is complete.
#[derive(Debug, Clone)]
pub struct ReplValidator {}

impl ReplValidator {
    /// A slash command is always complete; SQL is complete when it
    /// ends with `;` (after trimming) and splits without an open
    /// quote; anything else waits for more input.
    pub fn validate(&self, line: &str) -> (r: ValidationVerdict)
        ensures
            ({
                let s = line@;
                let t = spec_trim(s);
                if s.len() > 0 && s[0] == '/' {
                    r == ValidationVerdict::Complete
                } else if t.len() > 0 && t.last() == ';' {
                    r == ValidationVerdict::Complete <==> spec_split(
                        s,
                        false,
                        false,
                        Seq::empty(),
                        Seq::empty(),
                    ) is Ok
                } else {
                    r == ValidationVerdict::Incomplete
                }
            }),
    {
        let cs = chars_vec(line);
        if cs.len() > 0 && cs[0] == '/' {
            return ValidationVerdict::Complete;
        }
        let t = trim_vec(&cs);
        if t.len() > 0 && t[t.len() - 1] == ';' {
            match split_to_sqls(line.to_owned()) {
                Ok(_) => ValidationVerdict::Complete,
                Err(InputErr::InComplete) => ValidationVerdict::Incomplete,
            }
        } else {
            ValidationVerdict::Incomplete
        }
    }
}

} // verus!
