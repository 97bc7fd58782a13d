//! The tagged-response parser.
//!
//! The LLM answers with text interleaving free prose, `<thinking>…</thinking>`
//! spans, and exactly one terminal tool among
//! `<run_query><query>…</query></run_query>` and
//! `<attempt_completion><query>…</query></attempt_completion>`.
//! `Response::parse` tokenizes the text left to right into an ordered list
//! of content items and derives the next agent state from the first
//! terminal item; a response without a terminal item is rejected.
//!
//! The tokenization is specified by `spec_items`, a recursive function on
//! character sequences, and the executable parser is proved to produce
//! exactly that item list.

use crate::agent_error::AgentError;
use crate::state::{AttemptCompletionState, RunQueryState, State};
use crate::text::{
    chars_eq, chars_vec, find_from, occurs_at, occurs_from, spec_trim, spec_trim_start,
    string_from_chars, subvec, trim_start_vec, trim_vec,
};
use vstd::prelude::*;

verus! {

use vstd::string::StringExecFns;

/// One parsed unit of the LLM's answer.
#[derive(Debug, Clone)]
pub enum ResponseContent {
    Raw(RawText),
    Thinking(ThinkingText),
    RunQuery(RunQueryTool),
    AttemptCompletion(AttemptCompletionTool),
}

/// Prose kept verbatim (or a span whose tag the parser does not know).
#[derive(Debug, Clone)]
pub struct RawText {
    pub text: String,
}

/// The payload of a `<thinking>` span.
#[derive(Debug, Clone)]
pub struct ThinkingText {
    pub text: String,
}

/// The query of a `<run_query>` tool call.
#[derive(Debug, Clone)]
pub struct RunQueryTool {
    pub query: String,
}

/// The query of an `<attempt_completion>` tool call.
#[derive(Debug, Clone)]
pub struct AttemptCompletionTool {
    pub query: String,
}

/// The mathematical value of one parsed item.
pub enum Piece {
    Raw(Seq<char>),
    Thinking(Seq<char>),
    RunQuery(Seq<char>),
    AttemptCompletion(Seq<char>),
}

impl View for ResponseContent {
    type V = Piece;

    open spec fn view(&self) -> Piece {
        match self {
            ResponseContent::Raw(t) => Piece::Raw(t.text@),
            ResponseContent::Thinking(t) => Piece::Thinking(t.text@),
            ResponseContent::RunQuery(t) => Piece::RunQuery(t.query@),
            ResponseContent::AttemptCompletion(t) => Piece::AttemptCompletion(t.query@),
        }
    }
}

// ---------------------------------------------------------------------------
// Opening tags.
// ---------------------------------------------------------------------------
/// `s[i..j]` is an opening tag `<NAME>`: it starts with `<`, ends with
/// `>`, and `NAME` is nonempty and free of `/` and `>`.
pub open spec fn tag_open_at(s: Seq<char>, i: int, j: int) -> bool {
    &&& 0 <= i
    &&& i + 2 < j <= s.len()
    &&& s[i] == '<'
    &&& s[j - 1] == '>'
    &&& forall|k: int| i < k < j - 1 ==> s[k] != '/' && s[k] != '>'
}

/// An opening tag starts at `i`.
pub open spec fn tag_at(s: Seq<char>, i: int) -> bool {
    exists|j: int| tag_open_at(s, i, j)
}

/// Some opening tag occurs in `s`.
pub open spec fn has_tag(s: Seq<char>) -> bool {
    exists|i: int| tag_at(s, i)
}

/// The leftmost opening tag of `s`, as start and one-past-end positions.
pub open spec fn first_tag(s: Seq<char>) -> (int, int) {
    choose|p: (int, int)|
        tag_open_at(s, p.0, p.1) && (forall|i2: int| i2 < p.0 ==> !tag_at(s, i2))
}

/// An opening tag at a given start has a unique end.
proof fn lemma_tag_open_unique_j(s: Seq<char>, i: int, j1: int, j2: int)
    requires
        tag_open_at(s, i, j1),
        tag_open_at(s, i, j2),
    ensures
        j1 == j2,
{
    if j1 < j2 {
        assert(s[j1 - 1] == '>');
        assert(i < j1 - 1 < j2 - 1);
    }
    if j2 < j1 {
        assert(s[j2 - 1] == '>');
        assert(i < j2 - 1 < j1 - 1);
    }
}

/// Pins `first_tag` to a concrete witness.
proof fn lemma_first_tag_is(s: Seq<char>, i: int, j: int)
    requires
        tag_open_at(s, i, j),
        forall|i2: int| i2 < i ==> !tag_at(s, i2),
    ensures
        has_tag(s),
        first_tag(s) == (i, j),
{
    let p0 = (i, j);
    assert(tag_open_at(s, p0.0, p0.1) && (forall|i2: int| i2 < p0.0 ==> !tag_at(s, i2)));
    let p = choose|p: (int, int)|
        tag_open_at(s, p.0, p.1) && (forall|i2: int| i2 < p.0 ==> !tag_at(s, i2));
    assert(tag_open_at(s, p.0, p.1));
    if p.0 < i {
        assert(!tag_at(s, p.0));
        assert(false);
    }
    if i < p.0 {
        assert(!tag_at(s, i));
        assert(false);
    }
    lemma_tag_open_unique_j(s, i, p.1, j);
    assert(tag_at(s, i));
}

// ---------------------------------------------------------------------------
// First occurrences of a literal pattern.
// ---------------------------------------------------------------------------
/// The first position at or after `from` where `pat` occurs in `s`.
pub open spec fn first_occurrence_from(s: Seq<char>, pat: Seq<char>, from: int) -> int {
    choose|e: int|
        from <= e && occurs_at(s, pat, e) && (forall|k: int|
            from <= k < e ==> !occurs_at(s, pat, k))
}

/// Pins `first_occurrence_from` to a concrete witness.
proof fn lemma_first_occurrence_is(s: Seq<char>, pat: Seq<char>, from: int, e: int)
    requires
        from <= e,
        occurs_at(s, pat, e),
        forall|k: int| from <= k < e ==> !occurs_at(s, pat, k),
    ensures
        occurs_from(s, pat, from),
        first_occurrence_from(s, pat, from) == e,
{
    assert(from <= e && occurs_at(s, pat, e) && (forall|k: int|
        from <= k < e ==> !occurs_at(s, pat, k)));
    let c = choose|c: int|
        from <= c && occurs_at(s, pat, c) && (forall|k: int|
            from <= k < c ==> !occurs_at(s, pat, k));
    if c < e {
        assert(!occurs_at(s, pat, c));
        assert(false);
    }
    if e < c {
        assert(!occurs_at(s, pat, e));
        assert(false);
    }
}

/// The closing tag of the first opening tag cannot begin inside that
/// opening tag, so its first occurrence from the tag's start lies at or
/// after the tag's end.
proof fn lemma_close_after_open(s: Seq<char>, i: int, j: int, name: Seq<char>, e: int)
    requires
        tag_open_at(s, i, j),
        name == s.subrange(i + 1, j - 1),
        occurs_at(s, seq!['<', '/'] + name + seq!['>'], e),
        i <= e,
    ensures
        e >= j,
{
    let close = seq!['<', '/'] + name + seq!['>'];
    assert(close.len() >= 3);
    if e < j {
        assert(s[e] == close[0]);
        assert(s[e + 1] == close[1]);
        assert(close[0] == '<');
        assert(close[1] == '/');
        // '/' cannot stand anywhere in `<NAME>`: the name has no '/',
        // the first character is '<' and the last is '>'.
        assert(i < e + 1);
        if e + 1 < j - 1 {
            assert(s[e + 1] != '/');
        } else {
            // e + 1 is j - 1, which holds '>'
            assert(s[j - 1] == '>');
        }
        assert(false);
    }
}

// ---------------------------------------------------------------------------
// The tokenizer's specification.
// ---------------------------------------------------------------------------
/// Extracts the first `<query>…</query>` payload of a tool span, when
/// one is there; the payload is the shortest nonempty span after the
/// first `<query>`.
pub open spec fn spec_query_of(p: Seq<char>) -> Option<Seq<char>> {
    let open = "<query>"@;
    let close = "</query>"@;
    if occurs_from(p, open, 0) {
        let a = first_occurrence_from(p, open, 0);
        if occurs_from(p, close, a + open.len() + 1) {
            let b = first_occurrence_from(p, close, a + open.len() + 1);
            Some(p.subrange(a + open.len(), b))
        } else {
            None
        }
    } else {
        None
    }
}

/// One tokenizer step: the next item of `s` and how many characters it
/// consumes.
pub open spec fn spec_parse_one(s: Seq<char>) -> (Piece, int) {
    if !has_tag(s) {
        (Piece::Raw(s), s.len() as int)
    } else {
        let (i, j) = first_tag(s);
        let name = s.subrange(i + 1, j - 1);
        let before = spec_trim(s.subrange(0, i));
        if before.len() > 0 {
            (Piece::Raw(before), i)
        } else {
            let close = seq!['<', '/'] + name + seq!['>'];
            if !occurs_from(s, close, i) {
                (Piece::Raw(s), s.len() as int)
            } else {
                let e = first_occurrence_from(s, close, i);
                let used = e + close.len();
                let payload = s.subrange(j, e);
                if name == "run_query"@ {
                    match spec_query_of(payload) {
                        Some(q) => (Piece::RunQuery(q), used),
                        None => (Piece::Raw(s), used),
                    }
                } else if name == "attempt_completion"@ {
                    match spec_query_of(payload) {
                        Some(q) => (Piece::AttemptCompletion(q), used),
                        None => (Piece::Raw(s), used),
                    }
                } else if name == "thinking"@ {
                    (Piece::Thinking(payload), used)
                } else {
                    (Piece::Raw(s.subrange(0, used)), used)
                }
            }
        }
    }
}

/// The item list of a text, with explicit fuel for termination.
pub open spec fn spec_items_r(s: Seq<char>, fuel: nat) -> Seq<Piece>
    decreases fuel,
{
    if s.len() == 0 || fuel == 0 {
        Seq::empty()
    } else {
        let po = spec_parse_one(s);
        let used = if po.1 < 1 {
            1
        } else if po.1 > s.len() {
            s.len() as int
        } else {
            po.1
        };
        seq![po.0] + spec_items_r(
            spec_trim_start(s.subrange(used, s.len() as int)),
            (fuel - 1) as nat,
        )
    }
}

/// The ordered item list that tokenizing a text yields.
pub open spec fn spec_items(s: Seq<char>) -> Seq<Piece> {
    spec_items_r(s, s.len())
}

/// Any fuel of at least the text's length gives the same item list.
proof fn lemma_items_fuel(s: Seq<char>, fuel: nat)
    requires
        fuel >= s.len(),
    ensures
        spec_items_r(s, fuel) == spec_items(s),
    decreases fuel,
{
    if s.len() == 0 {
    } else {
        let po = spec_parse_one(s);
        let used = if po.1 < 1 {
            1
        } else if po.1 > s.len() {
            s.len() as int
        } else {
            po.1
        };
        let rest = spec_trim_start(s.subrange(used, s.len() as int));
        crate::text::lemma_trim_start_len(s.subrange(used, s.len() as int));
        assert(rest.len() <= s.len() - used <= s.len() - 1);
        lemma_items_fuel(rest, (fuel - 1) as nat);
        lemma_items_fuel(rest, (s.len() - 1) as nat);
    }
}

// ---------------------------------------------------------------------------
// Terminal items and state derivation.
// ---------------------------------------------------------------------------
/// A terminal item: one that determines the next agent state.
pub open spec fn is_terminal(p: Piece) -> bool {
    p is RunQuery || p is AttemptCompletion
}

/// Some item of the list is terminal.
pub open spec fn has_terminal(ps: Seq<Piece>) -> bool {
    exists|k: int| 0 <= k < ps.len() && is_terminal(ps[k])
}

/// The index of the first terminal item.
pub open spec fn first_terminal(ps: Seq<Piece>) -> int {
    choose|k: int|
        0 <= k < ps.len() && is_terminal(ps[k]) && (forall|m: int|
            0 <= m < k ==> !is_terminal(ps[m]))
}

/// Pins `first_terminal` to a concrete witness.
proof fn lemma_first_terminal_is(ps: Seq<Piece>, k: int)
    requires
        0 <= k < ps.len(),
        is_terminal(ps[k]),
        forall|m: int| 0 <= m < k ==> !is_terminal(ps[m]),
    ensures
        has_terminal(ps),
        first_terminal(ps) == k,
{
    assert(0 <= k < ps.len() && is_terminal(ps[k]) && (forall|m: int|
        0 <= m < k ==> !is_terminal(ps[m])));
    let c = choose|c: int|
        0 <= c < ps.len() && is_terminal(ps[c]) && (forall|m: int|
            0 <= m < c ==> !is_terminal(ps[m]));
    if c < k {
        assert(!is_terminal(ps[c]));
        assert(false);
    }
    if k < c {
        assert(!is_terminal(ps[k]));
        assert(false);
    }
}

/// The state a terminal item maps to.
pub open spec fn state_matches(st: State, p: Piece) -> bool {
    match p {
        Piece::RunQuery(q) => st matches State::RunQuery(rq) && rq.query@ == q,
        Piece::AttemptCompletion(q) => st matches State::AttemptCompletion(ac) && ac.query@ == q,
        _ => false,
    }
}

// ---------------------------------------------------------------------------
// Laws.
// ---------------------------------------------------------------------------
/// Law: in an item list whose only terminal item stands at `k`, the
/// first terminal is `k`, so a parse of such a response yields the state
/// of that item and keeps every earlier item, in order.
pub proof fn lemma_single_terminal_items(ps: Seq<Piece>, k: int)
    requires
        0 <= k < ps.len(),
        is_terminal(ps[k]),
        forall|m: int| 0 <= m < ps.len() && m != k ==> !is_terminal(ps[m]),
    ensures
        has_terminal(ps),
        first_terminal(ps) == k,
{
    lemma_first_terminal_is(ps, k);
}

/// Law: an item list without terminal items has no terminal, so a parse
/// of such a response reports the missing tool and yields no state.
pub proof fn lemma_no_terminal_items(ps: Seq<Piece>)
    requires
        forall|m: int| 0 <= m < ps.len() ==> !is_terminal(ps[m]),
    ensures
        !has_terminal(ps),
{
}

// ---------------------------------------------------------------------------
// Executable scanning.
// ---------------------------------------------------------------------------
/// Looks for the end of an opening tag that starts at `i`.
fn scan_tag_at(s: &Vec<char>, i: usize) -> (r: Option<usize>)
    requires
        i < s@.len(),
        s@[i as int] == '<',
    ensures
        match r {
            Some(j) => tag_open_at(s@, i as int, j as int),
            None => !tag_at(s@, i as int),
        },
{
    let n = s.len();
    let mut k: usize = i + 1;
    while k < n
        invariant
            i < k <= n,
            n == s@.len(),
            i < n,
            s@[i as int] == '<',
            forall|m: int| i < m < k ==> s@[m] != '/' && s@[m] != '>',
        decreases n - k,
    {
        let c = s[k];
        if c == '/' {
            proof {
                assert forall|j: int| !tag_open_at(s@, i as int, j) by {
                    if tag_open_at(s@, i as int, j) {
                        assert(s@[j - 1] == '>');
                        assert(j - 1 != k);
                        if j - 1 < k {
                            assert(i < j - 1 < k);
                            assert(s@[j - 1] != '>');
                        } else {
                            assert(i < k < j - 1);
                            assert(s@[k as int] != '/');
                        }
                    }
                }
            }
            return None;
        }
        if c == '>' {
            if k > i + 1 {
                return Some(k + 1);
            } else {
                proof {
                    assert forall|j: int| !tag_open_at(s@, i as int, j) by {
                        if tag_open_at(s@, i as int, j) {
                            assert(j > i + 2);
                            assert(i < i + 1 < j - 1);
                            assert(s@[i + 1] != '>');
                        }
                    }
                }
                return None;
            }
        }
        k = k + 1;
    }
    proof {
        assert forall|j: int| !tag_open_at(s@, i as int, j) by {
            if tag_open_at(s@, i as int, j) {
                assert(s@[j - 1] == '>');
                assert(i < j - 1 < n);
                assert(s@[j - 1] != '>');
            }
        }
    }
    None
}

/// Finds the leftmost opening tag of `s`.
fn find_tag(s: &Vec<char>) -> (r: Option<(usize, usize)>)
    ensures
        match r {
            Some(p) => tag_open_at(s@, p.0 as int, p.1 as int) && (forall|i2: int|
                i2 < p.0 ==> !tag_at(s@, i2)),
            None => !has_tag(s@),
        },
{
    let n = s.len();
    let mut i: usize = 0;
    while i < n
        invariant
            i <= n,
            n == s@.len(),
            forall|i2: int| i2 < i ==> !tag_at(s@, i2),
        decreases n - i,
    {
        if s[i] == '<' {
            match scan_tag_at(s, i) {
                Some(j) => {
                    return Some((i, j));
                },
                None => {},
            }
        } else {
            proof {
                assert forall|j: int| !tag_open_at(s@, i as int, j) by {}
            }
        }
        i = i + 1;
    }
    proof {
        assert forall|i2: int| !tag_at(s@, i2) by {
            if tag_at(s@, i2) {
                let j = choose|j: int| tag_open_at(s@, i2, j);
                assert(0 <= i2 < n);
            }
        }
    }
    None
}

/// Builds the closing tag `</NAME>` for a tag name.
fn close_tag_of(name: &Vec<char>) -> (r: Vec<char>)
    ensures
        r@ == seq!['<', '/'] + name@ + seq!['>'],
{
    let mut r: Vec<char> = Vec::new();
    r.push('<');
    r.push('/');
    let mut i: usize = 0;
    while i < name.len()
        invariant
            0 <= i <= name@.len(),
            r@ == seq!['<', '/'] + name@.subrange(0, i as int),
        decreases name@.len() - i,
    {
        r.push(name[i]);
        i = i + 1;
        proof {
            assert(seq!['<', '/'] + name@.subrange(0, i as int) =~= (seq!['<', '/']
                + name@.subrange(0, i - 1)).push(name@[i - 1]));
        }
    }
    r.push('>');
    proof {
        assert(name@.subrange(0, name@.len() as int) =~= name@);
        assert(r@ =~= seq!['<', '/'] + name@ + seq!['>']);
    }
    r
}

impl RawText {
    pub fn new(text: &str) -> (t: RawText)
        ensures
            t.text@ == text@,
    {
        RawText { text: text.to_owned() }
    }
}

impl ThinkingText {
    pub fn new(text: &str) -> (t: ThinkingText)
        ensures
            t.text@ == text@,
    {
        ThinkingText { text: text.to_owned() }
    }
}

impl RunQueryTool {
    /// Accepts the span when it carries a `<query>…</query>` payload.
    pub fn try_new(text: &str) -> (r: Option<RunQueryTool>)
        ensures
            match r {
                Some(t) => spec_query_of(text@) matches Some(q) && t.query@ == q,
                None => spec_query_of(text@) is None,
            },
    {
        match query_of(text) {
            Some(q) => Some(RunQueryTool { query: q }),
            None => None,
        }
    }
}

impl AttemptCompletionTool {
    /// Accepts the span when it carries a `<query>…</query>` payload.
    pub fn try_new(text: &str) -> (r: Option<AttemptCompletionTool>)
        ensures
            match r {
                Some(t) => spec_query_of(text@) matches Some(q) && t.query@ == q,
                None => spec_query_of(text@) is None,
            },
    {
        match query_of(text) {
            Some(q) => Some(AttemptCompletionTool { query: q }),
            None => None,
        }
    }
}

/// Extracts the first `<query>…</query>` payload, per `spec_query_of`.
fn query_of(text: &str) -> (r: Option<String>)
    ensures
        match r {
            Some(q) => spec_query_of(text@) matches Some(sq) && q@ == sq,
            None => spec_query_of(text@) is None,
        },
{
    let cs = chars_vec(text);
    let open = chars_vec("<query>");
    let close = chars_vec("</query>");
    proof {
        reveal_strlit("<query>");
        reveal_strlit("</query>");
    }
    match find_from(&cs, &open, 0) {
        None => {
            None
        },
        Some(a) => {
            proof {
                lemma_first_occurrence_is(cs@, open@, 0, a as int);
            }
            let n = cs.len();
            let base = a + open.len();
            if base >= n {
                proof {
                    assert forall|k: int| base + 1 <= k ==> !occurs_at(cs@, close@, k) by {}
                }
                None
            } else {
                match find_from(&cs, &close, base + 1) {
                    None => {
                        None
                    },
                    Some(b) => {
                        proof {
                            lemma_first_occurrence_is(cs@, close@, base + 1, b as int);
                        }
                        let payload = subvec(&cs, base, b);
                        Some(string_from_chars(&payload))
                    },
                }
            }
        },
    }
}

// ---------------------------------------------------------------------------
// The response.
// ---------------------------------------------------------------------------
/// A parsed LLM response: the raw text, the state its terminal tool
/// selects, and the items shown to the user.
#[derive(Debug)]
pub struct Response {
    pub raw: String,
    pub next_state: State,
    pub contents: Vec<ResponseContent>,
}

impl Response {
    pub fn new(raw: String, next_action: State, contents: Vec<ResponseContent>) -> (r: Response)
        ensures
            r.raw == raw,
            r.next_state == next_action,
            r.contents == contents,
    {
        Response { raw, next_state: next_action, contents }
    }

    /// Tokenizes one item at the head of `text` and says how many
    /// characters it consumed.
    #[verifier::rlimit(100)]
    #[verifier::spinoff_prover]
    pub fn parse_one(text: &Vec<char>) -> (r: (ResponseContent, usize))
        ensures
            r.0@ == spec_parse_one(text@).0,
            r.1 as int == spec_parse_one(text@).1,
            r.1 <= text@.len(),
            text@.len() > 0 ==> r.1 >= 1,
    {
        let n = text.len();
        match find_tag(text) {
            None => {
                let raw = string_from_chars(text);
                (ResponseContent::Raw(RawText { text: raw }), n)
            },
            Some((i, j)) => {
                proof {
                    lemma_first_tag_is(text@, i as int, j as int);
                }
                let before = trim_vec(&subvec(text, 0, i));
                if before.len() > 0 {
                    (ResponseContent::Raw(RawText { text: string_from_chars(&before) }), i)
                } else {
                    let name = subvec(text, i + 1, j - 1);
                    let close = close_tag_of(&name);
                    match find_from(text, &close, i) {
                        None => {
                            let raw = string_from_chars(text);
                            (ResponseContent::Raw(RawText { text: raw }), n)
                        },
                        Some(e) => {
                            proof {
                                lemma_first_occurrence_is(text@, close@, i as int, e as int);
                                lemma_close_after_open(text@, i as int, j as int, name@, e as int);
                            }
                            let used = e + close.len();
                            let payload = subvec(text, j, e);
                            let run_query_name = chars_vec("run_query");
                            let attempt_name = chars_vec("attempt_completion");
                            let thinking_name = chars_vec("thinking");
                            if chars_eq(&name, &run_query_name) {
                                let ptxt = string_from_chars(&payload);
                                match RunQueryTool::try_new(ptxt.as_str()) {
                                    Some(tool) => (ResponseContent::RunQuery(tool), used),
                                    None => {
                                        let raw = string_from_chars(text);
                                        (ResponseContent::Raw(RawText { text: raw }), used)
                                    },
                                }
                            } else if chars_eq(&name, &attempt_name) {
                                let ptxt = string_from_chars(&payload);
                                match AttemptCompletionTool::try_new(ptxt.as_str()) {
                                    Some(tool) => (ResponseContent::AttemptCompletion(tool), used),
                                    None => {
                                        let raw = string_from_chars(text);
                                        (ResponseContent::Raw(RawText { text: raw }), used)
                                    },
                                }
                            } else if chars_eq(&name, &thinking_name) {
                                (
                                    ResponseContent::Thinking(
                                        ThinkingText { text: string_from_chars(&payload) },
                                    ),
                                    used,
                                )
                            } else {
                                (
                                    ResponseContent::Raw(
                                        RawText { text: string_from_chars(&subvec(text, 0, used)) },
                                    ),
                                    used,
                                )
                            }
                        },
                    }
                }
            },
        }
    }

    /// Parses the whole response: tokenizes it and derives the next
    /// state from the first terminal item. Fails with the no-tool error
    /// exactly when no terminal item occurs.
    pub fn parse(text: &str) -> (r: Result<Response, AgentError>)
        ensures
            ({
                let ps = spec_items(text@);
                &&& (r is Ok <==> has_terminal(ps))
                &&& (r matches Ok(resp) ==> {
                    let k = first_terminal(ps);
                    &&& 0 <= k < ps.len()
                    &&& is_terminal(ps[k])
                    &&& (forall|m: int| 0 <= m < k ==> !is_terminal(#[trigger] ps[m]))
                    &&& resp.raw@ == text@
                    &&& resp.contents@.len() == k
                    &&& (forall|m: int| 0 <= m < k ==> (#[trigger] resp.contents@[m])@ == ps[m])
                    &&& state_matches(resp.next_state, ps[k])
                })
                &&& (r matches Err(e) ==> e matches AgentError::NoToolIncludedResponseError(n)
                    && n.response@ == text@)
            }),
    {
        let cs = chars_vec(text);
        let mut rem = cs;
        let mut found: Vec<ResponseContent> = Vec::new();
        while rem.len() > 0
            invariant
                found@.map_values(|c: ResponseContent| c@) + spec_items(rem@) == spec_items(
                    text@,
                ),
            decreases rem@.len(),
        {
            let (content, end_pos) = Self::parse_one(&rem);
            let tail = subvec(&rem, end_pos, rem.len());
            let next = trim_start_vec(&tail);
            proof {
                let po = spec_parse_one(rem@);
                assert(spec_items(rem@) == seq![po.0] + spec_items_r(
                    spec_trim_start(rem@.subrange(po.1, rem@.len() as int)),
                    (rem@.len() - 1) as nat,
                ));
                crate::text::lemma_trim_start_len(rem@.subrange(po.1, rem@.len() as int));
                lemma_items_fuel(
                    spec_trim_start(rem@.subrange(po.1, rem@.len() as int)),
                    (rem@.len() - 1) as nat,
                );
                assert(found@.map_values(|c: ResponseContent| c@).push(content@)
                    =~= found@.map_values(|c: ResponseContent| c@) + seq![content@]);
                assert((found@.push(content)).map_values(|c: ResponseContent| c@)
                    =~= found@.map_values(|c: ResponseContent| c@).push(content@));
            }
            found.push(content);
            rem = next;
        }
        proof {
            assert(spec_items(rem@) =~= Seq::<Piece>::empty());
            assert(found@.map_values(|c: ResponseContent| c@) + spec_items(rem@) =~= found@
                .map_values(|c: ResponseContent| c@));
        }
        // Derive the next state from the first terminal item.
        let ghost total = found@;
        let ghost ps = spec_items(text@);
        let mut contents: Vec<ResponseContent> = Vec::new();
        let mut found_q = found;
        let mut next_state: Option<State> = None;
        let ghost mut k: int = 0;
        while found_q.len() > 0 && next_state.is_none()
            invariant
                0 <= k <= total.len(),
                next_state is None ==> found_q@ == total.subrange(k, total.len() as int),
                next_state is None ==> contents@ == total.subrange(0, k),
                next_state is None ==> forall|m: int| 0 <= m < k ==> !is_terminal(total[m]@),
                total.map_values(|c: ResponseContent| c@) == ps,
                next_state matches Some(st) ==> {
                    &&& 0 <= k < total.len()
                    &&& is_terminal(total[k]@)
                    &&& (forall|m: int| 0 <= m < k ==> !is_terminal(total[m]@))
                    &&& contents@ == total.subrange(0, k)
                    &&& state_matches(st, total[k]@)
                },
            decreases found_q@.len(),
        {
            let c = found_q.remove(0);
            proof {
                assert(c == total[k]);
                assert(found_q@ =~= total.subrange(k + 1, total.len() as int));
            }
            match c {
                ResponseContent::RunQuery(tool) => {
                    next_state = Some(State::RunQuery(RunQueryState::new(tool.query)));
                },
                ResponseContent::AttemptCompletion(tool) => {
                    next_state = Some(
                        State::AttemptCompletion(AttemptCompletionState::new(tool.query)),
                    );
                },
                other => {
                    contents.push(other);
                    proof {
                        assert(contents@ =~= total.subrange(0, k + 1));
                        k = k + 1;
                    }
                },
            }
        }
        match next_state {
            None => {
                proof {
                    assert(k == total.len());
                    assert forall|m: int| 0 <= m < ps.len() implies !is_terminal(ps[m]) by {
                        assert(ps[m] == total[m]@);
                    }
                    lemma_no_terminal_items(ps);
                }
                Err(AgentError::new_no_tool_included_error(text.to_owned()))
            },
            Some(st) => {
                proof {
                    assert(is_terminal(total[k]@));
                    assert(ps[k] == total[k]@);
                    assert forall|m: int| 0 <= m < k implies !is_terminal(ps[m]) by {
                        assert(ps[m] == total[m]@);
                    }
                    lemma_first_terminal_is(ps, k);
                    assert forall|m: int| 0 <= m < k implies (#[trigger] contents@[m])@ == ps[m] by {
                        assert(contents@[m] == total[m]);
                        assert(ps[m] == total.map_values(|c: ResponseContent| c@)[m]);
                    }
                }
                Ok(Response { raw: text.to_owned(), next_state: st, contents })
            },
        }
    }
}

} // verus!
