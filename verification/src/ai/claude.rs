use vstd::prelude::*;

use super::types::{AssessmentError, AssessmentResult, ChunkingError, ChunkingResult};
use super::client::BUSY_MESSAGE;
use crate::models::Assessment;
use crate::text::{
    char_utf8_len, chars_of, contains, find, find_in, is_ws, lead_ws, lemma_find_from_props,
    lemma_lead_ws_bound, lemma_trail_ws_bound, occurs_at, trail_ws, lemma_utf8_bytes_monotone,
    lemma_utf8_bytes_take_step, string_from_range, trim, trim_bounds, utf8_bytes, utf8_len,
};

verus! {

// ---------------------------------------------------------------------------
// The assessment prompt
// ---------------------------------------------------------------------------

/// The instructions that open every assessment prompt, up to the code.
pub const PROMPT_HEAD: &'static str = r#"You are evaluating a developer's understanding of a code section. Compare their hypothesis to what the code actually does.

IMPORTANT: Respond ONLY with a JSON object. No markdown, no explanation, just the JSON.

The response must have exactly three arrays:
- correct: Points where the developer's understanding matches the code behavior
- diverges: Points where the developer's interpretation differs from what the code actually does
- missed: Important code behaviors the developer did not mention

Be specific and constructive. Each point should be a clear, complete sentence.

Example output format:
{
  "correct": [
    "Correctly identified that the function validates input before processing",
    "Understood the error handling flow for invalid data"
  ],
  "diverges": [
    "The function returns early on empty input, not null as stated"
  ],
  "missed": [
    "The function also logs to an audit trail on each call"
  ]
}

CODE SECTION:
"#;

/// What stands between the code and the hypothesis in the prompt.
pub const PROMPT_MIDDLE: &'static str = "\n\nDEVELOPER'S HYPOTHESIS:\n";

/// The prompt for assessing `hypothesis` about `code`.
pub open spec fn assessment_prompt(code: Seq<char>, hypothesis: Seq<char>) -> Seq<char> {
    PROMPT_HEAD@ + code + PROMPT_MIDDLE@ + hypothesis
}

/// Build the prompt for assessing a hypothesis.
pub fn build_assessment_prompt(code: &str, hypothesis: &str) -> (p: String)
    ensures
        p@ == assessment_prompt(code@, hypothesis@),
{
    let mut p = String::from_str(PROMPT_HEAD);
    p.append(code);
    p.append(PROMPT_MIDDLE);
    p.append(hypothesis);
    p
}

// ---------------------------------------------------------------------------
// Bracket matching
// ---------------------------------------------------------------------------

/// Where a left-to-right scan for the matching bracket stands.
pub struct BracketScan {
    pub depth: nat,
    pub in_string: bool,
    pub escape_next: bool,
}

/// The scan before any character.
pub open spec fn scan_start() -> BracketScan {
    BracketScan { depth: 0, in_string: false, escape_next: false }
}

/// Does character `c` count as a bracket in scan state `st`?  Escaped characters,
/// backslashes and quotes inside strings, and everything inside strings do not.
pub open spec fn counts_as_bracket(st: BracketScan, c: char) -> bool {
    !st.escape_next && !(c == '\\' && st.in_string) && c != '"' && !st.in_string
}

/// The scan state after reading `c` (when the scan goes on past it).
pub open spec fn scan_step(st: BracketScan, c: char, open: char, close: char) -> BracketScan {
    if st.escape_next {
        BracketScan { depth: st.depth, in_string: st.in_string, escape_next: false }
    } else if c == '\\' && st.in_string {
        BracketScan { depth: st.depth, in_string: st.in_string, escape_next: true }
    } else if c == '"' {
        BracketScan { depth: st.depth, in_string: !st.in_string, escape_next: false }
    } else if st.in_string {
        st
    } else if c == open {
        BracketScan { depth: st.depth + 1, in_string: false, escape_next: false }
    } else if c == close {
        BracketScan { depth: (st.depth - 1) as nat, in_string: false, escape_next: false }
    } else {
        st
    }
}

/// The scan state after the first `n` characters of `s`.
pub open spec fn scan_prefix(s: Seq<char>, n: int, open: char, close: char) -> BracketScan
    decreases n,
{
    if n <= 0 {
        scan_start()
    } else {
        scan_step(scan_prefix(s, n - 1, open, close), s[n - 1], open, close)
    }
}

/// The scan stops at `i`: a closing bracket there leaves nothing open, or has nothing to close.
pub open spec fn stops_at(s: Seq<char>, i: int, open: char, close: char) -> bool {
    let st = scan_prefix(s, i, open, close);
    0 <= i < s.len() && counts_as_bracket(st, s[i]) && s[i] != open && s[i] == close
        && st.depth <= 1
}

/// Index (in characters) of the bracket that closes the first open one: the first
/// place the scan stops, if the bracket there closes something.
#[verifier::opaque]
pub open spec fn bracket_match(s: Seq<char>, open: char, close: char) -> Option<int> {
    if exists|i: int| stops_at(s, i, open, close) {
        let i = choose|i: int|
            stops_at(s, i, open, close) && forall|j: int| 0 <= j < i ==> !stops_at(s, j, open, close);
        if scan_prefix(s, i, open, close).depth == 1 {
            Some(i)
        } else {
            None
        }
    } else {
        None
    }
}

proof fn lemma_first_stop(s: Seq<char>, k: int, open: char, close: char)
    requires
        stops_at(s, k, open, close),
        forall|j: int| 0 <= j < k ==> !stops_at(s, j, open, close),
    ensures
        bracket_match(s, open, close) == (if scan_prefix(s, k, open, close).depth == 1 {
            Some(k)
        } else {
            None::<int>
        }),
{
    reveal(bracket_match);
    let w = choose|w: int|
        stops_at(s, w, open, close) && forall|j: int| 0 <= j < w ==> !stops_at(s, j, open, close);
    assert(stops_at(s, w, open, close) && forall|j: int|
        0 <= j < w ==> !stops_at(s, j, open, close));
    if w < k {
        assert(!stops_at(s, w, open, close));
    } else if w > k {
        assert(!stops_at(s, k, open, close));
    }
    assert(w == k);
}

/// The scan over `v[from..to]`: the character offset of the match, if there is one.
fn bracket_match_in(v: &Vec<char>, from: usize, to: usize, open: char, close: char) -> (r: Option<usize>)
    requires
        from <= to <= v.len(),
    ensures
        match r {
            Some(k) => k < to - from && bracket_match(v@.subrange(from as int, to as int), open, close)
                == Some(k as int),
            None => bracket_match(v@.subrange(from as int, to as int), open, close) is None,
        },
{
    reveal(bracket_match);
    let ghost s = v@.subrange(from as int, to as int);
    let mut depth: usize = 0;
    let mut in_string = false;
    let mut escape_next = false;
    let mut i = from;
    while i < to
        invariant
            from <= i <= to <= v.len(),
            s == v@.subrange(from as int, to as int),
            depth <= i - from,
            scan_prefix(s, i - from, open, close) == (BracketScan {
                depth: depth as nat,
                in_string,
                escape_next,
            }),
            forall|j: int| 0 <= j < i - from ==> !stops_at(s, j, open, close),
        decreases to - i,
    {
        let c = v[i];
        let ghost k = i - from;
        assert(s[k] == c);
        if escape_next {
            escape_next = false;
        } else if c == '\\' && in_string {
            escape_next = true;
        } else if c == '"' {
            in_string = !in_string;
        } else if in_string {
        } else if c == open {
            depth = depth + 1;
        } else if c == close {
            if depth <= 1 {
                proof {
                    assert(stops_at(s, k, open, close));
                    lemma_first_stop(s, k, open, close);
                }
                if depth == 0 {
                    return None;
                }
                return Some(i - from);
            }
            depth = depth - 1;
        }
        i = i + 1;
    }
    None
}

/// Find the index of the matching closing bracket: the byte offset of the bracket
/// that closes the first one opened, skipping brackets inside double-quoted strings.
pub fn find_matching_bracket(text: &str, open: char, close: char) -> (r: Option<usize>)
    requires
        utf8_bytes(text@) <= usize::MAX,
    ensures
        match r {
            Some(b) => exists|k: int|
                bracket_match(text@, open, close) == Some(k) && b == utf8_bytes(text@.take(k)),
            None => bracket_match(text@, open, close) is None,
        },
{
    let v = chars_of(text);
    assert(v@.subrange(0, v@.len() as int) =~= v@);
    match bracket_match_in(&v, 0, v.len(), open, close) {
        Some(k) => {
            let mut b: usize = 0;
            let mut i: usize = 0;
            while i < k
                invariant
                    k < v@.len(),
                    v@ == text@,
                    i <= k,
                    b == utf8_bytes(v@.take(i as int)),
                    utf8_bytes(text@) <= usize::MAX,
                decreases k - i,
            {
                proof {
                    lemma_utf8_bytes_take_step(v@, i as int);
                    lemma_utf8_bytes_monotone(v@, i + 1, v@.len() as int);
                    assert(v@.take(v@.len() as int) =~= v@);
                }
                b = b + char_utf8_len(v[i]);
                i = i + 1;
            }
            Some(b)
        },
        None => None,
    }
}

// ---------------------------------------------------------------------------
// Pulling JSON out of a reply
// ---------------------------------------------------------------------------

/// A block fenced as ```` ```json ````, trimmed.
pub open spec fn fenced_json_block(t: Seq<char>) -> Option<Seq<char>> {
    match find(t, "```json"@) {
        Some(s) => {
            let after = t.skip(s + 7);
            match find(after, "```"@) {
                Some(e) => Some(trim(after.take(e))),
                None => None,
            }
        },
        None => None,
    }
}

/// A plain fenced block (its first line, the fence's info string, skipped),
/// trimmed, if it starts with `open`.
pub open spec fn fenced_plain_block(t: Seq<char>, open: char) -> Option<Seq<char>> {
    match find(t, "```"@) {
        Some(s) => {
            let after = t.skip(s + 3);
            let content_start = match find(after, "\n"@) {
                Some(i) => i + 1,
                None => 0,
            };
            let body = after.skip(content_start);
            match find(body, "```"@) {
                Some(e) => {
                    let content = trim(body.take(e));
                    if content.len() > 0 && content[0] == open {
                        Some(content)
                    } else {
                        None
                    }
                },
                None => None,
            }
        },
        None => None,
    }
}

/// The whole trimmed text, when it starts with `open`, up to its matching bracket.
pub open spec fn raw_json(t: Seq<char>, open: char, close: char) -> Option<Seq<char>> {
    let tr = trim(t);
    if tr.len() > 0 && tr[0] == open {
        match bracket_match(tr, open, close) {
            Some(k) => Some(tr.take(k + 1)),
            None => None,
        }
    } else {
        None
    }
}

/// From the first `open` anywhere in the text up to its matching bracket.
pub open spec fn embedded_json(t: Seq<char>, open: char, close: char) -> Option<Seq<char>> {
    match find(t, seq![open]) {
        Some(s) => {
            let from = t.skip(s);
            match bracket_match(from, open, close) {
                Some(k) => Some(from.take(k + 1)),
                None => None,
            }
        },
        None => None,
    }
}

/// JSON found in a reply: in a ```` ```json ```` block, else in a plain fenced block,
/// else as the whole trimmed reply, else anywhere in it.
pub open spec fn extracted_json(t: Seq<char>, open: char, close: char) -> Option<Seq<char>> {
    if fenced_json_block(t) is Some {
        fenced_json_block(t)
    } else if fenced_plain_block(t, open) is Some {
        fenced_plain_block(t, open)
    } else if raw_json(t, open, close) is Some {
        raw_json(t, open, close)
    } else {
        embedded_json(t, open, close)
    }
}

fn lit(s: &str) -> (v: Vec<char>)
    ensures
        v@ == s@,
{
    chars_of(s)
}

fn fenced_json_in(v: &Vec<char>) -> (r: Option<String>)
    ensures
        match r {
            Some(j) => fenced_json_block(v@) == Some(j@),
            None => fenced_json_block(v@) is None,
        },
{
    let fence_json = lit("```json");
    let fence = lit("```");
    proof {
        reveal_strlit("```json");
        reveal_strlit("```");
        lemma_find_from_props(v@, fence_json@, 0);
        assert(fence_json@.len() == 7);
        assert(fence@.len() == 3);
    }
    let f = find_in(v, &fence_json, 0);
    if let Some(s) = f {
        let n = v.len();
        assert(s + 7 <= n);
        let a = s + 7;
        let ghost after = v@.skip(a as int);
        let e = find_in(v, &fence, a);
        proof {
            lemma_find_from_props(v@, fence@, a as int);
            lemma_find_shift(v@, fence@, a as int);
        }
        if let Some(e) = e {
            let (x, y) = trim_bounds(v, a, e);
            assert(after.take(e - a) =~= v@.subrange(a as int, e as int));
            return Some(string_from_range(v, x, y));
        }
    }
    None
}

fn fenced_plain_in(v: &Vec<char>, open: char) -> (r: Option<String>)
    ensures
        match r {
            Some(j) => fenced_plain_block(v@, open) == Some(j@),
            None => fenced_plain_block(v@, open) is None,
        },
{
    let fence = lit("```");
    let newline = lit("\n");
    proof {
        reveal_strlit("```");
        reveal_strlit("\n");
        lemma_find_from_props(v@, fence@, 0);
        assert(fence@.len() == 3);
        assert(newline@.len() == 1);
    }
    let n = v.len();
    if let Some(s) = find_in(v, &fence, 0) {
        assert(s + 3 <= n);
        let a = s + 3;
        let ghost after = v@.skip(a as int);
        let nl = find_in(v, &newline, a);
        proof {
            lemma_find_from_props(v@, newline@, a as int);
            lemma_find_shift(v@, newline@, a as int);
        }
        let c = match nl {
            Some(i) => {
                assert(i + 1 <= n);
                i + 1
            },
            None => a,
        };
        let ghost body = v@.skip(c as int);
        assert(body =~= after.skip(c - a));
        let e = find_in(v, &fence, c);
        proof {
            lemma_find_from_props(v@, fence@, c as int);
            lemma_find_shift(v@, fence@, c as int);
        }
        if let Some(e) = e {
            let (x, y) = trim_bounds(v, c, e);
            assert(body.take(e - c) =~= v@.subrange(c as int, e as int));
            if x < y && v[x] == open {
                return Some(string_from_range(v, x, y));
            }
        }
    }
    None
}

fn raw_json_in(v: &Vec<char>, open: char, close: char) -> (r: Option<String>)
    ensures
        match r {
            Some(j) => raw_json(v@, open, close) == Some(j@),
            None => raw_json(v@, open, close) is None,
        },
{
    let n = v.len();
    let (x, y) = trim_bounds(v, 0, n);
    assert(v@.subrange(0, n as int) =~= v@);
    if x < y && v[x] == open {
        if let Some(k) = bracket_match_in(v, x, y, open, close) {
            assert(v@.subrange(x as int, y as int).take(k + 1) =~= v@.subrange(
                x as int,
                (x + k + 1) as int,
            ));
            return Some(string_from_range(v, x, x + k + 1));
        }
    }
    None
}

fn embedded_json_in(v: &Vec<char>, open: char, close: char) -> (r: Option<String>)
    ensures
        match r {
            Some(j) => embedded_json(v@, open, close) == Some(j@),
            None => embedded_json(v@, open, close) is None,
        },
{
    let n = v.len();
    let mut ov: Vec<char> = Vec::new();
    ov.push(open);
    assert(ov@ =~= seq![open]);
    proof {
        lemma_find_from_props(v@, ov@, 0);
    }
    if let Some(s) = find_in(v, &ov, 0) {
        assert(v@.skip(s as int) =~= v@.subrange(s as int, n as int));
        if let Some(k) = bracket_match_in(v, s, n, open, close) {
            assert(v@.subrange(s as int, n as int).take(k + 1) =~= v@.subrange(
                s as int,
                (s + k + 1) as int,
            ));
            return Some(string_from_range(v, s, s + k + 1));
        }
    }
    None
}

/// AI responses may hold JSON in markdown code blocks (```json), plain code
/// blocks (```), or as raw text; this finds it in each of these forms.
pub fn extract_json(text: &str, open: char, close: char) -> (r: Option<String>)
    ensures
        match r {
            Some(j) => extracted_json(text@, open, close) == Some(j@),
            None => extracted_json(text@, open, close) is None,
        },
{
    let v = chars_of(text);
    let r = fenced_json_in(&v);
    if r.is_some() {
        return r;
    }
    let r = fenced_plain_in(&v, open);
    if r.is_some() {
        return r;
    }
    let r = raw_json_in(&v, open, close);
    if r.is_some() {
        return r;
    }
    embedded_json_in(&v, open, close)
}

/// A search from `a` finds what a search of the text from `a` on finds, shifted by `a`.
pub proof fn lemma_find_shift(s: Seq<char>, pat: Seq<char>, a: int)
    requires
        0 <= a <= s.len(),
    ensures
        match crate::text::find_from(s, pat, a) {
            Some(i) => find(s.skip(a), pat) == Some(i - a),
            None => find(s.skip(a), pat) is None,
        },
{
    lemma_find_from_props(s, pat, a);
    lemma_find_from_props(s.skip(a), pat, 0);
    let t = s.skip(a);
    assert forall|k: int| 0 <= k implies #[trigger] crate::text::occurs_at(t, pat, k)
        == crate::text::occurs_at(s, pat, k + a) by {
        if 0 <= k && k + pat.len() <= t.len() {
            assert(t.subrange(k, k + pat.len()) =~= s.subrange(k + a, k + a + pat.len()));
        }
    }
    match crate::text::find_from(s, pat, a) {
        Some(i) => {
            assert(crate::text::occurs_at(t, pat, i - a));
            match find(t, pat) {
                Some(j) => {
                    assert(crate::text::occurs_at(s, pat, j + a));
                },
                None => {},
            }
        },
        None => {
            match find(t, pat) {
                Some(j) => {
                    assert(crate::text::occurs_at(s, pat, j + a));
                },
                None => {},
            }
        },
    }
}

/// Extract a JSON object from a response that may contain markdown or other text.
pub fn extract_json_object(text: &str) -> (r: Option<String>)
    ensures
        match r {
            Some(j) => extracted_json(text@, '{', '}') == Some(j@),
            None => extracted_json(text@, '{', '}') is None,
        },
{
    extract_json(text, '{', '}')
}

// ---------------------------------------------------------------------------
// Replies without a code fence
// ---------------------------------------------------------------------------

proof fn lemma_scan_prefix_extend(a: Seq<char>, w: Seq<char>, n: int, open: char, close: char)
    requires
        0 <= n <= a.len(),
    ensures
        scan_prefix(a + w, n, open, close) == scan_prefix(a, n, open, close),
    decreases n,
{
    if n > 0 {
        lemma_scan_prefix_extend(a, w, n - 1, open, close);
        assert((a + w)[n - 1] == a[n - 1]);
    }
}

proof fn lemma_minimal_stop(s: Seq<char>, i: int, open: char, close: char)
    requires
        stops_at(s, i, open, close),
    ensures
        exists|k: int|
            stops_at(s, k, open, close) && forall|j: int| 0 <= j < k ==> !stops_at(s, j, open, close),
    decreases i,
{
    if exists|j: int| 0 <= j < i && stops_at(s, j, open, close) {
        let j = choose|j: int| 0 <= j < i && stops_at(s, j, open, close);
        lemma_minimal_stop(s, j, open, close);
    } else {
        assert(forall|j: int| 0 <= j < i ==> !stops_at(s, j, open, close));
    }
}

/// Characters after the text change nothing in where its first bracket is matched
/// once the scan stops within the text; and a match lies within the text it is found in.
proof fn lemma_bracket_match_extend(a: Seq<char>, w: Seq<char>, open: char, close: char)
    ensures
        (exists|i: int| stops_at(a, i, open, close)) ==> bracket_match(a + w, open, close)
            == bracket_match(a, open, close),
        bracket_match(a, open, close) is Some ==> exists|i: int| stops_at(a, i, open, close),
        bracket_match(a, open, close) matches Some(k) ==> 0 <= k < a.len(),
{
    reveal(bracket_match);
    assert forall|i: int| 0 <= i < a.len() implies #[trigger] stops_at(a + w, i, open, close)
        == stops_at(a, i, open, close) by {
        lemma_scan_prefix_extend(a, w, i, open, close);
        assert((a + w)[i] == a[i]);
    }
    if exists|i: int| stops_at(a, i, open, close) {
        let i = choose|i: int| stops_at(a, i, open, close);
        lemma_minimal_stop(a, i, open, close);
        let k = choose|k: int|
            stops_at(a, k, open, close) && forall|j: int| 0 <= j < k ==> !stops_at(a, j, open, close);
        assert(stops_at(a + w, k, open, close));
        assert(forall|j: int| 0 <= j < k ==> !stops_at(a + w, j, open, close));
        lemma_first_stop(a, k, open, close);
        lemma_first_stop(a + w, k, open, close);
        lemma_scan_prefix_extend(a, w, k, open, close);
    }
}

proof fn lemma_lead_ws_all(s: Seq<char>)
    ensures
        forall|i: int| 0 <= i < lead_ws(s) ==> is_ws(#[trigger] s[i]),
        lead_ws(s) < s.len() ==> !is_ws(s[lead_ws(s) as int]),
    decreases s.len(),
{
    if s.len() > 0 && is_ws(s[0]) {
        lemma_lead_ws_all(s.drop_first());
        lemma_lead_ws_bound(s.drop_first());
        assert forall|i: int| 0 <= i < lead_ws(s) implies is_ws(#[trigger] s[i]) by {
            if i > 0 {
                assert(s[i] == s.drop_first()[i - 1]);
            }
        }
        if lead_ws(s) < s.len() {
            assert(s[lead_ws(s) as int] == s.drop_first()[lead_ws(s.drop_first()) as int]);
        }
    }
}

/// A reply without a code fence gives the balanced group that starts at its first
/// opening bracket (nothing when there is none, or when it is never closed): taking
/// the whole trimmed reply, when it starts with the bracket, comes to the same.
pub proof fn lemma_unfenced_reply(t: Seq<char>, open: char, close: char)
    requires
        !contains(t, "```"@),
    ensures
        extracted_json(t, open, close) == embedded_json(t, open, close),
        fenced_json_block(t) is None,
        fenced_plain_block(t, open) is None,
{
    reveal_strlit("```");
    reveal_strlit("```json");
    lemma_find_from_props(t, "```json"@, 0);
    if let Some(s) = find(t, "```json"@) {
        assert(t.subrange(s, s + 7) == "```json"@);
        assert(t.subrange(s, s + 3) =~= "```"@) by {
            assert forall|i: int| 0 <= i < 3 implies t.subrange(s, s + 3)[i] == "```"@[i] by {
                assert(t.subrange(s, s + 3)[i] == t.subrange(s, s + 7)[i]);
            }
        }
        assert(occurs_at(t, "```"@, s));
    }
    lemma_find_from_props(t, "```"@, 0);
    if let Some(s) = find(t, "```"@) {
        assert(occurs_at(t, "```"@, s));
    }
    assert(fenced_json_block(t) is None);
    assert(fenced_plain_block(t, open) is None);
    let tr = trim(t);
    if tr.len() > 0 && tr[0] == open {
        let lead = lead_ws(t) as int;
        let ts = t.skip(lead);
        lemma_lead_ws_bound(t);
        lemma_trail_ws_bound(ts);
        lemma_lead_ws_all(t);
        let m = ts.len() - trail_ws(ts);
        assert(tr == ts.take(m));
        assert(t[lead] == open);
        lemma_find_from_props(t, seq![open], 0);
        assert(occurs_at(t, seq![open], lead)) by {
            assert(t.subrange(lead, lead + 1) =~= seq![open]);
        }
        let f = find(t, seq![open]);
        assert(f == Some(lead)) by {
            let i = f->0;
            if i < lead {
                assert(t.subrange(i, i + 1)[0] == t[i]);
                assert(is_ws(t[i]));
            }
        }
        let w = ts.skip(m);
        assert(ts =~= tr + w);
        lemma_bracket_match_extend(tr, w, open, close);
        if let Some(k) = bracket_match(tr, open, close) {
            assert(ts.take(k + 1) =~= tr.take(k + 1));
        }
    }
}

// ---------------------------------------------------------------------------
// What the bracket scan counts
// ---------------------------------------------------------------------------

/// Opening brackets minus closing brackets in a text.
pub open spec fn bracket_balance(s: Seq<char>, open: char, close: char) -> int
    decreases s.len(),
{
    if s.len() == 0 {
        0
    } else {
        bracket_balance(s.drop_last(), open, close) + if s.last() == open {
            1int
        } else if s.last() == close {
            -1int
        } else {
            0int
        }
    }
}

/// Outside strings only brackets count: over a text without a double quote, until
/// the scan stops, it is never inside a string or an escape, and its depth is the
/// number of opening brackets less the closing ones. Every other character (quotes
/// of other kinds, backslashes) leaves it as it is.
pub proof fn lemma_scan_without_quotes(s: Seq<char>, n: int, open: char, close: char)
    requires
        0 <= n <= s.len(),
        open != close,
        open != '"',
        forall|i: int| 0 <= i < n ==> s[i] != '"',
        forall|j: int| 0 <= j < n ==> !stops_at(s, j, open, close),
    ensures
        bracket_balance(s.take(n), open, close) >= 0,
        scan_prefix(s, n, open, close) == (BracketScan {
            depth: bracket_balance(s.take(n), open, close) as nat,
            in_string: false,
            escape_next: false,
        }),
    decreases n,
{
    if n > 0 {
        lemma_scan_without_quotes(s, n - 1, open, close);
        assert(s.take(n).drop_last() =~= s.take(n - 1));
        assert(s.take(n).last() == s[n - 1]);
        assert(!stops_at(s, n - 1, open, close));
    }
}

/// A double-quoted string holding neither a double quote nor a backslash is passed
/// over whole: no bracket in it counts, and the scan stands after it as it stood
/// before it, whatever other characters (apostrophes, brackets) the string holds.
pub proof fn lemma_string_skipped(s: Seq<char>, n: int, m: int, open: char, close: char)
    requires
        0 <= n < m < s.len(),
        !scan_prefix(s, n, open, close).in_string,
        !scan_prefix(s, n, open, close).escape_next,
        s[n] == '"',
        s[m] == '"',
        forall|i: int| n < i < m ==> s[i] != '"' && s[i] != '\\',
    ensures
        scan_prefix(s, m + 1, open, close) == scan_prefix(s, n, open, close),
        forall|j: int| n <= j <= m ==> !stops_at(s, j, open, close),
{
    let st = scan_prefix(s, n, open, close);
    assert forall|i: int| n < i <= m implies #[trigger] scan_prefix(s, i, open, close) == (BracketScan {
        depth: st.depth,
        in_string: true,
        escape_next: false,
    }) by {
        lemma_inside_string(s, n, i, open, close);
    }
    assert(scan_prefix(s, m, open, close).in_string);
    assert forall|j: int| n <= j <= m implies !stops_at(s, j, open, close) by {
        if j > n {
            assert(scan_prefix(s, j, open, close).in_string);
        }
    }
}

proof fn lemma_inside_string(s: Seq<char>, n: int, i: int, open: char, close: char)
    requires
        0 <= n < i < s.len(),
        !scan_prefix(s, n, open, close).in_string,
        !scan_prefix(s, n, open, close).escape_next,
        s[n] == '"',
        forall|k: int| n < k < i ==> s[k] != '"' && s[k] != '\\',
    ensures
        scan_prefix(s, i, open, close) == (BracketScan {
            depth: scan_prefix(s, n, open, close).depth,
            in_string: true,
            escape_next: false,
        }),
    decreases i - n,
{
    if i > n + 1 {
        lemma_inside_string(s, n, i - 1, open, close);
    }
}

/// The inside of a JSON string: any characters but a bare double quote, a backslash
/// always escaping the character after it.
pub open spec fn json_string_body(b: Seq<char>) -> bool
    decreases b.len(),
{
    if b.len() == 0 {
        true
    } else if b[0] == '\\' {
        b.len() >= 2 && json_string_body(b.skip(2))
    } else if b[0] == '"' {
        false
    } else {
        json_string_body(b.skip(1))
    }
}

proof fn lemma_json_string_inside(s: Seq<char>, p: int, m: int, d: nat, open: char, close: char)
    requires
        0 < p <= m < s.len(),
        scan_prefix(s, p, open, close) == (BracketScan { depth: d, in_string: true, escape_next: false }),
        json_string_body(s.subrange(p, m)),
    ensures
        scan_prefix(s, m, open, close) == (BracketScan { depth: d, in_string: true, escape_next: false }),
        forall|j: int| p <= j < m ==> !stops_at(s, j, open, close),
    decreases m - p,
{
    let b = s.subrange(p, m);
    if p < m {
        assert(b[0] == s[p]);
        if s[p] == '\\' {
            assert(b.skip(2) =~= s.subrange(p + 2, m));
            assert(scan_prefix(s, p + 1, open, close).escape_next);
            lemma_json_string_inside(s, p + 2, m, d, open, close);
        } else {
            assert(b.skip(1) =~= s.subrange(p + 1, m));
            lemma_json_string_inside(s, p + 1, m, d, open, close);
        }
    }
}

/// A JSON string (double quotes around a `json_string_body`, escapes included) is
/// passed over whole: no bracket in it counts, an escaped double quote does not end
/// it, and the scan stands after it as it stood before it.
pub proof fn lemma_json_string_skipped(s: Seq<char>, n: int, m: int, open: char, close: char)
    requires
        0 <= n < m < s.len(),
        !scan_prefix(s, n, open, close).in_string,
        !scan_prefix(s, n, open, close).escape_next,
        s[n] == '"',
        s[m] == '"',
        json_string_body(s.subrange(n + 1, m)),
    ensures
        scan_prefix(s, m + 1, open, close) == scan_prefix(s, n, open, close),
        forall|j: int| n <= j <= m ==> !stops_at(s, j, open, close),
{
    let st = scan_prefix(s, n, open, close);
    assert(scan_prefix(s, n + 1, open, close) == (BracketScan {
        depth: st.depth,
        in_string: true,
        escape_next: false,
    }));
    lemma_json_string_inside(s, n + 1, m, st.depth, open, close);
}

proof fn lemma_no_early_stop(s: Seq<char>, k: int, m: int, open: char, close: char)
    requires
        0 <= m <= k < s.len(),
        open != close,
        open != '"',
        forall|i: int| 0 <= i < s.len() ==> s[i] != '"',
        s[0] == open,
        forall|j: int| 1 <= j <= k ==> bracket_balance(#[trigger] s.take(j), open, close) > 0,
    ensures
        forall|j: int| 0 <= j < m ==> !stops_at(s, j, open, close),
    decreases m,
{
    if m > 0 {
        lemma_no_early_stop(s, k, m - 1, open, close);
        let j = m - 1;
        lemma_scan_without_quotes(s, j, open, close);
        if j > 0 && s[j] == close {
            assert(s.take(j + 1).drop_last() =~= s.take(j));
            assert(s.take(j + 1).last() == s[j]);
            assert(bracket_balance(s.take(j + 1), open, close) > 0);
            assert(bracket_balance(s.take(j), open, close) >= 2);
        }
    }
}

/// Where a text without double quotes starts with an opening bracket, its match is
/// the first place where the brackets read so far balance again.
pub proof fn lemma_quote_free_match(s: Seq<char>, k: int, open: char, close: char)
    requires
        0 < k < s.len(),
        open != close,
        open != '"',
        forall|i: int| 0 <= i < s.len() ==> s[i] != '"',
        s[0] == open,
        bracket_balance(s.take(k + 1), open, close) == 0,
        forall|j: int| 1 <= j <= k ==> bracket_balance(#[trigger] s.take(j), open, close) > 0,
    ensures
        bracket_match(s, open, close) == Some(k),
{
    lemma_no_early_stop(s, k, k, open, close);
    lemma_scan_without_quotes(s, k, open, close);
    assert(s.take(k + 1).drop_last() =~= s.take(k));
    assert(s.take(k + 1).last() == s[k]);
    assert(bracket_balance(s.take(k), open, close) > 0);
    assert(s[k] == close);
    assert(stops_at(s, k, open, close));
    lemma_first_stop(s, k, open, close);
}

/// A reply without a code fence whose trimmed text is a bracketed group without
/// double quotes, closed only at its end, is extracted whole.
pub proof fn lemma_quote_free_object_reply(t: Seq<char>, open: char, close: char)
    requires
        !contains(t, "```"@),
        open != close,
        open != '"',
        trim(t).len() >= 2,
        forall|i: int| 0 <= i < trim(t).len() ==> trim(t)[i] != '"',
        trim(t)[0] == open,
        bracket_balance(trim(t), open, close) == 0,
        forall|j: int| 1 <= j < trim(t).len() ==> bracket_balance(#[trigger] trim(t).take(j), open, close) > 0,
    ensures
        extracted_json(t, open, close) == Some(trim(t)),
{
    let tr = trim(t);
    let k = tr.len() - 1;
    assert(tr.take(k + 1) =~= tr);
    lemma_quote_free_match(tr, k, open, close);
    lemma_unfenced_reply(t, open, close);
    assert(raw_json(t, open, close) == Some(tr.take(k + 1)));
}

// ---------------------------------------------------------------------------
// Truncation for error messages
// ---------------------------------------------------------------------------

/// The text cut to at most `max_len` bytes at a character boundary, with `"..."`
/// appended when something was cut.
pub open spec fn truncated(s: Seq<char>, max_len: nat, r: Seq<char>) -> bool {
    if utf8_bytes(s) <= max_len {
        r == s
    } else {
        exists|k: int|
            0 <= k < s.len() && utf8_bytes(s.take(k)) <= max_len < utf8_bytes(s.take(k + 1))
                && r == s.take(k) + "..."@
    }
}

/// Truncate a string for error messages, cutting only at character boundaries.
pub fn truncate(s: &str, max_len: usize) -> (r: String)
    ensures
        truncated(s@, max_len as nat, r@),
{
    let v = chars_of(s);
    let mut b: usize = 0;
    let mut i: usize = 0;
    while i < v.len()
        invariant
            v@ == s@,
            i <= v.len(),
            b == utf8_bytes(v@.take(i as int)),
            b <= max_len,
        decreases v.len() - i,
    {
        let n = char_utf8_len(v[i]);
        proof {
            lemma_utf8_bytes_take_step(v@, i as int);
        }
        if n > max_len - b {
            proof {
                lemma_utf8_bytes_monotone(v@, i + 1, v@.len() as int);
                assert(v@.take(v@.len() as int) =~= v@);
            }
            let mut r = string_from_range(&v, 0, i);
            r.append("...");
            assert(v@.subrange(0, i as int) =~= v@.take(i as int));
            return r;
        }
        b = b + n;
        i = i + 1;
    }
    assert(v@.take(v@.len() as int) =~= v@);
    String::from_str(s)
}

// ---------------------------------------------------------------------------
// The client
// ---------------------------------------------------------------------------

/// What the client answers to a request for chunking.
pub const CHUNKING_UNSUPPORTED: &'static str = "AI chunking is no longer supported. Use 'sherpa section add' instead.";

/// Opening of the message for a reply that holds no JSON object.
pub const NO_JSON_HEAD: &'static str = "No valid JSON object found in response: ";

/// Opening of the message for a JSON object that does not decode as an assessment.
pub const BAD_JSON_HEAD: &'static str = "Failed to parse assessment JSON: ";

/// Real AI client, backed by the assistant command-line tool.  Running the CLI is left to
/// the caller; the client decides what is run and what the outcome means.
#[derive(Debug)]
pub struct ClaudeClient {
    busy: bool,
}

/// The outcome of an assessment from the CLI's reply (or the reason it failed) and
/// what decoding the reply gave: the reason as the error, with no output; else the
/// decoded assessment; else the decoding error, with the reply kept as the output.
pub open spec fn assessment_outcome(
    reply: Result<String, String>,
    parsed: Result<Assessment, String>,
    r: AssessmentResult,
) -> bool {
    match reply {
        Err(e) => r matches AssessmentResult::Error(x) && x.message == e && x.raw_output is None,
        Ok(response) => match parsed {
            Ok(a) => r == AssessmentResult::Success(a),
            Err(e) => r matches AssessmentResult::Error(x) && x.message == e && x.raw_output
                == Some(response),
        },
    }
}

impl ClaudeClient {
    pub fn new() -> (c: Self)
        ensures
            !c.busy_flag(),
    {
        ClaudeClient { busy: false }
    }

    pub closed spec fn busy_flag(&self) -> bool {
        self.busy
    }

    pub fn is_busy(&self) -> (b: bool)
        ensures
            b == self.busy_flag(),
    {
        self.busy
    }

    /// Chunking is no longer done through the AI: sections are created with the CLI.
    pub fn chunk_diff(&mut self, _diff: &str) -> (r: ChunkingResult)
        ensures
            *final(self) == *old(self),
            r matches ChunkingResult::Error(e) && e.message@ == CHUNKING_UNSUPPORTED@
                && e.raw_output is None,
    {
        ChunkingResult::Error(ChunkingError::new(CHUNKING_UNSUPPORTED))
    }

    /// Starts an assessment: refused (with the busy error) while another one runs,
    /// otherwise the client is marked busy and the prompt to run is returned.
    pub fn begin_assessment(&mut self, code: &str, hypothesis: &str) -> (r: Result<
        String,
        AssessmentResult,
    >)
        ensures
            final(self).busy_flag(),
            old(self).busy_flag() ==> (r matches Err(AssessmentResult::Error(e)) && e.message@
                == BUSY_MESSAGE@ && e.raw_output is None),
            !old(self).busy_flag() ==> (r matches Ok(p) && p@ == assessment_prompt(
                code@,
                hypothesis@,
            )),
    {
        if self.busy {
            return Err(AssessmentResult::Error(AssessmentError::new(BUSY_MESSAGE)));
        }
        self.busy = true;
        Ok(build_assessment_prompt(code, hypothesis))
    }

    /// Ends an assessment; the client is free again.
    pub fn end_assessment(&mut self)
        ensures
            !final(self).busy_flag(),
    {
        self.busy = false;
    }

    /// Finishes an assessment once the CLI has answered: the outcome is taken from the
    /// reply (see `assessment_outcome`) and the client is free again.
    pub fn finish_assessment(
        &mut self,
        reply: Result<String, String>,
        parsed: Result<Assessment, String>,
    ) -> (r: AssessmentResult)
        ensures
            assessment_outcome(reply, parsed, r),
            !final(self).busy_flag(),
    {
        let r = self.assess_hypothesis_impl(reply, parsed);
        self.end_assessment();
        r
    }

    /// The outcome of an assessment: from the CLI's reply (or the reason it failed),
    /// and what decoding the reply gave.
    pub fn assess_hypothesis_impl(
        &self,
        reply: Result<String, String>,
        parsed: Result<Assessment, String>,
    ) -> (r: AssessmentResult)
        ensures
            assessment_outcome(reply, parsed, r),
    {
        match reply {
            Ok(response) => match parsed {
                Ok(assessment) => AssessmentResult::Success(assessment),
                Err(e) => AssessmentResult::Error(
                    AssessmentError { message: e, raw_output: Some(response) },
                ),
            },
            Err(e) => AssessmentResult::Error(AssessmentError { message: e, raw_output: None }),
        }
    }
}

impl Default for ClaudeClient {
    fn default() -> (c: Self)
        ensures
            !c.busy_flag(),
    {
        ClaudeClient::new()
    }
}

/// The message for a reply without a JSON object.
pub fn missing_json_message(response: &str) -> (m: String)
    ensures
        exists|t: Seq<char>| truncated(response@, 200, t) && m@ == NO_JSON_HEAD@ + t,
{
    let t = truncate(response, 200);
    let mut m = String::from_str(NO_JSON_HEAD);
    m.append(t.as_str());
    m
}

/// The message for a JSON object that did not decode; `reason` says why.
pub fn invalid_json_message(reason: &str, json: &str) -> (m: String)
    ensures
        exists|t: Seq<char>|
            truncated(json@, 200, t) && m@ == BAD_JSON_HEAD@ + reason@ + ". Raw: "@ + t,
{
    let t = truncate(json, 200);
    let mut m = String::from_str(BAD_JSON_HEAD);
    m.append(reason);
    m.append(". Raw: ");
    m.append(t.as_str());
    m
}

} // verus!
