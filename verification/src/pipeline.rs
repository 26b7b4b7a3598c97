//! The analyze pipeline: feeds one workspace's member files to the external
//! parser/analyzer collaborators and turns their outcome into a cache
//! update and a full diagnostic publication set.
//!
//! The collaborators are black boxes; their result enters as a plain
//! [`AnalysisOutcome`].  A failure yields one synthetic diagnostic for every
//! member — located best-effort from a `line:column` marker embedded in the
//! error text, else at the buffer start — and leaves the cache untouched; a
//! success replaces the cached model and publishes the translated analyzer
//! diagnostics.
use vstd::prelude::*;

use crate::cache::WorkspaceCache;
use crate::diagnostics::publish_spec;
use crate::diagnostics::publish_set;
use crate::diagnostics::to_zero_based;
use crate::diagnostics::EditorDiagView;
use crate::diagnostics::EditorDiagnostic;
use crate::diagnostics::EditorSeverity;
use crate::diagnostics::PubView;
use crate::diagnostics::Publication;
use crate::diagnostics::RawDiagnostic;
use crate::model::CachedModel;
use crate::text::push_chars;
use crate::text::push_lit;

verus! {

/// What the external parse-then-analyze run came to.
pub enum AnalysisOutcome {
    /// The parser rejected the bundle; its error text is kept.
    ParseFailure(Vec<char>),
    /// The parse succeeded and the analyzer failed; its error text is kept.
    AnalysisFailure(Vec<char>),
    /// Both succeeded: the structured model and the analyzer's diagnostics.
    Success(CachedModel, Vec<RawDiagnostic>),
}

/// An ASCII decimal digit.
pub open spec fn is_digit(c: char) -> bool {
    48 <= c as u32 && c as u32 <= 57
}

/// Executable test for [`is_digit`].
pub fn digit_char(c: char) -> (r: bool)
    ensures
        r == is_digit(c),
{
    let u = c as u32;
    48 <= u && u <= 57
}

/// The numeric value of one digit character.
pub open spec fn digit_val(c: char) -> nat {
    (c as u32 - 48) as nat
}

/// The numeric value of the digit run `[a, b)`.
pub open spec fn digits_val(s: Seq<char>, a: int, b: int) -> nat
    decreases b - a,
{
    if a >= b {
        0
    } else {
        digits_val(s, a, b - 1) * 10 + digit_val(s[b - 1])
    }
}

spec fn pow10(n: nat) -> nat
    decreases n,
{
    if n == 0 {
        1
    } else {
        10 * pow10((n - 1) as nat)
    }
}

proof fn lemma_pow10_mono(m: nat, n: nat)
    requires
        m <= n,
    ensures
        pow10(m) <= pow10(n),
        pow10(m) >= 1,
    decreases n,
{
    if n > 0 && m < n {
        lemma_pow10_mono(m, (n - 1) as nat);
    } else if n > 0 {
        lemma_pow10_mono((m - 1) as nat, (n - 1) as nat);
    }
}

proof fn lemma_digits_val_bound(s: Seq<char>, a: int, b: int)
    requires
        a <= b,
        forall|t: int| a <= t < b ==> is_digit(s[t]),
    ensures
        digits_val(s, a, b) < pow10((b - a) as nat),
    decreases b - a,
{
    if a < b {
        lemma_digits_val_bound(s, a, b - 1);
        assert(digit_val(s[b - 1]) <= 9);
    }
}

/// The position of the leftmost `line:column` marker at or after `i`: a
/// `':'` with a digit on each side; the length of `s` when there is none.
pub open spec fn next_marker(s: Seq<char>, i: int) -> int
    decreases s.len() - i,
{
    if i >= s.len() {
        s.len() as int
    } else if colon_marker_at(s, i) {
        i
    } else {
        next_marker(s, i + 1)
    }
}

/// Position `p` carries a `line:column` marker: a `':'` with a digit
/// immediately before and after it.
pub open spec fn colon_marker_at(s: Seq<char>, p: int) -> bool {
    1 <= p && p + 1 < s.len() && s[p] == ':' && is_digit(s[p - 1]) && is_digit(s[p + 1])
}

proof fn lemma_next_marker_unique(s: Seq<char>, i: int, j: int)
    requires
        0 <= i <= j <= s.len(),
        forall|t: int| i <= t < j ==> !colon_marker_at(s, t),
        j < s.len() ==> colon_marker_at(s, j),
    ensures
        next_marker(s, i) == j,
    decreases j - i,
{
    if i < j {
        lemma_next_marker_unique(s, i + 1, j);
    }
}

/// The start of the digit run that closes at `p`.
pub open spec fn digit_run_start(s: Seq<char>, p: int) -> int
    decreases p,
{
    if p <= 0 {
        0
    } else if is_digit(s[p - 1]) {
        digit_run_start(s, p - 1)
    } else {
        p
    }
}

/// The end of the digit run that opens at `p`.
pub open spec fn digit_run_end(s: Seq<char>, p: int) -> int
    decreases s.len() - p,
{
    if p < 0 || p >= s.len() || !is_digit(s[p]) {
        p
    } else {
        digit_run_end(s, p + 1)
    }
}

proof fn lemma_digit_run_start(s: Seq<char>, p: int)
    requires
        0 <= p <= s.len(),
    ensures
        0 <= digit_run_start(s, p) <= p,
        forall|t: int| digit_run_start(s, p) <= t < p ==> is_digit(s[t]),
    decreases p,
{
    if p > 0 && is_digit(s[p - 1]) {
        lemma_digit_run_start(s, p - 1);
    }
}

proof fn lemma_digit_run_end(s: Seq<char>, p: int)
    requires
        0 <= p <= s.len(),
    ensures
        p <= digit_run_end(s, p) <= s.len(),
        forall|t: int| p <= t < digit_run_end(s, p) ==> is_digit(s[t]),
    decreases s.len() - p,
{
    if p < s.len() && is_digit(s[p]) {
        lemma_digit_run_end(s, p + 1);
    }
}

/// The capped value of the digit run `[a, b)`: a run too long for a
/// machine word, or a value past the largest one, saturates.
pub open spec fn run_value(s: Seq<char>, a: int, b: int) -> int {
    if b - a > 18 {
        usize::MAX as int
    } else if digits_val(s, a, b) > usize::MAX {
        usize::MAX as int
    } else {
        digits_val(s, a, b) as int
    }
}

/// The best-effort location embedded in an error text: the digit runs
/// around the leftmost `line:column` marker, or `(0, 0)` when the text
/// carries none.
pub open spec fn extract_line_col_spec(s: Seq<char>) -> (int, int) {
    let p = next_marker(s, 0);
    if p < s.len() {
        (run_value(s, digit_run_start(s, p), p), run_value(s, p + 1, digit_run_end(s, p + 1)))
    } else {
        (0, 0)
    }
}

fn parse_run(s: &Vec<char>, a: usize, b: usize) -> (r: usize)
    requires
        a <= b <= s@.len(),
        forall|t: int| a <= t < b ==> is_digit(s@[t]),
    ensures
        r as int == run_value(s@, a as int, b as int),
{
    if b - a > 18 {
        return usize::MAX;
    }
    proof {
        reveal_with_fuel(pow10, 20);
        assert(pow10(18) == 1000000000000000000);
    }
    let mut acc: u64 = 0;
    let mut i = a;
    while i < b
        invariant
            a <= i <= b <= s@.len(),
            b - a <= 18,
            forall|t: int| a <= t < b ==> is_digit(s@[t]),
            acc == digits_val(s@, a as int, i as int),
            pow10(18) == 1000000000000000000,
        decreases b - i,
    {
        proof {
            lemma_digits_val_bound(s@, a as int, i as int);
            lemma_pow10_mono((i - a) as nat, 17);
            reveal_with_fuel(pow10, 20);
        }
        let c = s[i];
        let d = (c as u32) - 48;
        acc = acc * 10 + (d as u64);
        i += 1;
    }
    proof {
        lemma_digits_val_bound(s@, a as int, b as int);
        lemma_pow10_mono((b - a) as nat, 18);
    }
    if acc > usize::MAX as u64 {
        usize::MAX
    } else {
        acc as usize
    }
}

/// Extracts the best-effort `line:column` location from an error text.
pub fn extract_line_col(msg: &Vec<char>) -> (r: (usize, usize))
    ensures
        r.0 as int == extract_line_col_spec(msg@).0,
        r.1 as int == extract_line_col_spec(msg@).1,
{
    let n = msg.len();
    let mut p: usize = 0;
    while p < n && !(p >= 1 && p + 1 < n && msg[p] == ':' && digit_char(msg[p - 1]) && digit_char(
        msg[p + 1],
    ))
        invariant
            p <= n == msg@.len(),
            forall|t: int| 0 <= t < p ==> !colon_marker_at(msg@, t),
        decreases n - p,
    {
        p += 1;
    }
    proof {
        lemma_next_marker_unique(msg@, 0, p as int);
    }
    if p == n {
        return (0, 0);
    }
    // the digit run closing at the marker
    let mut a = p;
    while a > 0 && digit_char(msg[a - 1])
        invariant
            a <= p < n == msg@.len(),
            digit_run_start(msg@, p as int) == digit_run_start(msg@, a as int),
        decreases a,
    {
        a -= 1;
    }
    // the digit run opening after the marker
    let mut b = p + 1;
    while b < n && digit_char(msg[b])
        invariant
            p + 1 <= b <= n == msg@.len(),
            digit_run_end(msg@, p as int + 1) == digit_run_end(msg@, b as int),
        decreases n - b,
    {
        b += 1;
    }
    proof {
        lemma_digit_run_start(msg@, p as int);
        lemma_digit_run_end(msg@, p as int + 1);
    }
    let line = parse_run(msg, a, p);
    let col = parse_run(msg, p + 1, b);
    (line, col)
}

/// The one synthetic diagnostic of a failed run: the failure kind followed
/// by the collaborator's error text, located best-effort from that text.
pub open spec fn synthetic_diag_spec(prefix: Seq<char>, msg: Seq<char>) -> EditorDiagView {
    let lc = extract_line_col_spec(msg);
    EditorDiagView {
        severity: EditorSeverity::Error,
        message: prefix + msg,
        start_line: to_zero_based(lc.0),
        start_col: to_zero_based(lc.1),
        end_line: to_zero_based(lc.0),
        end_col: to_zero_based(lc.1) + 1,
    }
}

/// The publication set of a failed run: the one synthetic diagnostic for
/// every member of the workspace.
pub open spec fn failure_pubs_spec(members: Seq<Vec<char>>, d: EditorDiagView) -> Seq<PubView> {
    Seq::new(members.len(), |i: int| PubView { file: members[i]@, diagnostics: seq![d] })
}

fn failure_publications(members: &Vec<Vec<char>>, prefix: &str, msg: &Vec<char>) -> (r: Vec<
    Publication,
>)
    ensures
        r@.map_values(|p: Publication| p@) == failure_pubs_spec(
            members@,
            synthetic_diag_spec(prefix@, msg@),
        ),
        r@.len() == members@.len(),
        forall|i: int| 0 <= i < r@.len() ==> r@[i].file@ == members@[i]@,
{
    let (line, col) = extract_line_col(msg);
    let start_line = if line >= 1 {
        line - 1
    } else {
        0
    };
    let start_col = if col >= 1 {
        col - 1
    } else {
        0
    };
    let ghost d = synthetic_diag_spec(prefix@, msg@);
    let n = members.len();
    let mut r: Vec<Publication> = Vec::new();
    let mut i: usize = 0;
    while i < n
        invariant
            i <= n == members@.len(),
            line as int == extract_line_col_spec(msg@).0,
            col as int == extract_line_col_spec(msg@).1,
            start_line as int == to_zero_based(line as int),
            start_col as int == to_zero_based(col as int),
            d == synthetic_diag_spec(prefix@, msg@),
            r@.len() == i,
            forall|k: int| 0 <= k < i ==> r@[k].file@ == members@[k]@,
            r@.map_values(|p: Publication| p@) == failure_pubs_spec(members@, d).subrange(
                0,
                i as int,
            ),
        decreases n - i,
    {
        let mut message: Vec<char> = Vec::new();
        push_lit(&mut message, prefix);
        push_chars(&mut message, msg);
        let diag = EditorDiagnostic {
            severity: EditorSeverity::Error,
            message,
            start_line,
            start_col,
            end_line: start_line,
            end_col: start_col + 1,
        };
        proof {
            assert(diag@ == d);
        }
        let mut diagnostics: Vec<EditorDiagnostic> = Vec::new();
        diagnostics.push(diag);
        let file = crate::text::span_to_vec(&members[i], 0, members[i].len());
        proof {
            assert(members@[i as int]@.subrange(0, members@[i as int]@.len() as int) =~= members@[
                i as int]@);
        }
        r.push(Publication { file, diagnostics });
        proof {
            assert(diagnostics@.map_values(|dd: EditorDiagnostic| dd@) =~= seq![d]);
            assert(r@.map_values(|p: Publication| p@) =~= failure_pubs_spec(members@, d).subrange(
                0,
                i + 1,
            ));
        }
        i += 1;
    }
    proof {
        assert(failure_pubs_spec(members@, d).subrange(0, n as int) =~= failure_pubs_spec(
            members@,
            d,
        ));
    }
    r
}

/// Runs the aftermath of one analysis over the workspace with key `key`:
/// a success replaces that key's cached model and publishes the translated
/// analyzer diagnostics; either failure leaves the cache exactly as it was
/// and publishes one synthetic diagnostic.  Whatever the outcome, the
/// returned set covers every member of the workspace exactly once, in
/// member order.
pub fn run_analysis(
    cache: &mut WorkspaceCache,
    key: &Vec<char>,
    member_names: &Vec<Vec<char>>,
    outcome: AnalysisOutcome,
) -> (pubs: Vec<Publication>)
    ensures
        match outcome {
            AnalysisOutcome::Success(model, diags) => {
                &&& final(cache)@ == old(cache)@.insert(key@, model)
                &&& pubs@.map_values(|p: Publication| p@) == publish_spec(diags@, member_names@)
            },
            AnalysisOutcome::ParseFailure(msg) => {
                &&& final(cache)@ == old(cache)@
                &&& pubs@.map_values(|p: Publication| p@) == failure_pubs_spec(
                    member_names@,
                    synthetic_diag_spec("Parse error: "@, msg@),
                )
            },
            AnalysisOutcome::AnalysisFailure(msg) => {
                &&& final(cache)@ == old(cache)@
                &&& pubs@.map_values(|p: Publication| p@) == failure_pubs_spec(
                    member_names@,
                    synthetic_diag_spec("Analysis error: "@, msg@),
                )
            },
        },
        pubs@.len() == member_names@.len(),
        forall|i: int| 0 <= i < pubs@.len() ==> pubs@[i].file@ == member_names@[i]@,
{
    match outcome {
        AnalysisOutcome::ParseFailure(msg) => failure_publications(
            member_names,
            "Parse error: ",
            &msg,
        ),
        AnalysisOutcome::AnalysisFailure(msg) => failure_publications(
            member_names,
            "Analysis error: ",
            &msg,
        ),
        AnalysisOutcome::Success(model, diags) => {
            let pubs = publish_set(&diags, member_names);
            let mut key_copy: Vec<char> = Vec::new();
            push_chars(&mut key_copy, key);
            proof {
                assert(key_copy@ =~= key@);
            }
            cache.set(key_copy, model);
            pubs
        },
    }
}

} // verus!
