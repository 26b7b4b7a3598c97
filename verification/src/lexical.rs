//! Lexical context recovery: the identifier under a cursor, the enclosing
//! generic-bracket context, and the object-field-access context.
//!
//! Everything here is local text scanning over one buffer; no token stream
//! and no parse tree is consulted, so these functions stay usable while the
//! buffer is mid-edit and does not parse.
use vstd::prelude::*;

use crate::model::EntityKind;
use crate::text::is_word_char;
use crate::text::word_char;

verus! {

/// The position of the first `'\n'` at or after `i`, or the length of `s`
/// if the rest of the buffer holds none.
pub open spec fn next_newline(s: Seq<char>, i: int) -> int
    decreases s.len() - i,
{
    if i < 0 {
        0
    } else if i >= s.len() {
        s.len() as int
    } else if s[i] == '\n' {
        i
    } else {
        next_newline(s, i + 1)
    }
}

proof fn lemma_next_newline(s: Seq<char>, i: int)
    requires
        0 <= i <= s.len(),
    ensures
        i <= next_newline(s, i) <= s.len(),
        next_newline(s, i) < s.len() ==> s[next_newline(s, i)] == '\n',
        forall|t: int| i <= t < next_newline(s, i) ==> s[t] != '\n',
    decreases s.len() - i,
{
    if i < s.len() && s[i] != '\n' {
        lemma_next_newline(s, i + 1);
    }
}

proof fn lemma_next_newline_unique(s: Seq<char>, i: int, j: int)
    requires
        0 <= i <= j <= s.len(),
        forall|t: int| i <= t < j ==> s[t] != '\n',
        j < s.len() ==> s[j] == '\n',
    ensures
        next_newline(s, i) == j,
    decreases j - i,
{
    if i < j {
        lemma_next_newline_unique(s, i + 1, j);
    }
}

/// The first character position of line number `line` (zero-based), counting
/// lines as separated by `'\n'`.  One past the end of the buffer means the
/// line does not exist.
pub open spec fn line_start(s: Seq<char>, line: nat) -> int
    decreases line,
{
    if line == 0 {
        0
    } else {
        next_newline(s, line_start(s, (line - 1) as nat)) + 1
    }
}

proof fn lemma_line_start_bound(s: Seq<char>, n: nat)
    ensures
        0 <= line_start(s, n) <= s.len() + 1,
    decreases n,
{
    if n > 0 {
        lemma_line_start_bound(s, (n - 1) as nat);
        let p = line_start(s, (n - 1) as nat);
        if p <= s.len() {
            lemma_next_newline(s, p);
        } else {
            assert(next_newline(s, p) == s.len() as int);
        }
    }
}

proof fn lemma_line_start_mono(s: Seq<char>, a: nat, b: nat)
    requires
        a <= b,
    ensures
        line_start(s, a) <= line_start(s, b),
    decreases b - a,
{
    if a < b {
        lemma_line_start_mono(s, a, (b - 1) as nat);
        lemma_line_start_bound(s, (b - 1) as nat);
        let p = line_start(s, (b - 1) as nat);
        if p <= s.len() {
            lemma_next_newline(s, p);
        } else {
            assert(next_newline(s, p) == s.len() as int);
        }
    }
}

proof fn lemma_line_start_ge(s: Seq<char>, line: nat)
    requires
        line_start(s, line) <= s.len(),
    ensures
        line_start(s, line) >= line,
    decreases line,
{
    if line > 0 {
        lemma_line_start_mono(s, (line - 1) as nat, line);
        lemma_line_start_bound(s, (line - 1) as nat);
        let p = line_start(s, (line - 1) as nat);
        if p <= s.len() {
            lemma_line_start_ge(s, (line - 1) as nat);
            lemma_next_newline(s, p);
        } else {
            assert(next_newline(s, p) == s.len() as int);
        }
    }
}

/// A line that exists lies within the buffer: its number is below the
/// buffer's length.
pub proof fn lemma_line_span_in_range(s: Seq<char>, line: nat)
    requires
        line_span_spec(s, line) is Some,
    ensures
        line < s.len(),
{
    lemma_line_start_ge(s, line);
}

/// The character span of line `line` in `s`: the text between the
/// surrounding line breaks, with a `'\r'` that closes the line stripped.
/// `None` when the buffer has fewer lines than that.
pub open spec fn line_span_spec(s: Seq<char>, line: nat) -> Option<(int, int)> {
    let st = line_start(s, line);
    if st < s.len() {
        let nl = next_newline(s, st);
        let en = if nl < s.len() && nl > st && s[nl - 1] == '\r' {
            nl - 1
        } else {
            nl
        };
        Some((st, en))
    } else {
        None
    }
}

/// A span pair as mathematical integers, for stating contracts.
pub open spec fn span_as_int(r: Option<(usize, usize)>) -> Option<(int, int)> {
    match r {
        Some((a, b)) => Some((a as int, b as int)),
        None => None,
    }
}

fn find_newline(text: &Vec<char>, i: usize) -> (r: usize)
    requires
        i <= text@.len(),
    ensures
        r == next_newline(text@, i as int),
        i <= r <= text@.len(),
{
    let n = text.len();
    let mut j = i;
    while j < n && text[j] != '\n'
        invariant
            i <= j <= n,
            n == text@.len(),
            forall|t: int| i <= t < j ==> text@[t] != '\n',
        decreases n - j,
    {
        j += 1;
    }
    proof {
        lemma_next_newline_unique(text@, i as int, j as int);
    }
    j
}

/// Finds the character span of line `line` of the buffer.
pub fn line_span(text: &Vec<char>, line: usize) -> (r: Option<(usize, usize)>)
    ensures
        span_as_int(r) == line_span_spec(text@, line as nat),
        r matches Some(sp) ==> sp.0 <= sp.1 <= text@.len(),
{
    let n = text.len();
    let mut start: usize = 0;
    let mut l: usize = 0;
    while l < line
        invariant
            l <= line,
            start <= n,
            n == text@.len(),
            start == line_start(text@, l as nat),
        decreases line - l,
    {
        let nl = find_newline(text, start);
        if nl == n {
            proof {
                assert(line_start(text@, (l + 1) as nat) == n + 1);
                lemma_line_start_mono(text@, (l + 1) as nat, line as nat);
            }
            return None;
        }
        start = nl + 1;
        l += 1;
    }
    if start == n {
        return None;
    }
    let nl = find_newline(text, start);
    proof {
        lemma_next_newline(text@, start as int);
    }
    let en = if nl < n && nl > start && text[nl - 1] == '\r' {
        nl - 1
    } else {
        nl
    };
    Some((start, en))
}

/// The start of the identifier run that closes at `col`: scan left while the
/// preceding character is an identifier character.
pub open spec fn word_start(s: Seq<char>, col: int) -> int
    decreases col,
{
    if col <= 0 {
        0
    } else if is_word_char(s[col - 1]) {
        word_start(s, col - 1)
    } else {
        col
    }
}

/// The end of the identifier run that opens at `col`: scan right while the
/// character is an identifier character.
pub open spec fn word_end(s: Seq<char>, col: int) -> int
    decreases s.len() - col,
{
    if col < 0 || col >= s.len() || !is_word_char(s[col]) {
        col
    } else {
        word_end(s, col + 1)
    }
}

/// The identifier span under the cursor: the maximal run of identifier
/// characters around `col`, a cursor sitting just past a run counting as
/// inside it.  `None` when the cursor is past the end of the line or rests
/// on a delimiter.
pub open spec fn word_at_spec(s: Seq<char>, col: int) -> Option<(int, int)> {
    if 0 <= col < s.len() {
        let st = word_start(s, col);
        let en = word_end(s, col);
        if st < en {
            Some((st, en))
        } else {
            None
        }
    } else {
        None
    }
}

proof fn lemma_word_start(s: Seq<char>, col: int)
    requires
        0 <= col <= s.len(),
    ensures
        0 <= word_start(s, col) <= col,
        forall|t: int| word_start(s, col) <= t < col ==> is_word_char(s[t]),
        word_start(s, col) > 0 ==> !is_word_char(s[word_start(s, col) - 1]),
    decreases col,
{
    if col > 0 && is_word_char(s[col - 1]) {
        lemma_word_start(s, col - 1);
    }
}

proof fn lemma_word_start_unique(s: Seq<char>, col: int, a: int)
    requires
        0 <= a <= col <= s.len(),
        forall|t: int| a <= t < col ==> is_word_char(s[t]),
        a > 0 ==> !is_word_char(s[a - 1]),
    ensures
        word_start(s, col) == a,
    decreases col - a,
{
    if a < col {
        lemma_word_start_unique(s, (col - 1) as int, a);
    }
}

proof fn lemma_word_end(s: Seq<char>, col: int)
    requires
        0 <= col <= s.len(),
    ensures
        col <= word_end(s, col) <= s.len(),
        forall|t: int| col <= t < word_end(s, col) ==> is_word_char(s[t]),
        word_end(s, col) < s.len() ==> !is_word_char(s[word_end(s, col)]),
    decreases s.len() - col,
{
    if col < s.len() && is_word_char(s[col]) {
        lemma_word_end(s, col + 1);
    }
}

proof fn lemma_word_end_unique(s: Seq<char>, col: int, b: int)
    requires
        0 <= col <= b <= s.len(),
        forall|t: int| col <= t < b ==> is_word_char(s[t]),
        b < s.len() ==> !is_word_char(s[b]),
    ensures
        word_end(s, col) == b,
    decreases b - col,
{
    if col < b {
        lemma_word_end_unique(s, col + 1, b);
    }
}

/// `[a, b)` is a maximal identifier span and the cursor at `col` touches it.
pub open spec fn maximal_word_span(s: Seq<char>, col: int, a: int, b: int) -> bool {
    &&& 0 <= a <= col <= b <= s.len()
    &&& a < b
    &&& forall|t: int| a <= t < b ==> is_word_char(s[t])
    &&& (a == 0 || !is_word_char(s[a - 1]))
    &&& (b == s.len() || !is_word_char(s[b]))
}

/// The identifier under the cursor is the unique maximal identifier span
/// touching the cursor, and there is none exactly when the cursor is out of
/// the line or rests between two non-identifier characters.
pub proof fn lemma_word_at_maximal(s: Seq<char>, col: int)
    ensures
        word_at_spec(s, col) matches Some(r) ==> maximal_word_span(s, col, r.0, r.1),
        forall|a: int, b: int|
            0 <= col < s.len() && maximal_word_span(s, col, a, b) ==> word_at_spec(s, col)
                == Some((a, b)),
        !(0 <= col < s.len()) ==> word_at_spec(s, col) is None,
{
    if 0 <= col < s.len() {
        lemma_word_start(s, col);
        lemma_word_end(s, col);
        assert forall|a: int, b: int| maximal_word_span(s, col, a, b) implies word_at_spec(s, col)
            == Some((a, b)) by {
            if col == b {
                lemma_word_start_unique(s, col, a);
                lemma_word_end_unique(s, col, b);
            } else {
                lemma_word_start_unique(s, col, a);
                lemma_word_end_unique(s, col, b);
            }
        }
    }
}

/// Finds the identifier span under the cursor on one line.
pub fn word_at(line: &Vec<char>, col: usize) -> (r: Option<(usize, usize)>)
    ensures
        span_as_int(r) == word_at_spec(line@, col as int),
        r matches Some(sp) ==> sp.0 <= sp.1 <= line@.len(),
{
    let n = line.len();
    if col >= n {
        return None;
    }
    let mut st = col;
    while st > 0 && word_char(line[st - 1])
        invariant
            st <= col < n,
            n == line@.len(),
            word_start(line@, col as int) == word_start(line@, st as int),
        decreases st,
    {
        st -= 1;
    }
    let mut en = col;
    while en < n && word_char(line[en])
        invariant
            col <= en <= n,
            n == line@.len(),
            word_end(line@, col as int) == word_end(line@, en as int),
        decreases n - en,
    {
        en += 1;
    }
    if st < en {
        Some((st, en))
    } else {
        None
    }
}

/// The marker character that opens a generic bracket of each entity kind.
pub open spec fn marker_char(kind: EntityKind) -> char {
    match kind {
        EntityKind::Node => 'N',
        EntityKind::Edge => 'E',
        EntityKind::Vector => 'V',
    }
}

/// The position of the first `'>'` at or after `i`, looking only at the
/// prefix `[0, end)`; `end` if that prefix holds none.
pub open spec fn next_gt(s: Seq<char>, end: int, i: int) -> int
    decreases end - i,
{
    if i < 0 {
        0
    } else if i >= end {
        end
    } else if s[i] == '>' {
        i
    } else {
        next_gt(s, end, i + 1)
    }
}

proof fn lemma_next_gt(s: Seq<char>, end: int, i: int)
    requires
        0 <= i <= end <= s.len(),
    ensures
        i <= next_gt(s, end, i) <= end,
        next_gt(s, end, i) < end ==> s[next_gt(s, end, i)] == '>',
        forall|t: int| i <= t < next_gt(s, end, i) ==> s[t] != '>',
    decreases end - i,
{
    if i < end && s[i] != '>' {
        lemma_next_gt(s, end, i + 1);
    }
}

proof fn lemma_next_gt_unique(s: Seq<char>, end: int, i: int, j: int)
    requires
        0 <= i <= j <= end <= s.len(),
        forall|t: int| i <= t < j ==> s[t] != '>',
        j < end ==> s[j] == '>',
    ensures
        next_gt(s, end, i) == j,
    decreases j - i,
{
    if i < j {
        lemma_next_gt_unique(s, end, i + 1, j);
    }
}

/// Position `i` of the prefix `[0, end)` opens a valid `<kind><ident`
/// occurrence: the kind's marker, `'<'`, then a non-empty identifier up to
/// the next `'>'` or, the bracket being still open, up to the cursor.
pub open spec fn valid_bracket_at(s: Seq<char>, end: int, i: int, kind: EntityKind) -> bool {
    &&& 0 <= i
    &&& i + 2 <= end <= s.len()
    &&& s[i] == marker_char(kind)
    &&& s[i + 1] == '<'
    &&& next_gt(s, end, i + 2) > i + 2
    &&& forall|t: int| i + 2 <= t < next_gt(s, end, i + 2) ==> is_word_char(s[t])
}

/// The type name written at a valid bracket occurrence.
pub open spec fn bracket_name(s: Seq<char>, end: int, i: int) -> Seq<char> {
    s.subrange(i + 2, next_gt(s, end, i + 2))
}

/// Right-to-left scan for the latest valid bracket occurrence whose marker
/// stands at or before `i`.
pub open spec fn bracket_scan(s: Seq<char>, end: int, i: int) -> Option<(EntityKind, Seq<char>)>
    decreases i + 1,
{
    if i < 0 {
        None
    } else if valid_bracket_at(s, end, i, EntityKind::Node) {
        Some((EntityKind::Node, bracket_name(s, end, i)))
    } else if valid_bracket_at(s, end, i, EntityKind::Edge) {
        Some((EntityKind::Edge, bracket_name(s, end, i)))
    } else if valid_bracket_at(s, end, i, EntityKind::Vector) {
        Some((EntityKind::Vector, bracket_name(s, end, i)))
    } else {
        bracket_scan(s, end, i - 1)
    }
}

/// The enclosing generic-bracket context of the prefix `[0, end)`: the
/// rightmost valid `<kind><ident` occurrence, whether or not the bracket is
/// already closed.
pub open spec fn bracket_context_spec(s: Seq<char>, end: int) -> Option<(EntityKind, Seq<char>)> {
    bracket_scan(s, end, end - 2)
}

proof fn lemma_bracket_scan_none(s: Seq<char>, end: int, i: int)
    requires
        bracket_scan(s, end, i) is None,
    ensures
        forall|j: int, kind: EntityKind| j <= i ==> !valid_bracket_at(s, end, j, kind),
    decreases i + 1,
{
    if i >= 0 {
        lemma_bracket_scan_none(s, end, i - 1);
    }
}

proof fn lemma_bracket_scan_some(s: Seq<char>, end: int, i: int) -> (p: int)
    requires
        bracket_scan(s, end, i) is Some,
    ensures
        p <= i,
        valid_bracket_at(s, end, p, bracket_scan(s, end, i).unwrap().0),
        bracket_scan(s, end, i).unwrap().1 == bracket_name(s, end, p),
        forall|j: int, kind: EntityKind| p < j <= i ==> !valid_bracket_at(s, end, j, kind),
    decreases i + 1,
{
    if valid_bracket_at(s, end, i, EntityKind::Node) || valid_bracket_at(
        s,
        end,
        i,
        EntityKind::Edge,
    ) || valid_bracket_at(s, end, i, EntityKind::Vector) {
        i
    } else {
        lemma_bracket_scan_some(s, end, i - 1)
    }
}

/// The bracket context is the rightmost valid occurrence before the cursor:
/// what it reports is a valid occurrence with no valid occurrence of any
/// kind to its right, and it reports nothing only when no position holds a
/// valid occurrence.
pub proof fn lemma_bracket_context_rightmost(s: Seq<char>, end: int)
    requires
        0 <= end <= s.len(),
    ensures
        bracket_context_spec(s, end) matches Some(r) ==> exists|p: int|
            {
                &&& valid_bracket_at(s, end, p, r.0)
                &&& r.1 == bracket_name(s, end, p)
                &&& forall|j: int, kind: EntityKind| j > p ==> !valid_bracket_at(s, end, j, kind)
            },
        bracket_context_spec(s, end) is None ==> forall|j: int, kind: EntityKind|
            !valid_bracket_at(s, end, j, kind),
{
    if bracket_context_spec(s, end) is Some {
        let r = bracket_context_spec(s, end).unwrap();
        let p = lemma_bracket_scan_some(s, end, end - 2);
        assert forall|j: int, kind: EntityKind| j > p implies !valid_bracket_at(
            s,
            end,
            j,
            kind,
        ) by {
            if j + 2 > end {
                assert(!valid_bracket_at(s, end, j, kind));
            }
        }
        assert(valid_bracket_at(s, end, p, r.0) && r.1 == bracket_name(s, end, p) && forall|
            j: int,
            kind: EntityKind,
        | j > p ==> !valid_bracket_at(s, end, j, kind));
    } else {
        lemma_bracket_scan_none(s, end, end - 2);
        assert forall|j: int, kind: EntityKind| true implies !valid_bracket_at(
            s,
            end,
            j,
            kind,
        ) by {
            if j + 2 > end {
                assert(!valid_bracket_at(s, end, j, kind));
            }
        }
    }
}

fn bracket_valid_here(line: &Vec<char>, end: usize, i: usize, kind: EntityKind) -> (r: bool)
    requires
        i + 2 <= end <= line@.len(),
    ensures
        r == valid_bracket_at(line@, end as int, i as int, kind),
{
    let marker = match kind {
        EntityKind::Node => 'N',
        EntityKind::Edge => 'E',
        EntityKind::Vector => 'V',
    };
    if line[i] != marker {
        return false;
    }
    if line[i + 1] != '<' {
        return false;
    }
    let mut k = i + 2;
    while k < end && line[k] != '>' && word_char(line[k])
        invariant
            i + 2 <= k <= end <= line@.len(),
            forall|t: int| i + 2 <= t < k ==> line@[t] != '>',
            forall|t: int| i + 2 <= t < k ==> is_word_char(line@[t]),
        decreases end - k,
    {
        k += 1;
    }
    if k < end && line[k] != '>' {
        // a non-identifier character stands before any closing bracket
        proof {
            lemma_next_gt(line@, end as int, i as int + 2);
            let g = next_gt(line@, end as int, i as int + 2);
            if g > k {
                assert(!is_word_char(line@[k as int]));
            }
        }
        return false;
    }
    proof {
        lemma_next_gt_unique(line@, end as int, i as int + 2, k as int);
    }
    k > i + 2
}

/// Finds the enclosing generic-bracket context of the prefix `[0, col)` of
/// one line: the rightmost `<kind><ident` occurrence among the three entity
/// kinds, tolerating a bracket not yet closed.
pub fn bracket_context(line: &Vec<char>, col: usize) -> (r: Option<(EntityKind, Vec<char>)>)
    requires
        col <= line@.len(),
    ensures
        match r {
            Some((kind, name)) => bracket_context_spec(line@, col as int) == Some(
                (kind, name@),
            ),
            None => bracket_context_spec(line@, col as int) is None,
        },
{
    if col < 2 {
        proof {
            assert(bracket_scan(line@, col as int, col - 2) is None);
        }
        return None;
    }
    let mut i = col - 2;
    loop
        invariant
            col <= line@.len(),
            col >= 2,
            i <= col - 2,
            bracket_scan(line@, col as int, (col - 2) as int) == bracket_scan(
                line@,
                col as int,
                i as int,
            ),
        decreases i,
    {
        let n = bracket_valid_here(line, col, i, EntityKind::Node);
        let e = bracket_valid_here(line, col, i, EntityKind::Edge);
        let v = bracket_valid_here(line, col, i, EntityKind::Vector);
        if n || e || v {
            let kind = if n {
                EntityKind::Node
            } else if e {
                EntityKind::Edge
            } else {
                EntityKind::Vector
            };
            let mut k = i + 2;
            while k < col && line[k] != '>'
                invariant
                    i + 2 <= k <= col <= line@.len(),
                    forall|t: int| i + 2 <= t < k ==> line@[t] != '>',
                decreases col - k,
            {
                k += 1;
            }
            proof {
                lemma_next_gt_unique(line@, col as int, i as int + 2, k as int);
            }
            let name = crate::text::span_to_vec(line, i + 2, k);
            return Some((kind, name));
        }
        if i == 0 {
            proof {
                assert(bracket_scan(line@, col as int, -1) is None);
            }
            return None;
        }
        i -= 1;
    }
}

/// Position `i` opens an object-field-access block: the characters `::{`.
pub open spec fn opener_at(s: Seq<char>, i: int) -> bool {
    0 <= i && i + 3 <= s.len() && s[i] == ':' && s[i + 1] == ':' && s[i + 2] == '{'
}

/// The cursor at `col` stands inside an unclosed object-field-access block
/// on this line: some `::{` opener is completed before the cursor with no
/// `'}'` between it and the cursor.
pub open spec fn field_access_spec(s: Seq<char>, col: int) -> bool {
    exists|o: int|
        opener_at(s, o) && o + 3 <= col && (forall|t: int| o + 3 <= t < col ==> s[t] != '}')
}

/// Decides [`field_access_spec`] for the prefix `[0, col)` of one line.
pub fn field_access_context(line: &Vec<char>, col: usize) -> (r: bool)
    requires
        col <= line@.len(),
    ensures
        r == field_access_spec(line@, col as int),
{
    if col < 3 {
        proof {
            assert forall|o: int| !(opener_at(line@, o) && o + 3 <= col) by {}
        }
        return false;
    }
    let mut i = col - 3;
    loop
        invariant
            3 <= col <= line@.len(),
            i <= col - 3,
            forall|o: int| i < o && opener_at(line@, o) && o + 3 <= col ==> false,
        decreases i,
    {
        if line[i] == ':' && line[i + 1] == ':' && line[i + 2] == '{' {
            // rightmost completed opener; search for an intervening closer
            let mut t = i + 3;
            let mut closed = false;
            while t < col && !closed
                invariant
                    i + 3 <= t <= col <= line@.len(),
                    closed ==> exists|u: int| i + 3 <= u < col && line@[u] == '}',
                    !closed ==> forall|u: int| i + 3 <= u < t ==> line@[u] != '}',
                decreases col - t,
            {
                if line[t] == '}' {
                    closed = true;
                }
                t += 1;
            }
            if !closed {
                assert(opener_at(line@, i as int) && i + 3 <= col && (forall|u: int|
                    i + 3 <= u < col ==> line@[u] != '}'));
                return true;
            }
            // every earlier opener also has this closer in its range
            proof {
                let u = choose|u: int| i + 3 <= u < col && line@[u] == '}';
                assert forall|o: int|
                    opener_at(line@, o) && o + 3 <= col implies !(forall|t2: int|
                    o + 3 <= t2 < col ==> line@[t2] != '}') by {
                    if o <= i {
                        assert(line@[u] == '}' && o + 3 <= u < col);
                    }
                }
            }
            return false;
        }
        if i == 0 {
            proof {
                assert forall|o: int| opener_at(line@, o) && o + 3 <= col implies false by {
                    assert(0 < o || o == 0);
                }
            }
            return false;
        }
        i -= 1;
    }
}


/// The full lexical context under a cursor: the identifier span, the
/// enclosing generic-bracket context, and whether the cursor stands inside
/// an unclosed object-field-access block.  Recomputed per request, never
/// cached.
pub struct LexicalContext {
    pub word: Option<(usize, usize)>,
    pub bracket: Option<(EntityKind, Vec<char>)>,
    pub field_access: bool,
}

/// Recovers the whole lexical context at one cursor position on a line.
pub fn lexical_context_at(line: &Vec<char>, col: usize) -> (r: LexicalContext)
    requires
        col <= line@.len(),
    ensures
        span_as_int(r.word) == word_at_spec(line@, col as int),
        match r.bracket {
            Some((kind, name)) => bracket_context_spec(line@, col as int) == Some((kind, name@)),
            None => bracket_context_spec(line@, col as int) is None,
        },
        r.field_access == field_access_spec(line@, col as int),
{
    LexicalContext {
        word: word_at(line, col),
        bracket: bracket_context(line, col),
        field_access: field_access_context(line, col),
    }
}

} // verus!
