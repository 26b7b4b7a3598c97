//! Diagnostic translation: maps analyzer output to per-file, editor-facing
//! diagnostic lists and prepares the full publication set for a workspace.
//!
//! Source locations arrive one-based and leave zero-based; a diagnostic's
//! hint is appended to its message; severities convert one-for-one, an empty
//! severity being published as informational.  Every member of the workspace
//! receives a list on every run — an empty one when it is clean — so that no
//! stale markers survive.
use vstd::prelude::*;

use crate::text::push_chars;
use crate::text::push_lit;

verus! {

/// A severity as the analyzer reports it.
#[derive(Clone, Copy, PartialEq, Eq, Structural, Debug)]
pub enum Severity {
    Error,
    Warning,
    Info,
    Hint,
    Empty,
}

/// A severity as the editor understands it.
#[derive(Clone, Copy, PartialEq, Eq, Structural, Debug)]
pub enum EditorSeverity {
    Error,
    Warning,
    Information,
    Hint,
}

/// A source location as the analyzer reports it: an optional owning file
/// and one-based line and column bounds.
pub struct RawLocation {
    pub file: Option<Vec<char>>,
    pub start_line: usize,
    pub start_col: usize,
    pub end_line: usize,
    pub end_col: usize,
}

/// A diagnostic as the analyzer reports it.
pub struct RawDiagnostic {
    pub severity: Severity,
    pub message: Vec<char>,
    pub hint: Option<Vec<char>>,
    pub location: RawLocation,
}

/// A diagnostic as published to the editor: zero-based range, hint folded
/// into the message.
#[derive(PartialEq, Debug)]
pub struct EditorDiagnostic {
    pub severity: EditorSeverity,
    pub message: Vec<char>,
    pub start_line: usize,
    pub start_col: usize,
    pub end_line: usize,
    pub end_col: usize,
}

/// The diagnostic list to publish for one member file.
#[derive(PartialEq, Debug)]
pub struct Publication {
    pub file: Vec<char>,
    pub diagnostics: Vec<EditorDiagnostic>,
}

/// The mathematical model of a raw diagnostic.
pub ghost struct RawDiagView {
    pub severity: Severity,
    pub message: Seq<char>,
    pub hint: Option<Seq<char>>,
    pub file: Option<Seq<char>>,
    pub start_line: int,
    pub start_col: int,
    pub end_line: int,
    pub end_col: int,
}

/// The mathematical model of an editor diagnostic.
pub ghost struct EditorDiagView {
    pub severity: EditorSeverity,
    pub message: Seq<char>,
    pub start_line: int,
    pub start_col: int,
    pub end_line: int,
    pub end_col: int,
}

/// The mathematical model of one member's publication.
pub ghost struct PubView {
    pub file: Seq<char>,
    pub diagnostics: Seq<EditorDiagView>,
}

impl View for RawDiagnostic {
    type V = RawDiagView;

    open spec fn view(&self) -> RawDiagView {
        RawDiagView {
            severity: self.severity,
            message: self.message@,
            hint: match self.hint {
                Some(h) => Some(h@),
                None => None,
            },
            file: match self.location.file {
                Some(f) => Some(f@),
                None => None,
            },
            start_line: self.location.start_line as int,
            start_col: self.location.start_col as int,
            end_line: self.location.end_line as int,
            end_col: self.location.end_col as int,
        }
    }
}

impl View for EditorDiagnostic {
    type V = EditorDiagView;

    open spec fn view(&self) -> EditorDiagView {
        EditorDiagView {
            severity: self.severity,
            message: self.message@,
            start_line: self.start_line as int,
            start_col: self.start_col as int,
            end_line: self.end_line as int,
            end_col: self.end_col as int,
        }
    }
}

impl View for Publication {
    type V = PubView;

    open spec fn view(&self) -> PubView {
        PubView {
            file: self.file@,
            diagnostics: self.diagnostics@.map_values(|d: EditorDiagnostic| d@),
        }
    }
}

/// Severity conversion: one-for-one, with the empty severity published as
/// informational.
pub open spec fn editor_severity(s: Severity) -> EditorSeverity {
    match s {
        Severity::Error => EditorSeverity::Error,
        Severity::Warning => EditorSeverity::Warning,
        Severity::Info => EditorSeverity::Information,
        Severity::Hint => EditorSeverity::Hint,
        Severity::Empty => EditorSeverity::Information,
    }
}

/// The published message: the diagnostic's message, and its hint appended
/// after a blank line when one is present.
pub open spec fn full_message(message: Seq<char>, hint: Option<Seq<char>>) -> Seq<char> {
    match hint {
        Some(h) => message + "\n\nHint: "@ + h,
        None => message,
    }
}

/// A one-based source coordinate as a zero-based editor coordinate.
pub open spec fn to_zero_based(x: int) -> int {
    if x >= 1 {
        x - 1
    } else {
        0
    }
}

/// What translating one raw diagnostic yields.
pub open spec fn convert_spec(d: RawDiagView) -> EditorDiagView {
    EditorDiagView {
        severity: editor_severity(d.severity),
        message: full_message(d.message, d.hint),
        start_line: to_zero_based(d.start_line),
        start_col: to_zero_based(d.start_col),
        end_line: to_zero_based(d.end_line),
        end_col: to_zero_based(d.end_col),
    }
}

/// Translates one analyzer diagnostic for the editor.
pub fn convert_diagnostic(d: &RawDiagnostic) -> (r: EditorDiagnostic)
    ensures
        r@ == convert_spec(d@),
{
    let severity = match d.severity {
        Severity::Error => EditorSeverity::Error,
        Severity::Warning => EditorSeverity::Warning,
        Severity::Info => EditorSeverity::Information,
        Severity::Hint => EditorSeverity::Hint,
        Severity::Empty => EditorSeverity::Information,
    };
    let mut message: Vec<char> = Vec::new();
    push_chars(&mut message, &d.message);
    match &d.hint {
        Some(h) => {
            push_lit(&mut message, "\n\nHint: ");
            push_chars(&mut message, h);
            proof {
                assert(message@ =~= full_message(d@.message, d@.hint));
            }
        },
        None => {
            proof {
                assert(message@ =~= full_message(d@.message, d@.hint));
            }
        },
    }
    EditorDiagnostic {
        severity,
        message,
        start_line: if d.location.start_line >= 1 {
            d.location.start_line - 1
        } else {
            0
        },
        start_col: if d.location.start_col >= 1 {
            d.location.start_col - 1
        } else {
            0
        },
        end_line: if d.location.end_line >= 1 {
            d.location.end_line - 1
        } else {
            0
        },
        end_col: if d.location.end_col >= 1 {
            d.location.end_col - 1
        } else {
            0
        },
    }
}

/// Diagnostic `d` is attributed to member `i` of `members`: to the member
/// whose file name the diagnostic carries, or, the owning file being
/// absent, to the first member — a documented arbitrary choice.
pub open spec fn attributed_to(d: RawDiagnostic, members: Seq<Vec<char>>, i: int) -> bool {
    match d.location.file {
        Some(f) => f@ == members[i]@,
        None => i == 0,
    }
}

/// The translated diagnostics attributed to member `i`, in report order.
pub open spec fn member_diags(
    diags: Seq<RawDiagnostic>,
    members: Seq<Vec<char>>,
    i: int,
) -> Seq<EditorDiagView>
    decreases diags.len(),
{
    if diags.len() == 0 {
        Seq::empty()
    } else {
        let rest = member_diags(diags.drop_last(), members, i);
        if attributed_to(diags.last(), members, i) {
            rest.push(convert_spec(diags.last()@))
        } else {
            rest
        }
    }
}

/// The full publication set of one run: one entry per member, in member
/// order, holding exactly the diagnostics attributed to it.
pub open spec fn publish_spec(diags: Seq<RawDiagnostic>, members: Seq<Vec<char>>) -> Seq<PubView> {
    Seq::new(members.len(), |i: int| PubView { file: members[i]@, diagnostics: member_diags(diags, members, i) })
}

fn diags_for_member(diags: &Vec<RawDiagnostic>, members: &Vec<Vec<char>>, i: usize) -> (r: Vec<
    EditorDiagnostic,
>)
    requires
        i < members@.len(),
    ensures
        r@.map_values(|d: EditorDiagnostic| d@) == member_diags(diags@, members@, i as int),
{
    let mut r: Vec<EditorDiagnostic> = Vec::new();
    let n = diags.len();
    let mut j: usize = 0;
    while j < n
        invariant
            i < members@.len(),
            j <= n == diags@.len(),
            r@.map_values(|d: EditorDiagnostic| d@) == member_diags(
                diags@.subrange(0, j as int),
                members@,
                i as int,
            ),
        decreases n - j,
    {
        let d = &diags[j];
        let owned = match &d.location.file {
            Some(f) => crate::text::chars_eq(f, &members[i]),
            None => i == 0,
        };
        if owned {
            let c = convert_diagnostic(d);
            r.push(c);
        }
        proof {
            let prefix = diags@.subrange(0, j as int);
            let prefix1 = diags@.subrange(0, j + 1);
            assert(prefix1.drop_last() =~= prefix);
            assert(prefix1.last() == diags@[j as int]);
            if attributed_to(diags@[j as int], members@, i as int) {
                assert(r@.map_values(|d: EditorDiagnostic| d@) =~= member_diags(
                    prefix,
                    members@,
                    i as int,
                ).push(convert_spec(diags@[j as int]@)));
            }
        }
        j += 1;
    }
    proof {
        assert(diags@.subrange(0, n as int) =~= diags@);
    }
    r
}

/// Builds the full publication set for one run: every member of the
/// workspace appears exactly once, in member order, clean members with an
/// empty list.
pub fn publish_set(diags: &Vec<RawDiagnostic>, members: &Vec<Vec<char>>) -> (r: Vec<Publication>)
    ensures
        r@.map_values(|p: Publication| p@) == publish_spec(diags@, members@),
        r@.len() == members@.len(),
        forall|i: int| 0 <= i < r@.len() ==> r@[i].file@ == members@[i]@,
{
    let n = members.len();
    let mut r: Vec<Publication> = Vec::new();
    let mut i: usize = 0;
    while i < n
        invariant
            i <= n == members@.len(),
            r@.len() == i,
            r@.map_values(|p: Publication| p@) == publish_spec(diags@, members@).subrange(
                0,
                i as int,
            ),
            forall|k: int| 0 <= k < i ==> r@[k].file@ == members@[k]@,
        decreases n - i,
    {
        let file = crate::text::span_to_vec(&members[i], 0, members[i].len());
        proof {
            assert(members@[i as int]@.subrange(0, members@[i as int]@.len() as int) =~= members@[
                i as int]@);
        }
        let diagnostics = diags_for_member(diags, members, i);
        r.push(Publication { file, diagnostics });
        proof {
            assert(r@.map_values(|p: Publication| p@) =~= publish_spec(
                diags@,
                members@,
            ).subrange(0, i + 1));
        }
        i += 1;
    }
    proof {
        assert(publish_spec(diags@, members@).subrange(0, n as int) =~= publish_spec(
            diags@,
            members@,
        ));
    }
    r
}

/// Translating the same analyzer output for the same workspace twice yields
/// identical publication sets: the full list published per run is a
/// function of the analyzer output and the member set alone.
pub proof fn lemma_publication_idempotent(
    diags: Seq<RawDiagnostic>,
    members: Seq<Vec<char>>,
    r1: Seq<PubView>,
    r2: Seq<PubView>,
)
    requires
        r1 == publish_spec(diags, members),
        r2 == publish_spec(diags, members),
    ensures
        r1 == r2,
{
}

} // verus!
