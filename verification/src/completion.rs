//! The completion generator: classifies the line prefix before the cursor
//! into a small set of contexts and emits a candidate list, partly static
//! and partly derived from the cached workspace model.
//!
//! Inside an open entity-kind bracket it offers the schema's declared type
//! names of that kind; after the scope operator it offers the traversal and
//! filter step vocabulary; otherwise the keyword and creation vocabulary.
//! The classification is a rule-based approximation over raw text, not a
//! grammar, and may both over- and under-trigger on pathological input.
use vstd::prelude::*;

use crate::lexical::marker_char;
use crate::model::CachedModel;
use crate::model::EntityKind;
use crate::model::NodeDef;
use crate::model::SchemaVersion;
use crate::model::VectorDef;
use crate::resolver::opt_model_view;
use crate::text::is_word_char;
use crate::text::push_lit;

verus! {

/// Position `i` opens a still-unclosed `<kind><` bracket whose partial
/// type name runs to the cursor.
pub open spec fn open_bracket_at(s: Seq<char>, col: int, i: int, kind: EntityKind) -> bool {
    &&& 0 <= i
    &&& i + 2 <= col <= s.len()
    &&& s[i] == marker_char(kind)
    &&& s[i + 1] == '<'
    &&& forall|t: int| i + 2 <= t < col ==> is_word_char(s[t])
}

/// Right-to-left scan for the nearest open bracket enclosing the cursor.
pub open spec fn open_bracket_scan(s: Seq<char>, col: int, i: int) -> Option<EntityKind>
    decreases i + 1,
{
    if i < 0 {
        None
    } else if open_bracket_at(s, col, i, EntityKind::Node) {
        Some(EntityKind::Node)
    } else if open_bracket_at(s, col, i, EntityKind::Edge) {
        Some(EntityKind::Edge)
    } else if open_bracket_at(s, col, i, EntityKind::Vector) {
        Some(EntityKind::Vector)
    } else {
        open_bracket_scan(s, col, i - 1)
    }
}

/// The cursor stands right after the scope operator `::`.
pub open spec fn after_scope_spec(s: Seq<char>, col: int) -> bool {
    col >= 2 && col <= s.len() && s[col - 1] == ':' && s[col - 2] == ':'
}

/// The declared type names of one kind in one schema version, in
/// declaration order.
pub open spec fn names_of_version(v: SchemaVersion, kind: EntityKind) -> Seq<Seq<char>> {
    match kind {
        EntityKind::Node => v.nodes@.map_values(|d: NodeDef| d.name@),
        EntityKind::Edge => v.edges@.map_values(|d: crate::model::EdgeDef| d.name@),
        EntityKind::Vector => v.vectors@.map_values(|d: VectorDef| d.name@),
    }
}

/// The declared type names of one kind across the versions at or after
/// `i`, one per declaration, in schema order.
pub open spec fn type_names_from(vs: Seq<SchemaVersion>, kind: EntityKind, i: int) -> Seq<
    Seq<char>,
>
    decreases vs.len() - i,
{
    if i < 0 || i >= vs.len() {
        Seq::empty()
    } else {
        names_of_version(vs[i], kind) + type_names_from(vs, kind, i + 1)
    }
}

/// The fixed vocabulary offered after the scope operator.
pub open spec fn step_vocab_spec() -> Seq<Seq<char>> {
    seq![
        "Out"@,
        "In"@,
        "OutE"@,
        "InE"@,
        "FromN"@,
        "ToN"@,
        "WHERE"@,
        "EXISTS"@,
        "COUNT"@,
        "UPDATE"@,
        "RANGE"@,
        "DROP"@,
    ]
}

/// The fixed vocabulary offered in an unclassified position.
pub open spec fn keyword_vocab_spec() -> Seq<Seq<char>> {
    seq![
        "QUERY"@,
        "RETURN"@,
        "FOR"@,
        "AddN"@,
        "AddE"@,
        "AddV"@,
        "SearchV"@,
        "EXISTS"@,
        "WHERE"@,
    ]
}

/// The completion candidates for a cursor position on one line: the
/// matching kind's schema type names inside an open entity bracket — none
/// without a cached model — the step vocabulary after the scope operator,
/// and the keyword vocabulary otherwise.
pub open spec fn completion_spec(m: Option<CachedModel>, line: Seq<char>, col: int) -> Seq<
    Seq<char>,
> {
    match open_bracket_scan(line, col, col - 2) {
        Some(kind) => match m {
            Some(model) => type_names_from(model.versions@, kind, 0),
            None => Seq::empty(),
        },
        None => if after_scope_spec(line, col) {
            step_vocab_spec()
        } else {
            keyword_vocab_spec()
        },
    }
}

fn open_bracket_here(line: &Vec<char>, col: usize, i: usize, kind: EntityKind) -> (r: bool)
    requires
        i + 2 <= col <= line@.len(),
    ensures
        r == open_bracket_at(line@, col as int, i as int, kind),
{
    let marker = match kind {
        EntityKind::Node => 'N',
        EntityKind::Edge => 'E',
        EntityKind::Vector => 'V',
    };
    if line[i] != marker || line[i + 1] != '<' {
        return false;
    }
    let mut t = i + 2;
    while t < col
        invariant
            i + 2 <= t <= col <= line@.len(),
            forall|u: int| i + 2 <= u < t ==> is_word_char(line@[u]),
        decreases col - t,
    {
        if !crate::text::word_char(line[t]) {
            return false;
        }
        t += 1;
    }
    true
}

fn lit_vec(s: &str) -> (r: Vec<char>)
    ensures
        r@ == s@,
{
    let mut r: Vec<char> = Vec::new();
    push_lit(&mut r, s);
    proof {
        assert(r@ =~= s@);
    }
    r
}

fn step_vocab() -> (r: Vec<Vec<char>>)
    ensures
        r@.map_values(|v: Vec<char>| v@) == step_vocab_spec(),
{
    let mut r: Vec<Vec<char>> = Vec::new();
    r.push(lit_vec("Out"));
    r.push(lit_vec("In"));
    r.push(lit_vec("OutE"));
    r.push(lit_vec("InE"));
    r.push(lit_vec("FromN"));
    r.push(lit_vec("ToN"));
    r.push(lit_vec("WHERE"));
    r.push(lit_vec("EXISTS"));
    r.push(lit_vec("COUNT"));
    r.push(lit_vec("UPDATE"));
    r.push(lit_vec("RANGE"));
    r.push(lit_vec("DROP"));
    proof {
        assert(r@.map_values(|v: Vec<char>| v@) =~= step_vocab_spec());
    }
    r
}

fn keyword_vocab() -> (r: Vec<Vec<char>>)
    ensures
        r@.map_values(|v: Vec<char>| v@) == keyword_vocab_spec(),
{
    let mut r: Vec<Vec<char>> = Vec::new();
    r.push(lit_vec("QUERY"));
    r.push(lit_vec("RETURN"));
    r.push(lit_vec("FOR"));
    r.push(lit_vec("AddN"));
    r.push(lit_vec("AddE"));
    r.push(lit_vec("AddV"));
    r.push(lit_vec("SearchV"));
    r.push(lit_vec("EXISTS"));
    r.push(lit_vec("WHERE"));
    proof {
        assert(r@.map_values(|v: Vec<char>| v@) =~= keyword_vocab_spec());
    }
    r
}

fn type_names(versions: &Vec<SchemaVersion>, kind: EntityKind) -> (r: Vec<Vec<char>>)
    ensures
        r@.map_values(|v: Vec<char>| v@) == type_names_from(versions@, kind, 0),
{
    let n = versions.len();
    let mut r: Vec<Vec<char>> = Vec::new();
    let mut i: usize = 0;
    while i < n
        invariant
            i <= n == versions@.len(),
            r@.map_values(|v: Vec<char>| v@) + type_names_from(versions@, kind, i as int)
                == type_names_from(versions@, kind, 0),
        decreases n - i,
    {
        let ghost before = r@.map_values(|v: Vec<char>| v@);
        match kind {
            EntityKind::Node => {
                let ds = &versions[i].nodes;
                let dn = ds.len();
                let mut j: usize = 0;
                while j < dn
                    invariant
                        j <= dn == ds@.len(),
                        ds@ == versions@[i as int].nodes@,
                        i < versions@.len(),
                        kind == EntityKind::Node,
                        r@.map_values(|v: Vec<char>| v@) == before + ds@.map_values(
                            |d: NodeDef| d.name@,
                        ).subrange(0, j as int),
                    decreases dn - j,
                {
                    r.push(crate::text::clone_chars(&ds[j].name));
                    proof {
                        assert(ds@.map_values(|d: NodeDef| d.name@).subrange(0, j + 1) =~= ds@
                            .map_values(|d: NodeDef| d.name@).subrange(0, j as int).push(
                            ds@[j as int].name@,
                        ));
                        assert(r@.map_values(|v: Vec<char>| v@) =~= (before + ds@.map_values(
                            |d: NodeDef| d.name@,
                        ).subrange(0, j as int)).push(ds@[j as int].name@));
                        assert((before + ds@.map_values(|d: NodeDef| d.name@).subrange(
                            0,
                            j as int,
                        )).push(ds@[j as int].name@) =~= before + ds@.map_values(
                            |d: NodeDef| d.name@,
                        ).subrange(0, j + 1));
                    }
                    j += 1;
                }
            },
            EntityKind::Edge => {
                let ds = &versions[i].edges;
                let dn = ds.len();
                let mut j: usize = 0;
                while j < dn
                    invariant
                        j <= dn == ds@.len(),
                        ds@ == versions@[i as int].edges@,
                        i < versions@.len(),
                        kind == EntityKind::Edge,
                        r@.map_values(|v: Vec<char>| v@) == before + ds@.map_values(
                            |d: crate::model::EdgeDef| d.name@,
                        ).subrange(0, j as int),
                    decreases dn - j,
                {
                    r.push(crate::text::clone_chars(&ds[j].name));
                    proof {
                        assert(ds@.map_values(|d: crate::model::EdgeDef| d.name@).subrange(0, j + 1) =~= ds@
                            .map_values(|d: crate::model::EdgeDef| d.name@).subrange(0, j as int).push(
                            ds@[j as int].name@,
                        ));
                        assert(r@.map_values(|v: Vec<char>| v@) =~= (before + ds@.map_values(
                            |d: crate::model::EdgeDef| d.name@,
                        ).subrange(0, j as int)).push(ds@[j as int].name@));
                        assert((before + ds@.map_values(|d: crate::model::EdgeDef| d.name@).subrange(
                            0,
                            j as int,
                        )).push(ds@[j as int].name@) =~= before + ds@.map_values(
                            |d: crate::model::EdgeDef| d.name@,
                        ).subrange(0, j + 1));
                    }
                    j += 1;
                }
            },
            EntityKind::Vector => {
                let ds = &versions[i].vectors;
                let dn = ds.len();
                let mut j: usize = 0;
                while j < dn
                    invariant
                        j <= dn == ds@.len(),
                        ds@ == versions@[i as int].vectors@,
                        i < versions@.len(),
                        kind == EntityKind::Vector,
                        r@.map_values(|v: Vec<char>| v@) == before + ds@.map_values(
                            |d: VectorDef| d.name@,
                        ).subrange(0, j as int),
                    decreases dn - j,
                {
                    r.push(crate::text::clone_chars(&ds[j].name));
                    proof {
                        assert(ds@.map_values(|d: VectorDef| d.name@).subrange(0, j + 1) =~= ds@
                            .map_values(|d: VectorDef| d.name@).subrange(0, j as int).push(
                            ds@[j as int].name@,
                        ));
                        assert(r@.map_values(|v: Vec<char>| v@) =~= (before + ds@.map_values(
                            |d: VectorDef| d.name@,
                        ).subrange(0, j as int)).push(ds@[j as int].name@));
                        assert((before + ds@.map_values(|d: VectorDef| d.name@).subrange(
                            0,
                            j as int,
                        )).push(ds@[j as int].name@) =~= before + ds@.map_values(
                            |d: VectorDef| d.name@,
                        ).subrange(0, j + 1));
                    }
                    j += 1;
                }
            },
        }
        proof {
            assert(names_of_version(versions@[i as int], kind).subrange(
                0,
                names_of_version(versions@[i as int], kind).len() as int,
            ) =~= names_of_version(versions@[i as int], kind));
            assert(r@.map_values(|v: Vec<char>| v@) + type_names_from(versions@, kind, i + 1)
                =~= type_names_from(versions@, kind, 0));
        }
        i += 1;
    }
    r
}

/// Emits the completion candidates for a cursor position on one line.
pub fn completions(model: Option<&CachedModel>, line: &Vec<char>, col: usize) -> (r: Vec<
    Vec<char>,
>)
    requires
        col <= line@.len(),
    ensures
        r@.map_values(|v: Vec<char>| v@) == completion_spec(opt_model_view(model), line@, col as int),
{
    if col >= 2 {
        let mut i = col - 2;
        loop
            invariant
                2 <= col <= line@.len(),
                i <= col - 2,
                open_bracket_scan(line@, col as int, (col - 2) as int) == open_bracket_scan(
                    line@,
                    col as int,
                    i as int,
                ),
            ensures
                open_bracket_scan(line@, col as int, (col - 2) as int) is None,
            decreases i,
        {
            let n = open_bracket_here(line, col, i, EntityKind::Node);
            let e = open_bracket_here(line, col, i, EntityKind::Edge);
            let v = open_bracket_here(line, col, i, EntityKind::Vector);
            if n || e || v {
                let kind = if n {
                    EntityKind::Node
                } else if e {
                    EntityKind::Edge
                } else {
                    EntityKind::Vector
                };
                match model {
                    Some(m) => {
                        return type_names(&m.versions, kind);
                    },
                    None => {
                        let r: Vec<Vec<char>> = Vec::new();
                        proof {
                            assert(r@.map_values(|v2: Vec<char>| v2@) =~= Seq::<Seq<char>>::empty());
                        }
                        return r;
                    },
                }
            }
            if i == 0 {
                proof {
                    assert(open_bracket_scan(line@, col as int, -1) is None);
                }
                break;
            }
            i -= 1;
        }
    }
    proof {
        if col < 2 {
            assert(open_bracket_scan(line@, col as int, col - 2) is None);
        }
    }
    if col >= 2 && line[col - 1] == ':' && line[col - 2] == ':' {
        step_vocab()
    } else {
        keyword_vocab()
    }
}

} // verus!
