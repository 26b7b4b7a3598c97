//! The symbol resolver: an ordered chain of specialized lookups that turns
//! the lexical context under a cursor and the cached workspace model into
//! hover text or a definition target.
//!
//! Resolution order, the first non-empty answer winning: keyword
//! documentation, schema type documentation, inferred variable types,
//! declared parameter types, and contextual field types inside an
//! object-field-access block.  Finding nothing is a normal negative result.
use vstd::prelude::*;

use crate::keywords::keyword_doc_spec;
use crate::lexical::bracket_context_spec;
use crate::lexical::line_span_spec;
use crate::lexical::opener_at;
use crate::lexical::word_at_spec;
use crate::model::CachedModel;
use crate::model::EdgeDef;
use crate::model::EntityKind;
use crate::model::Expr;
use crate::model::FieldDef;
use crate::model::FieldType;
use crate::model::NodeDef;
use crate::model::ParamDef;
use crate::model::QueryDef;
use crate::model::SchemaVersion;
use crate::model::Statement;
use crate::model::VarType;
use crate::model::VectorDef;
use crate::text::opt_chars_view;
use crate::text::push_chars;
use crate::text::push_lit;

verus! {

/// The rendering of a declared field type: its name, `[..]` around an
/// array's element type, and `{..}` for a nested object.
pub open spec fn render_type_spec(t: FieldType) -> Seq<char>
    decreases t,
{
    match t {
        FieldType::Named(n) => n@,
        FieldType::Array(b) => "["@ + render_type_spec(*b) + "]"@,
        FieldType::Object(_) => "{..}"@,
    }
}

/// Renders a declared field type, appending to `out`.
pub fn render_type_into(out: &mut Vec<char>, t: &FieldType)
    ensures
        final(out)@ == old(out)@ + render_type_spec(*t),
    decreases *t,
{
    match t {
        FieldType::Named(n) => {
            push_chars(out, n);
        },
        FieldType::Array(b) => {
            push_lit(out, "[");
            render_type_into(out, b);
            push_lit(out, "]");
            proof {
                assert(old(out)@ + "["@ + render_type_spec(**b) + "]"@ =~= old(out)@ + ("["@
                    + render_type_spec(**b) + "]"@));
            }
        },
        FieldType::Object(_) => {
            push_lit(out, "{..}");
        },
    }
}

/// The rendering of a field list from position `i` on: one `- name: type`
/// line per field.
pub open spec fn render_fields_from(fs: Seq<FieldDef>, i: int) -> Seq<char>
    decreases fs.len() - i,
{
    if i < 0 || i >= fs.len() {
        Seq::empty()
    } else {
        "\n- "@ + fs[i].name@ + ": "@ + render_type_spec(fs[i].ty) + render_fields_from(fs, i + 1)
    }
}

/// Renders a field list, appending to `out`.
pub fn render_fields_into(out: &mut Vec<char>, fs: &Vec<FieldDef>)
    ensures
        final(out)@ == old(out)@ + render_fields_from(fs@, 0),
{
    let n = fs.len();
    let mut i: usize = 0;
    while i < n
        invariant
            i <= n == fs@.len(),
            out@ + render_fields_from(fs@, i as int) == old(out)@ + render_fields_from(fs@, 0),
        decreases n - i,
    {
        let ghost before = out@;
        push_lit(out, "\n- ");
        push_chars(out, &fs[i].name);
        push_lit(out, ": ");
        render_type_into(out, &fs[i].ty);
        proof {
            assert(out@ =~= before + ("\n- "@ + fs@[i as int].name@ + ": "@ + render_type_spec(
                fs@[i as int].ty,
            )));
            assert(before + ("\n- "@ + fs@[i as int].name@ + ": "@ + render_type_spec(
                fs@[i as int].ty,
            )) + render_fields_from(fs@, i + 1) =~= before + render_fields_from(fs@, i as int));
        }
        i += 1;
    }
}

/// The hover rendering of a node type: its name and its field list.
pub open spec fn node_doc_spec(d: NodeDef) -> Seq<char> {
    "**"@ + d.name@ + "** - Node type\n"@ + render_fields_from(d.fields@, 0)
}

/// The hover rendering of an edge type: its name, its endpoint types and
/// its field list.
pub open spec fn edge_doc_spec(d: EdgeDef) -> Seq<char> {
    "**"@ + d.name@ + "** - Edge type\n\nFrom: "@ + d.from_type@ + "\nTo: "@ + d.to_type@ + "\n"@
        + render_fields_from(d.fields@, 0)
}

/// The hover rendering of a vector type: its name and its field list.
pub open spec fn vector_doc_spec(d: VectorDef) -> Seq<char> {
    "**"@ + d.name@ + "** - Vector type\n"@ + render_fields_from(d.fields@, 0)
}

/// The first node of `ns` at or after `i` that declares the name `w`.
pub open spec fn find_node_from(ns: Seq<NodeDef>, w: Seq<char>, i: int) -> Option<NodeDef>
    decreases ns.len() - i,
{
    if i < 0 || i >= ns.len() {
        None
    } else if ns[i].name@ == w {
        Some(ns[i])
    } else {
        find_node_from(ns, w, i + 1)
    }
}

/// The first edge of `es` at or after `i` that declares the name `w`.
pub open spec fn find_edge_from(es: Seq<EdgeDef>, w: Seq<char>, i: int) -> Option<EdgeDef>
    decreases es.len() - i,
{
    if i < 0 || i >= es.len() {
        None
    } else if es[i].name@ == w {
        Some(es[i])
    } else {
        find_edge_from(es, w, i + 1)
    }
}

/// The first vector of `vs` at or after `i` that declares the name `w`.
pub open spec fn find_vector_from(vs: Seq<VectorDef>, w: Seq<char>, i: int) -> Option<VectorDef>
    decreases vs.len() - i,
{
    if i < 0 || i >= vs.len() {
        None
    } else if vs[i].name@ == w {
        Some(vs[i])
    } else {
        find_vector_from(vs, w, i + 1)
    }
}

/// A schema declaration found by name: the node, edge or vector that won.
pub enum SchemaHit {
    NodeHit(NodeDef),
    EdgeHit(EdgeDef),
    VectorHit(VectorDef),
}

/// The declaration named `w` in one schema version: nodes take precedence
/// over edges, edges over vectors.
pub open spec fn find_in_version(v: SchemaVersion, w: Seq<char>) -> Option<SchemaHit> {
    if find_node_from(v.nodes@, w, 0) is Some {
        Some(SchemaHit::NodeHit(find_node_from(v.nodes@, w, 0).unwrap()))
    } else if find_edge_from(v.edges@, w, 0) is Some {
        Some(SchemaHit::EdgeHit(find_edge_from(v.edges@, w, 0).unwrap()))
    } else if find_vector_from(v.vectors@, w, 0) is Some {
        Some(SchemaHit::VectorHit(find_vector_from(v.vectors@, w, 0).unwrap()))
    } else {
        None
    }
}

/// The declaration named `w` across the schema versions at or after `i`,
/// earlier versions taking precedence.
pub open spec fn find_schema_from(vs: Seq<SchemaVersion>, w: Seq<char>, i: int) -> Option<
    SchemaHit,
>
    decreases vs.len() - i,
{
    if i < 0 || i >= vs.len() {
        None
    } else if find_in_version(vs[i], w) is Some {
        find_in_version(vs[i], w)
    } else {
        find_schema_from(vs, w, i + 1)
    }
}

/// The hover rendering of a found schema declaration.
pub open spec fn hit_doc_spec(h: SchemaHit) -> Seq<char> {
    match h {
        SchemaHit::NodeHit(d) => node_doc_spec(d),
        SchemaHit::EdgeHit(d) => edge_doc_spec(d),
        SchemaHit::VectorHit(d) => vector_doc_spec(d),
    }
}

/// Schema type documentation for the word `w`, when some version declares
/// a type of that name.
pub open spec fn schema_doc_spec(vs: Seq<SchemaVersion>, w: Seq<char>) -> Option<Seq<char>> {
    match find_schema_from(vs, w, 0) {
        Some(h) => Some(hit_doc_spec(h)),
        None => None,
    }
}

fn find_node<'a>(ns: &'a Vec<NodeDef>, w: &Vec<char>) -> (r: Option<&'a NodeDef>)
    ensures
        match r {
            Some(d) => find_node_from(ns@, w@, 0) == Some(*d),
            None => find_node_from(ns@, w@, 0) is None,
        },
{
    let n = ns.len();
    let mut i: usize = 0;
    while i < n
        invariant
            i <= n == ns@.len(),
            find_node_from(ns@, w@, 0) == find_node_from(ns@, w@, i as int),
        decreases n - i,
    {
        if crate::text::chars_eq(&ns[i].name, w) {
            return Some(&ns[i]);
        }
        i += 1;
    }
    None
}

fn find_edge<'a>(es: &'a Vec<EdgeDef>, w: &Vec<char>) -> (r: Option<&'a EdgeDef>)
    ensures
        match r {
            Some(d) => find_edge_from(es@, w@, 0) == Some(*d),
            None => find_edge_from(es@, w@, 0) is None,
        },
{
    let n = es.len();
    let mut i: usize = 0;
    while i < n
        invariant
            i <= n == es@.len(),
            find_edge_from(es@, w@, 0) == find_edge_from(es@, w@, i as int),
        decreases n - i,
    {
        if crate::text::chars_eq(&es[i].name, w) {
            return Some(&es[i]);
        }
        i += 1;
    }
    None
}

fn find_vector<'a>(vs: &'a Vec<VectorDef>, w: &Vec<char>) -> (r: Option<&'a VectorDef>)
    ensures
        match r {
            Some(d) => find_vector_from(vs@, w@, 0) == Some(*d),
            None => find_vector_from(vs@, w@, 0) is None,
        },
{
    let n = vs.len();
    let mut i: usize = 0;
    while i < n
        invariant
            i <= n == vs@.len(),
            find_vector_from(vs@, w@, 0) == find_vector_from(vs@, w@, i as int),
        decreases n - i,
    {
        if crate::text::chars_eq(&vs[i].name, w) {
            return Some(&vs[i]);
        }
        i += 1;
    }
    None
}

/// Renders the schema type documentation for `w`, when some version of the
/// workspace's schema declares a type of that name.
pub fn schema_doc(versions: &Vec<SchemaVersion>, w: &Vec<char>) -> (r: Option<Vec<char>>)
    ensures
        match r {
            Some(d) => schema_doc_spec(versions@, w@) == Some(d@),
            None => schema_doc_spec(versions@, w@) is None,
        },
{
    let n = versions.len();
    let mut i: usize = 0;
    while i < n
        invariant
            i <= n == versions@.len(),
            find_schema_from(versions@, w@, 0) == find_schema_from(versions@, w@, i as int),
        decreases n - i,
    {
        let v = &versions[i];
        if let Some(d) = find_node(&v.nodes, w) {
            let mut out: Vec<char> = Vec::new();
            push_lit(&mut out, "**");
            push_chars(&mut out, &d.name);
            push_lit(&mut out, "** - Node type\n");
            render_fields_into(&mut out, &d.fields);
            proof {
                assert(out@ =~= node_doc_spec(*d));
            }
            return Some(out);
        }
        if let Some(d) = find_edge(&v.edges, w) {
            let mut out: Vec<char> = Vec::new();
            push_lit(&mut out, "**");
            push_chars(&mut out, &d.name);
            push_lit(&mut out, "** - Edge type\n\nFrom: ");
            push_chars(&mut out, &d.from_type);
            push_lit(&mut out, "\nTo: ");
            push_chars(&mut out, &d.to_type);
            push_lit(&mut out, "\n");
            render_fields_into(&mut out, &d.fields);
            proof {
                assert(out@ =~= edge_doc_spec(*d));
            }
            return Some(out);
        }
        if let Some(d) = find_vector(&v.vectors, w) {
            let mut out: Vec<char> = Vec::new();
            push_lit(&mut out, "**");
            push_chars(&mut out, &d.name);
            push_lit(&mut out, "** - Vector type\n");
            render_fields_into(&mut out, &d.fields);
            proof {
                assert(out@ =~= vector_doc_spec(*d));
            }
            return Some(out);
        }
        i += 1;
    }
    None
}

/// The declaration location of the schema type named `w`: its file and its
/// one-based line and column, as the source reported them.
pub open spec fn schema_def_loc_spec(vs: Seq<SchemaVersion>, w: Seq<char>) -> Option<
    (Seq<char>, int, int),
> {
    match find_schema_from(vs, w, 0) {
        Some(SchemaHit::NodeHit(d)) => Some((d.loc.file@, d.loc.line as int, d.loc.col as int)),
        Some(SchemaHit::EdgeHit(d)) => Some((d.loc.file@, d.loc.line as int, d.loc.col as int)),
        Some(SchemaHit::VectorHit(d)) => Some((d.loc.file@, d.loc.line as int, d.loc.col as int)),
        None => None,
    }
}

/// Finds where the schema type named `w` was declared.
pub fn schema_def_loc(versions: &Vec<SchemaVersion>, w: &Vec<char>) -> (r: Option<
    (Vec<char>, usize, usize),
>)
    ensures
        match r {
            Some(loc) => schema_def_loc_spec(versions@, w@) == Some(
                (loc.0@, loc.1 as int, loc.2 as int),
            ),
            None => schema_def_loc_spec(versions@, w@) is None,
        },
{
    let n = versions.len();
    let mut i: usize = 0;
    while i < n
        invariant
            i <= n == versions@.len(),
            find_schema_from(versions@, w@, 0) == find_schema_from(versions@, w@, i as int),
        decreases n - i,
    {
        let v = &versions[i];
        if let Some(d) = find_node(&v.nodes, w) {
            let file = crate::text::span_to_vec(&d.loc.file, 0, d.loc.file.len());
            proof {
                assert(d.loc.file@.subrange(0, d.loc.file@.len() as int) =~= d.loc.file@);
            }
            return Some((file, d.loc.line, d.loc.col));
        }
        if let Some(d) = find_edge(&v.edges, w) {
            let file = crate::text::span_to_vec(&d.loc.file, 0, d.loc.file.len());
            proof {
                assert(d.loc.file@.subrange(0, d.loc.file@.len() as int) =~= d.loc.file@);
            }
            return Some((file, d.loc.line, d.loc.col));
        }
        if let Some(d) = find_vector(&v.vectors, w) {
            let file = crate::text::span_to_vec(&d.loc.file, 0, d.loc.file.len());
            proof {
                assert(d.loc.file@.subrange(0, d.loc.file@.len() as int) =~= d.loc.file@);
            }
            return Some((file, d.loc.line, d.loc.col));
        }
        i += 1;
    }
    None
}


/// The first query at or after `i` whose one-based source line span
/// contains `line1`.
pub open spec fn query_containing_from(qs: Seq<QueryDef>, line1: int, i: int) -> Option<QueryDef>
    decreases qs.len() - i,
{
    if i < 0 || i >= qs.len() {
        None
    } else if qs[i].start_line <= line1 <= qs[i].end_line {
        Some(qs[i])
    } else {
        query_containing_from(qs, line1, i + 1)
    }
}

fn query_at_line<'a>(qs: &'a Vec<QueryDef>, line1: usize) -> (r: Option<&'a QueryDef>)
    ensures
        match r {
            Some(q) => query_containing_from(qs@, line1 as int, 0) == Some(*q),
            None => query_containing_from(qs@, line1 as int, 0) is None,
        },
{
    let n = qs.len();
    let mut i: usize = 0;
    while i < n
        invariant
            i <= n == qs@.len(),
            query_containing_from(qs@, line1 as int, 0) == query_containing_from(
                qs@,
                line1 as int,
                i as int,
            ),
        decreases n - i,
    {
        if qs[i].start_line <= line1 && line1 <= qs[i].end_line {
            return Some(&qs[i]);
        }
        i += 1;
    }
    None
}

/// The first assignment binding `w` in one statement, looking through loop
/// bodies.
pub open spec fn assign_in_stmt(s: Statement, w: Seq<char>) -> Option<Expr>
    decreases s,
{
    match s {
        Statement::Assign(x, e) => if x@ == w {
            Some(e)
        } else {
            None
        },
        Statement::Loop(body) => assign_in_stmts(body@, w),
        Statement::Other => None,
    }
}

/// The first assignment binding `w` in a statement list, in statement
/// order, looking through loop bodies.
pub open spec fn assign_in_stmts(ss: Seq<Statement>, w: Seq<char>) -> Option<Expr>
    decreases ss,
{
    if ss.len() == 0 {
        None
    } else {
        match assign_in_stmt(ss[0], w) {
            Some(e) => Some(e),
            None => assign_in_stmts(ss.subrange(1, ss.len() as int), w),
        }
    }
}

fn find_assign<'a>(ss: &'a Vec<Statement>, w: &Vec<char>) -> (r: Option<&'a Expr>)
    ensures
        match r {
            Some(e) => assign_in_stmts(ss@, w@) == Some(*e),
            None => assign_in_stmts(ss@, w@) is None,
        },
    decreases ss@,
{
    let n = ss.len();
    proof {
        assert(ss@.subrange(0, ss@.len() as int) =~= ss@);
    }
    let mut i: usize = 0;
    while i < n
        invariant
            i <= n == ss@.len(),
            assign_in_stmts(ss@, w@) == assign_in_stmts(
                ss@.subrange(i as int, ss@.len() as int),
                w@,
            ),
        decreases n - i,
    {
        let ghost suf = ss@.subrange(i as int, ss@.len() as int);
        proof {
            assert(suf[0] == ss@[i as int]);
            assert(suf.subrange(1, suf.len() as int) =~= ss@.subrange(
                i + 1,
                ss@.len() as int,
            ));
        }
        match &ss[i] {
            Statement::Assign(x, e) => {
                if crate::text::chars_eq(x, w) {
                    proof {
                        assert(assign_in_stmt(suf[0], w@) == Some(*e));
                        assert(assign_in_stmts(suf, w@) == Some(*e));
                    }
                    return Some(e);
                }
            },
            Statement::Loop(body) => {
                proof {
                    assert(decreases_to!(ss@ => ss@[i as int]));
                    assert(decreases_to!(ss@[i as int] => *body));
                    assert(decreases_to!(*body => body@));
                }
                let res = find_assign(body, w);
                if let Some(e) = res {
                    proof {
                        assert(assign_in_stmt(suf[0], w@) == Some(*e));
                        assert(assign_in_stmts(suf, w@) == Some(*e));
                    }
                    return Some(e);
                }
            },
            Statement::Other => {},
        }
        i += 1;
    }
    proof {
        assert(ss@.subrange(n as int, ss@.len() as int) =~= Seq::<Statement>::empty());
    }
    None
}

/// The mathematical model of an inferred variable type.
pub ghost enum VarTypeView {
    Entity(EntityKind, Option<Seq<char>>),
    Primitive(Seq<char>),
}

impl View for VarType {
    type V = VarTypeView;

    open spec fn view(&self) -> VarTypeView {
        match self {
            VarType::Entity(k, t) => VarTypeView::Entity(*k, opt_chars_view(*t)),
            VarType::Primitive(p) => VarTypeView::Primitive(p@),
        }
    }
}

/// The type an assignment's right-hand side denotes: an entity's declared
/// type for a construction; for a traversal, the edge its first step
/// constructs, else its start node's kind; a literal's primitive kind.
/// Any other expression yields no inference.
pub open spec fn infer_expr_spec(e: Expr) -> Option<VarTypeView> {
    match e {
        Expr::AddNode(t) => Some(VarTypeView::Entity(EntityKind::Node, opt_chars_view(t))),
        Expr::AddEdge(t) => Some(VarTypeView::Entity(EntityKind::Edge, opt_chars_view(t))),
        Expr::AddVector(t) => Some(VarTypeView::Entity(EntityKind::Vector, opt_chars_view(t))),
        Expr::Traversal(tr) => if tr.steps@.len() > 0 && tr.steps@[0] is AddEdgeStep {
            Some(
                VarTypeView::Entity(
                    EntityKind::Edge,
                    opt_chars_view(tr.steps@[0]->AddEdgeStep_0),
                ),
            )
        } else {
            Some(VarTypeView::Entity(EntityKind::Node, opt_chars_view(tr.start_type)))
        },
        Expr::Literal(k) => Some(VarTypeView::Primitive(k@)),
        Expr::Other => None,
    }
}

fn infer_from_expr(e: &Expr) -> (r: Option<VarType>)
    ensures
        match r {
            Some(v) => infer_expr_spec(*e) == Some(v@),
            None => infer_expr_spec(*e) is None,
        },
{
    match e {
        Expr::AddNode(t) => Some(
            VarType::Entity(EntityKind::Node, crate::text::clone_opt_chars(t)),
        ),
        Expr::AddEdge(t) => Some(
            VarType::Entity(EntityKind::Edge, crate::text::clone_opt_chars(t)),
        ),
        Expr::AddVector(t) => Some(
            VarType::Entity(EntityKind::Vector, crate::text::clone_opt_chars(t)),
        ),
        Expr::Traversal(tr) => {
            if tr.steps.len() > 0 {
                match &tr.steps[0] {
                    crate::model::StepExpr::AddEdgeStep(t) => Some(
                        VarType::Entity(EntityKind::Edge, crate::text::clone_opt_chars(t)),
                    ),
                    crate::model::StepExpr::OtherStep => Some(
                        VarType::Entity(
                            EntityKind::Node,
                            crate::text::clone_opt_chars(&tr.start_type),
                        ),
                    ),
                }
            } else {
                Some(
                    VarType::Entity(EntityKind::Node, crate::text::clone_opt_chars(&tr.start_type)),
                )
            }
        },
        Expr::Literal(k) => Some(VarType::Primitive(crate::text::clone_chars(k))),
        Expr::Other => None,
    }
}

/// The type inferred for the variable `w` at one-based line `line1`: the
/// right-hand side of its binding in the query whose span contains the
/// line.
pub open spec fn infer_var_spec(m: CachedModel, line1: int, w: Seq<char>) -> Option<VarTypeView> {
    match query_containing_from(m.queries@, line1, 0) {
        Some(q) => match assign_in_stmts(q.statements@, w) {
            Some(e) => infer_expr_spec(e),
            None => None,
        },
        None => None,
    }
}

/// Infers the type of the variable `w` on zero-based editor line `line`.
pub fn infer_var_type(m: &CachedModel, line: usize, w: &Vec<char>) -> (r: Option<VarType>)
    requires
        line < usize::MAX,
    ensures
        match r {
            Some(v) => infer_var_spec(*m, line as int + 1, w@) == Some(v@),
            None => infer_var_spec(*m, line as int + 1, w@) is None,
        },
{
    match query_at_line(&m.queries, line + 1) {
        Some(q) => match find_assign(&q.statements, w) {
            Some(e) => infer_from_expr(e),
            None => None,
        },
        None => None,
    }
}

/// The display name of an entity kind.
pub open spec fn kind_name(k: EntityKind) -> Seq<char> {
    match k {
        EntityKind::Node => "Node"@,
        EntityKind::Edge => "Edge"@,
        EntityKind::Vector => "Vector"@,
    }
}

/// The rendering of an inferred variable type.
pub open spec fn var_type_render(v: VarTypeView) -> Seq<char> {
    match v {
        VarTypeView::Entity(k, Some(t)) => kind_name(k) + "<"@ + t + ">"@,
        VarTypeView::Entity(k, None) => kind_name(k),
        VarTypeView::Primitive(p) => p,
    }
}

/// The hover rendering of an inferred variable.
pub open spec fn var_doc_spec(w: Seq<char>, v: VarTypeView) -> Seq<char> {
    "**"@ + w + "** - Inferred type: "@ + var_type_render(v)
}

fn var_doc(w: &Vec<char>, v: &VarType) -> (r: Vec<char>)
    ensures
        r@ == var_doc_spec(w@, v@),
{
    let mut out: Vec<char> = Vec::new();
    push_lit(&mut out, "**");
    push_chars(&mut out, w);
    push_lit(&mut out, "** - Inferred type: ");
    match v {
        VarType::Entity(k, t) => {
            match k {
                EntityKind::Node => push_lit(&mut out, "Node"),
                EntityKind::Edge => push_lit(&mut out, "Edge"),
                EntityKind::Vector => push_lit(&mut out, "Vector"),
            }
            if let Some(t) = t {
                push_lit(&mut out, "<");
                push_chars(&mut out, t);
                push_lit(&mut out, ">");
            }
        },
        VarType::Primitive(p) => {
            push_chars(&mut out, p);
        },
    }
    proof {
        assert(out@ =~= var_doc_spec(w@, v@));
    }
    out
}

/// The first parameter of `ps` at or after `i` that declares the name `w`.
pub open spec fn find_param_from(ps: Seq<ParamDef>, w: Seq<char>, i: int) -> Option<ParamDef>
    decreases ps.len() - i,
{
    if i < 0 || i >= ps.len() {
        None
    } else if ps[i].name@ == w {
        Some(ps[i])
    } else {
        find_param_from(ps, w, i + 1)
    }
}

/// The hover rendering of a declared parameter: its type, and an optional
/// marker when the parameter is optional.
pub open spec fn param_doc_spec(p: ParamDef) -> Seq<char> {
    "**"@ + p.name@ + "** - Parameter: "@ + render_type_spec(p.ty) + (if p.optional {
        " (optional)"@
    } else {
        Seq::<char>::empty()
    })
}

/// The parameter documentation for the word `w` at one-based line `line1`:
/// the declaration of `w` in the parameter list of the enclosing query.
pub open spec fn param_doc_for(m: CachedModel, line1: int, w: Seq<char>) -> Option<Seq<char>> {
    match query_containing_from(m.queries@, line1, 0) {
        Some(q) => match find_param_from(q.params@, w, 0) {
            Some(p) => Some(param_doc_spec(p)),
            None => None,
        },
        None => None,
    }
}

/// Renders the parameter documentation for `w` on zero-based editor line
/// `line`.
pub fn param_doc(m: &CachedModel, line: usize, w: &Vec<char>) -> (r: Option<Vec<char>>)
    requires
        line < usize::MAX,
    ensures
        match r {
            Some(d) => param_doc_for(*m, line as int + 1, w@) == Some(d@),
            None => param_doc_for(*m, line as int + 1, w@) is None,
        },
{
    let q = match query_at_line(&m.queries, line + 1) {
        Some(q) => q,
        None => {
            return None;
        },
    };
    let n = q.params.len();
    let mut i: usize = 0;
    while i < n
        invariant
            i <= n == q.params@.len(),
            query_containing_from(m.queries@, line as int + 1, 0) == Some(*q),
            find_param_from(q.params@, w@, 0) == find_param_from(q.params@, w@, i as int),
        decreases n - i,
    {
        if crate::text::chars_eq(&q.params[i].name, w) {
            let p = &q.params[i];
            let mut out: Vec<char> = Vec::new();
            push_lit(&mut out, "**");
            push_chars(&mut out, &p.name);
            push_lit(&mut out, "** - Parameter: ");
            render_type_into(&mut out, &p.ty);
            if p.optional {
                push_lit(&mut out, " (optional)");
            }
            proof {
                assert(out@ =~= param_doc_spec(q.params@[i as int]));
                assert(find_param_from(q.params@, w@, i as int) == Some(q.params@[i as int]));
                assert(param_doc_for(*m, line as int + 1, w@) == Some(param_doc_spec(
                    q.params@[i as int],
                )));
            }
            return Some(out);
        }
        i += 1;
    }
    None
}


/// Right-to-left scan for the latest completed `::{` opener before the
/// cursor, starting the search at position `i`; `-1` when there is none.
pub open spec fn opener_scan(s: Seq<char>, col: int, i: int) -> int
    decreases i + 1,
{
    if i < 0 {
        -1
    } else if opener_at(s, i) && i + 3 <= col {
        i
    } else {
        opener_scan(s, col, i - 1)
    }
}

/// The unclosed object-field-access opener enclosing the cursor: the
/// rightmost completed `::{` before `col` with no `'}'` between it and the
/// cursor.
pub open spec fn field_opener_spec(s: Seq<char>, col: int) -> Option<int> {
    let o = opener_scan(s, col, col - 3);
    if o >= 0 && (forall|t: int| o + 3 <= t < col ==> s[t] != '}') {
        Some(o)
    } else {
        None
    }
}

fn field_opener(line: &Vec<char>, col: usize) -> (r: Option<usize>)
    requires
        col <= line@.len(),
    ensures
        match r {
            Some(o) => field_opener_spec(line@, col as int) == Some(o as int),
            None => field_opener_spec(line@, col as int) is None,
        },
        r matches Some(o) ==> o + 3 <= col,
{
    if col < 3 {
        return None;
    }
    let mut i = col - 3;
    loop
        invariant
            3 <= col <= line@.len(),
            i <= col - 3,
            opener_scan(line@, col as int, (col - 3) as int) == opener_scan(
                line@,
                col as int,
                i as int,
            ),
        decreases i,
    {
        if line[i] == ':' && line[i + 1] == ':' && line[i + 2] == '{' {
            proof {
                assert(opener_at(line@, i as int));
                assert(opener_scan(line@, col as int, i as int) == i as int);
            }
            let mut t = i + 3;
            while t < col
                invariant
                    i + 3 <= t <= col <= line@.len(),
                    opener_scan(line@, col as int, (col - 3) as int) == i as int,
                    forall|u: int| i + 3 <= u < t ==> line@[u] != '}',
                decreases col - t,
            {
                if line[t] == '}' {
                    proof {
                        assert(line@[t as int] == '}' && i + 3 <= t < col);
                    }
                    return None;
                }
                t += 1;
            }
            return Some(i);
        }
        if i == 0 {
            proof {
                assert(opener_scan(line@, col as int, -1) == -1);
            }
            return None;
        }
        i -= 1;
    }
}

/// The documentation of the built-in fields every entity carries, and of
/// the ones edges and vectors add.
pub open spec fn builtin_field_doc_spec(kind: EntityKind, w: Seq<char>) -> Option<&'static str> {
    if w == "id"@ {
        Some("**id** - ID - The element's unique identifier")
    } else if w == "label"@ {
        Some("**label** - String - The element's schema type name")
    } else if kind is Edge && w == "from_node"@ {
        Some("**from_node** - ID - The edge's source node")
    } else if kind is Edge && w == "to_node"@ {
        Some("**to_node** - ID - The edge's target node")
    } else if kind is Vector && w == "data"@ {
        Some("**data** - [F64] - The vector's data")
    } else if kind is Vector && w == "score"@ {
        Some("**score** - F64 - The vector's similarity score")
    } else {
        None
    }
}

fn builtin_field_doc(kind: EntityKind, w: &Vec<char>) -> (r: Option<&'static str>)
    ensures
        r == builtin_field_doc_spec(kind, w@),
{
    if crate::text::chars_eq_lit(w, "id") {
        Some("**id** - ID - The element's unique identifier")
    } else if crate::text::chars_eq_lit(w, "label") {
        Some("**label** - String - The element's schema type name")
    } else if matches!(kind, EntityKind::Edge) && crate::text::chars_eq_lit(w, "from_node") {
        Some("**from_node** - ID - The edge's source node")
    } else if matches!(kind, EntityKind::Edge) && crate::text::chars_eq_lit(w, "to_node") {
        Some("**to_node** - ID - The edge's target node")
    } else if matches!(kind, EntityKind::Vector) && crate::text::chars_eq_lit(w, "data") {
        Some("**data** - [F64] - The vector's data")
    } else if matches!(kind, EntityKind::Vector) && crate::text::chars_eq_lit(w, "score") {
        Some("**score** - F64 - The vector's similarity score")
    } else {
        None
    }
}

/// The first node declaration named `name` across the versions at or
/// after `i`.
pub open spec fn find_node_def(vs: Seq<SchemaVersion>, name: Seq<char>, i: int) -> Option<NodeDef>
    decreases vs.len() - i,
{
    if i < 0 || i >= vs.len() {
        None
    } else if find_node_from(vs[i].nodes@, name, 0) is Some {
        find_node_from(vs[i].nodes@, name, 0)
    } else {
        find_node_def(vs, name, i + 1)
    }
}

/// The first edge declaration named `name` across the versions at or
/// after `i`.
pub open spec fn find_edge_def(vs: Seq<SchemaVersion>, name: Seq<char>, i: int) -> Option<EdgeDef>
    decreases vs.len() - i,
{
    if i < 0 || i >= vs.len() {
        None
    } else if find_edge_from(vs[i].edges@, name, 0) is Some {
        find_edge_from(vs[i].edges@, name, 0)
    } else {
        find_edge_def(vs, name, i + 1)
    }
}

/// The first vector declaration named `name` across the versions at or
/// after `i`.
pub open spec fn find_vector_def(vs: Seq<SchemaVersion>, name: Seq<char>, i: int) -> Option<
    VectorDef,
>
    decreases vs.len() - i,
{
    if i < 0 || i >= vs.len() {
        None
    } else if find_vector_from(vs[i].vectors@, name, 0) is Some {
        find_vector_from(vs[i].vectors@, name, 0)
    } else {
        find_vector_def(vs, name, i + 1)
    }
}

/// The first field of `fs` at or after `i` named `w`.
pub open spec fn find_field_from(fs: Seq<FieldDef>, w: Seq<char>, i: int) -> Option<FieldDef>
    decreases fs.len() - i,
{
    if i < 0 || i >= fs.len() {
        None
    } else if fs[i].name@ == w {
        Some(fs[i])
    } else {
        find_field_from(fs, w, i + 1)
    }
}

/// The hover rendering of a declared field.
pub open spec fn declared_field_doc_spec(f: FieldDef) -> Seq<char> {
    "**"@ + f.name@ + "**: "@ + render_type_spec(f.ty)
}

/// The declared fields of the entity of kind `kind` named `name`, if some
/// version declares it.
pub open spec fn fields_of_entity(
    vs: Seq<SchemaVersion>,
    kind: EntityKind,
    name: Seq<char>,
) -> Option<Seq<FieldDef>> {
    match kind {
        EntityKind::Node => match find_node_def(vs, name, 0) {
            Some(d) => Some(d.fields@),
            None => None,
        },
        EntityKind::Edge => match find_edge_def(vs, name, 0) {
            Some(d) => Some(d.fields@),
            None => None,
        },
        EntityKind::Vector => match find_vector_def(vs, name, 0) {
            Some(d) => Some(d.fields@),
            None => None,
        },
    }
}

/// The contextual field documentation for `w` inside an entity of kind
/// `kind` named `name`: the built-in fields first, then the declared ones.
pub open spec fn field_doc_spec(
    vs: Seq<SchemaVersion>,
    kind: EntityKind,
    name: Seq<char>,
    w: Seq<char>,
) -> Option<Seq<char>> {
    match builtin_field_doc_spec(kind, w) {
        Some(d) => Some(d@),
        None => match fields_of_entity(vs, kind, name) {
            Some(fs) => match find_field_from(fs, w, 0) {
                Some(f) => Some(declared_field_doc_spec(f)),
                None => None,
            },
            None => None,
        },
    }
}

fn fields_of<'a>(versions: &'a Vec<SchemaVersion>, kind: EntityKind, name: &Vec<char>) -> (r:
    Option<&'a Vec<FieldDef>>)
    ensures
        match r {
            Some(fs) => fields_of_entity(versions@, kind, name@) == Some(fs@),
            None => fields_of_entity(versions@, kind, name@) is None,
        },
{
    let n = versions.len();
    let mut i: usize = 0;
    match kind {
        EntityKind::Node => {
            while i < n
                invariant
                    i <= n == versions@.len(),
                    kind == EntityKind::Node,
                    find_node_def(versions@, name@, 0) == find_node_def(
                        versions@,
                        name@,
                        i as int,
                    ),
                decreases n - i,
            {
                if let Some(d) = find_node(&versions[i].nodes, name) {
                    return Some(&d.fields);
                }
                i += 1;
            }
            None
        },
        EntityKind::Edge => {
            while i < n
                invariant
                    i <= n == versions@.len(),
                    kind == EntityKind::Edge,
                    find_edge_def(versions@, name@, 0) == find_edge_def(
                        versions@,
                        name@,
                        i as int,
                    ),
                decreases n - i,
            {
                if let Some(d) = find_edge(&versions[i].edges, name) {
                    return Some(&d.fields);
                }
                i += 1;
            }
            None
        },
        EntityKind::Vector => {
            while i < n
                invariant
                    i <= n == versions@.len(),
                    kind == EntityKind::Vector,
                    find_vector_def(versions@, name@, 0) == find_vector_def(
                        versions@,
                        name@,
                        i as int,
                    ),
                decreases n - i,
            {
                if let Some(d) = find_vector(&versions[i].vectors, name) {
                    return Some(&d.fields);
                }
                i += 1;
            }
            None
        },
    }
}

/// Renders the contextual field documentation for `w` inside the entity of
/// kind `kind` named `name`.
pub fn field_context_doc(
    versions: &Vec<SchemaVersion>,
    kind: EntityKind,
    name: &Vec<char>,
    w: &Vec<char>,
) -> (r: Option<Vec<char>>)
    ensures
        match r {
            Some(d) => field_doc_spec(versions@, kind, name@, w@) == Some(d@),
            None => field_doc_spec(versions@, kind, name@, w@) is None,
        },
{
    if let Some(d) = builtin_field_doc(kind, w) {
        let mut out: Vec<char> = Vec::new();
        push_lit(&mut out, d);
        proof {
            assert(out@ =~= d@);
        }
        return Some(out);
    }
    let fs = match fields_of(versions, kind, name) {
        Some(fs) => fs,
        None => {
            return None;
        },
    };
    let n = fs.len();
    let mut i: usize = 0;
    while i < n
        invariant
            i <= n == fs@.len(),
            fields_of_entity(versions@, kind, name@) == Some(fs@),
            builtin_field_doc_spec(kind, w@) is None,
            find_field_from(fs@, w@, 0) == find_field_from(fs@, w@, i as int),
        decreases n - i,
    {
        if crate::text::chars_eq(&fs[i].name, w) {
            let mut out: Vec<char> = Vec::new();
            push_lit(&mut out, "**");
            push_chars(&mut out, &fs[i].name);
            push_lit(&mut out, "**: ");
            render_type_into(&mut out, &fs[i].ty);
            proof {
                assert(out@ =~= declared_field_doc_spec(fs@[i as int]));
            }
            return Some(out);
        }
        i += 1;
    }
    None
}

/// What an optional borrowed model denotes.
pub open spec fn opt_model_view(m: Option<&CachedModel>) -> Option<CachedModel> {
    match m {
        Some(model) => Some(*model),
        None => None,
    }
}

/// The hover answer for the word under the cursor on one line: keyword
/// documentation, then schema types, then inferred variables, then
/// parameters, then contextual fields, the first non-empty answer winning.
pub open spec fn hover_line_spec(
    m: Option<CachedModel>,
    line: Seq<char>,
    line1: int,
    col: int,
) -> Option<Seq<char>> {
    match word_at_spec(line, col) {
        Some((a, b)) => {
            let w = line.subrange(a, b);
            if keyword_doc_spec(w) is Some {
                Some(keyword_doc_spec(w).unwrap()@)
            } else {
                match m {
                    Some(model) => if schema_doc_spec(model.versions@, w) is Some {
                        schema_doc_spec(model.versions@, w)
                    } else if infer_var_spec(model, line1, w) is Some {
                        Some(var_doc_spec(w, infer_var_spec(model, line1, w).unwrap()))
                    } else if param_doc_for(model, line1, w) is Some {
                        param_doc_for(model, line1, w)
                    } else {
                        match field_opener_spec(line, col) {
                            Some(o) => match bracket_context_spec(line, o) {
                                Some((kind, name)) => field_doc_spec(
                                    model.versions@,
                                    kind,
                                    name,
                                    w,
                                ),
                                None => None,
                            },
                            None => None,
                        }
                    },
                    None => None,
                }
            }
        },
        None => None,
    }
}

/// The hover answer for a cursor position in a buffer.
pub open spec fn hover_spec(
    m: Option<CachedModel>,
    text: Seq<char>,
    line: int,
    col: int,
) -> Option<Seq<char>> {
    if line < 0 {
        None
    } else {
        match line_span_spec(text, line as nat) {
            Some((st, en)) => hover_line_spec(m, text.subrange(st, en), line + 1, col),
            None => None,
        }
    }
}

/// Answers a hover request: resolves the word under the cursor against the
/// static keyword registry and the workspace's cached model.
pub fn hover_text(
    model: Option<&CachedModel>,
    text: &Vec<char>,
    line: usize,
    character: usize,
) -> (r: Option<Vec<char>>)
    ensures
        match r {
            Some(d) => hover_spec(opt_model_view(model), text@, line as int, character as int)
                == Some(d@),
            None => hover_spec(opt_model_view(model), text@, line as int, character as int)
                is None,
        },
{
    let (lst, len) = match crate::lexical::line_span(text, line) {
        Some(sp) => sp,
        None => {
            return None;
        },
    };
    proof {
        crate::lexical::lemma_line_span_in_range(text@, line as nat);
    }
    let text_len = text.len();
    proof {
        assert(line < text_len);
    }
    let line_buf = crate::text::span_to_vec(text, lst, len);
    let (a, b) = match crate::lexical::word_at(&line_buf, character) {
        Some(sp) => sp,
        None => {
            return None;
        },
    };
    let w = crate::text::span_to_vec(&line_buf, a, b);
    if let Some(d) = crate::keywords::keyword_doc(&w) {
        let mut out: Vec<char> = Vec::new();
        push_lit(&mut out, d);
        proof {
            assert(out@ =~= d@);
        }
        return Some(out);
    }
    let m = match model {
        Some(m) => m,
        None => {
            return None;
        },
    };
    if let Some(d) = schema_doc(&m.versions, &w) {
        return Some(d);
    }
    if let Some(v) = infer_var_type(m, line, &w) {
        return Some(var_doc(&w, &v));
    }
    if let Some(d) = param_doc(m, line, &w) {
        return Some(d);
    }
    let o = match field_opener(&line_buf, character) {
        Some(o) => o,
        None => {
            return None;
        },
    };
    let (kind, name) = match crate::lexical::bracket_context(&line_buf, o) {
        Some(bc) => bc,
        None => {
            return None;
        },
    };
    field_context_doc(&m.versions, kind, &name, &w)
}

/// The go-to-definition answer for a cursor position: where the schema
/// type named under the cursor was declared, as file and zero-based line
/// and column.
pub open spec fn definition_spec(
    m: Option<CachedModel>,
    text: Seq<char>,
    line: int,
    col: int,
) -> Option<(Seq<char>, int, int)> {
    match m {
        Some(model) => if line < 0 {
            None
        } else {
            match line_span_spec(text, line as nat) {
                Some((st, en)) => {
                    let lineseq = text.subrange(st, en);
                    match word_at_spec(lineseq, col) {
                        Some((a, b)) => {
                            match schema_def_loc_spec(model.versions@, lineseq.subrange(a, b)) {
                                Some((f, l, c)) => Some(
                                    (
                                        f,
                                        crate::diagnostics::to_zero_based(l),
                                        crate::diagnostics::to_zero_based(c),
                                    ),
                                ),
                                None => None,
                            }
                        },
                        None => None,
                    }
                },
                None => None,
            }
        },
        None => None,
    }
}

/// Answers a go-to-definition request for the word under the cursor.
pub fn resolve_definition(
    model: Option<&CachedModel>,
    text: &Vec<char>,
    line: usize,
    character: usize,
) -> (r: Option<(Vec<char>, usize, usize)>)
    ensures
        match r {
            Some(loc) => definition_spec(
                opt_model_view(model),
                text@,
                line as int,
                character as int,
            ) == Some((loc.0@, loc.1 as int, loc.2 as int)),
            None => definition_spec(opt_model_view(model), text@, line as int, character as int)
                is None,
        },
{
    let m = match model {
        Some(m) => m,
        None => {
            return None;
        },
    };
    let (lst, len) = match crate::lexical::line_span(text, line) {
        Some(sp) => sp,
        None => {
            return None;
        },
    };
    let line_buf = crate::text::span_to_vec(text, lst, len);
    let (a, b) = match crate::lexical::word_at(&line_buf, character) {
        Some(sp) => sp,
        None => {
            return None;
        },
    };
    let w = crate::text::span_to_vec(&line_buf, a, b);
    match schema_def_loc(&m.versions, &w) {
        Some((f, l, c)) => {
            let zl = if l >= 1 {
                l - 1
            } else {
                0
            };
            let zc = if c >= 1 {
                c - 1
            } else {
                0
            };
            Some((f, zl, zc))
        },
        None => None,
    }
}

} // verus!
