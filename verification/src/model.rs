//! The cached structured model of a workspace: schema type definitions and
//! query definitions, as the external parser/analyzer collaborators report
//! them, normalized to plain values.
//!
//! Buffers, names and messages are character vectors; their mathematical
//! model is the `Seq<char>` view.
use vstd::prelude::*;

verus! {

/// The three schema-declarable categories.
#[derive(Clone, Copy, PartialEq, Eq, Structural, Debug)]
pub enum EntityKind {
    Node,
    Edge,
    Vector,
}

/// A declared field type: a named primitive or schema type, an array of an
/// element type, or a nested object with its own fields.
pub enum FieldType {
    Named(Vec<char>),
    Array(Box<FieldType>),
    Object(Vec<FieldDef>),
}

/// One declared field of a schema type or nested object.
pub struct FieldDef {
    pub name: Vec<char>,
    pub ty: FieldType,
}

/// Where a schema type was declared, as the source reports it: file and
/// one-based line and column.
pub struct SourceLocation {
    pub file: Vec<char>,
    pub line: usize,
    pub col: usize,
}

/// A node type declaration.
pub struct NodeDef {
    pub name: Vec<char>,
    pub loc: SourceLocation,
    pub fields: Vec<FieldDef>,
}

/// An edge type declaration; edges also carry their endpoint node types.
pub struct EdgeDef {
    pub name: Vec<char>,
    pub loc: SourceLocation,
    pub from_type: Vec<char>,
    pub to_type: Vec<char>,
    pub fields: Vec<FieldDef>,
}

/// A vector type declaration.
pub struct VectorDef {
    pub name: Vec<char>,
    pub loc: SourceLocation,
    pub fields: Vec<FieldDef>,
}

/// One schema version: the node, edge and vector types it declares.
pub struct SchemaVersion {
    pub nodes: Vec<NodeDef>,
    pub edges: Vec<EdgeDef>,
    pub vectors: Vec<VectorDef>,
}

/// One declared query parameter.
pub struct ParamDef {
    pub name: Vec<char>,
    pub ty: FieldType,
    pub optional: bool,
}

/// One step of a traversal, as far as type inference reads it: a step that
/// constructs an edge of a (possibly untyped) edge type, or any other step.
pub enum StepExpr {
    AddEdgeStep(Option<Vec<char>>),
    OtherStep,
}

/// A traversal: a start node of a (possibly untyped) node type followed by
/// navigation steps.
pub struct TraversalExpr {
    pub start_type: Option<Vec<char>>,
    pub steps: Vec<StepExpr>,
}

/// The right-hand side of an assignment, as far as type inference reads it.
pub enum Expr {
    AddNode(Option<Vec<char>>),
    AddEdge(Option<Vec<char>>),
    AddVector(Option<Vec<char>>),
    Traversal(TraversalExpr),
    Literal(Vec<char>),
    Other,
}

/// One statement of a query body: an assignment binding a variable, a loop
/// with a nested body, or anything else.
pub enum Statement {
    Assign(Vec<char>, Expr),
    Loop(Vec<Statement>),
    Other,
}

/// A query declaration with its parameters, body and one-based source line
/// span.
pub struct QueryDef {
    pub name: Vec<char>,
    pub params: Vec<ParamDef>,
    pub statements: Vec<Statement>,
    pub start_line: usize,
    pub end_line: usize,
}

/// The last successfully parsed-and-analyzed structured representation of a
/// workspace.
pub struct CachedModel {
    pub versions: Vec<SchemaVersion>,
    pub queries: Vec<QueryDef>,
}

/// The type inferred for a variable: an entity of some kind and optional
/// declared type name, or a primitive kind.
pub enum VarType {
    Entity(EntityKind, Option<Vec<char>>),
    Primitive(Vec<char>),
}

} // verus!
