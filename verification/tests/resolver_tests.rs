use helix_ls::model::{
    CachedModel, EntityKind, Expr, FieldDef, FieldType, NodeDef, ParamDef, QueryDef,
    SchemaVersion, SourceLocation, Statement, StepExpr, TraversalExpr, VarType, VectorDef,
};
use helix_ls::resolver::{hover_text, infer_var_type, resolve_definition, schema_doc};

fn chars(s: &str) -> Vec<char> {
    s.chars().collect()
}

fn text(v: &[char]) -> String {
    v.iter().collect()
}

fn person_model() -> CachedModel {
    CachedModel {
        versions: vec![SchemaVersion {
            nodes: vec![NodeDef {
                name: chars("Person"),
                loc: SourceLocation { file: chars("/w/schema.hx"), line: 2, col: 4 },
                fields: vec![FieldDef { name: chars("name"), ty: FieldType::Named(chars("String")) }],
            }],
            edges: vec![],
            vectors: vec![],
        }],
        queries: vec![],
    }
}

fn query_model() -> CachedModel {
    CachedModel {
        versions: vec![],
        queries: vec![QueryDef {
            name: chars("f"),
            params: vec![ParamDef {
                name: chars("age"),
                ty: FieldType::Named(chars("I32")),
                optional: false,
            }],
            statements: vec![Statement::Assign(
                chars("u"),
                Expr::AddNode(Some(chars("User"))),
            )],
            start_line: 1,
            end_line: 3,
        }],
    }
}

#[test]
fn hover_on_schema_type_lists_fields() {
    // the buffer uses the type inside a creation bracket; the cached model
    // declares it with one field
    let model = person_model();
    let buf = chars("QUERY g() =>\n  p <- AddN<Person>\nRETURN p");
    // line 1, cursor inside `Person`
    let r = hover_text(Some(&model), &buf, 1, 13).unwrap();
    assert_eq!(text(&r), "**Person** - Node type\n\n- name: String");
}

#[test]
fn hover_on_parameter_gives_declared_type() {
    let model = query_model();
    let buf = chars("QUERY f(age: I32) =>\n  n <- AddN\nRETURN age");
    // line 2 (inside the query span), cursor on `age`
    let r = hover_text(Some(&model), &buf, 2, 8).unwrap();
    assert_eq!(text(&r), "**age** - Parameter: I32");
}

#[test]
fn hover_on_optional_parameter_marks_it() {
    let mut model = query_model();
    model.queries[0].params[0].optional = true;
    let buf = chars("QUERY f(age: I32) =>\n  n <- AddN\nRETURN age");
    let r = hover_text(Some(&model), &buf, 2, 8).unwrap();
    assert_eq!(text(&r), "**age** - Parameter: I32 (optional)");
}

#[test]
fn hover_on_keyword_needs_no_model() {
    let buf = chars("QUERY f() => RETURN 1");
    let r = hover_text(None, &buf, 0, 2).unwrap();
    assert_eq!(text(&r), "**QUERY** - Define a query function");
}

#[test]
fn hover_keyword_wins_over_schema() {
    // a schema type named like a keyword still renders the keyword entry
    let mut model = person_model();
    model.versions[0].nodes[0].name = chars("QUERY");
    let buf = chars("QUERY");
    let r = hover_text(Some(&model), &buf, 0, 2).unwrap();
    assert_eq!(text(&r), "**QUERY** - Define a query function");
}

#[test]
fn hover_on_assigned_variable_infers_node_type() {
    let model = query_model();
    let buf = chars("QUERY f(age: I32) =>\n  u <- AddN<User>\nRETURN u");
    let r = hover_text(Some(&model), &buf, 1, 2).unwrap();
    assert_eq!(text(&r), "**u** - Inferred type: Node<User>");
}

#[test]
fn hover_on_unknown_word_is_none() {
    let model = person_model();
    let buf = chars("something unrelated");
    assert!(hover_text(Some(&model), &buf, 0, 3).is_none());
}

#[test]
fn hover_outside_any_line_is_none() {
    let model = person_model();
    let buf = chars("one line");
    assert!(hover_text(Some(&model), &buf, 5, 0).is_none());
}

#[test]
fn hover_field_in_access_block_uses_schema_fields() {
    let model = person_model();
    let buf = chars("AddN<Person>::{name");
    let r = hover_text(Some(&model), &buf, 0, 16).unwrap();
    assert_eq!(text(&r), "**name**: String");
}

#[test]
fn hover_builtin_field_in_access_block() {
    let model = person_model();
    let buf = chars("AddN<Person>::{id");
    let r = hover_text(Some(&model), &buf, 0, 16).unwrap();
    assert_eq!(text(&r), "**id** - ID - The element's unique identifier");
}

#[test]
fn schema_doc_renders_edge_endpoints() {
    let model = CachedModel {
        versions: vec![SchemaVersion {
            nodes: vec![],
            edges: vec![helix_ls::model::EdgeDef {
                name: chars("Follows"),
                loc: SourceLocation { file: chars("/w/schema.hx"), line: 5, col: 4 },
                from_type: chars("Person"),
                to_type: chars("Person"),
                fields: vec![FieldDef {
                    name: chars("since"),
                    ty: FieldType::Named(chars("Date")),
                }],
            }],
            vectors: vec![],
        }],
        queries: vec![],
    };
    let r = schema_doc(&model.versions, &chars("Follows")).unwrap();
    assert_eq!(
        text(&r),
        "**Follows** - Edge type\n\nFrom: Person\nTo: Person\n\n- since: Date"
    );
}

#[test]
fn schema_doc_renders_array_and_object_types() {
    let versions = vec![SchemaVersion {
        nodes: vec![],
        edges: vec![],
        vectors: vec![VectorDef {
            name: chars("Doc"),
            loc: SourceLocation { file: chars("/w/schema.hx"), line: 9, col: 4 },
            fields: vec![
                FieldDef {
                    name: chars("tags"),
                    ty: FieldType::Array(Box::new(FieldType::Named(chars("String")))),
                },
                FieldDef { name: chars("meta"), ty: FieldType::Object(vec![]) },
            ],
        }],
    }];
    let r = schema_doc(&versions, &chars("Doc")).unwrap();
    assert_eq!(text(&r), "**Doc** - Vector type\n\n- tags: [String]\n- meta: {..}");
}

#[test]
fn schema_doc_miss_is_none() {
    let model = person_model();
    assert!(schema_doc(&model.versions, &chars("Absent")).is_none());
}

#[test]
fn infer_traversal_takes_edge_from_first_step() {
    let model = CachedModel {
        versions: vec![],
        queries: vec![QueryDef {
            name: chars("g"),
            params: vec![],
            statements: vec![Statement::Assign(
                chars("e"),
                Expr::Traversal(TraversalExpr {
                    start_type: Some(chars("Person")),
                    steps: vec![StepExpr::AddEdgeStep(Some(chars("Follows")))],
                }),
            )],
            start_line: 1,
            end_line: 2,
        }],
    };
    let v = infer_var_type(&model, 0, &chars("e")).unwrap();
    assert!(matches!(v, VarType::Entity(EntityKind::Edge, Some(ref t)) if text(t) == "Follows"));
}

#[test]
fn infer_traversal_falls_back_to_start_node() {
    let model = CachedModel {
        versions: vec![],
        queries: vec![QueryDef {
            name: chars("g"),
            params: vec![],
            statements: vec![Statement::Assign(
                chars("p"),
                Expr::Traversal(TraversalExpr {
                    start_type: Some(chars("Person")),
                    steps: vec![StepExpr::OtherStep],
                }),
            )],
            start_line: 1,
            end_line: 2,
        }],
    };
    let v = infer_var_type(&model, 0, &chars("p")).unwrap();
    assert!(matches!(v, VarType::Entity(EntityKind::Node, Some(ref t)) if text(t) == "Person"));
}

#[test]
fn infer_looks_into_loop_bodies() {
    let model = CachedModel {
        versions: vec![],
        queries: vec![QueryDef {
            name: chars("g"),
            params: vec![],
            statements: vec![Statement::Loop(vec![Statement::Assign(
                chars("n"),
                Expr::Literal(chars("I64")),
            )])],
            start_line: 1,
            end_line: 4,
        }],
    };
    let v = infer_var_type(&model, 1, &chars("n")).unwrap();
    assert!(matches!(v, VarType::Primitive(ref p) if text(p) == "I64"));
}

#[test]
fn infer_outside_query_span_is_none() {
    let model = query_model();
    assert!(infer_var_type(&model, 7, &chars("u")).is_none());
}

#[test]
fn definition_of_schema_type_is_zero_based() {
    let model = person_model();
    let buf = chars("p <- AddN<Person>");
    let (file, line, col) = resolve_definition(Some(&model), &buf, 0, 12).unwrap();
    assert_eq!(text(&file), "/w/schema.hx");
    assert_eq!(line, 1);
    assert_eq!(col, 3);
}

#[test]
fn definition_of_unknown_word_is_none() {
    let model = person_model();
    let buf = chars("p <- AddN<Ghost>");
    assert!(resolve_definition(Some(&model), &buf, 0, 12).is_none());
}

#[test]
fn keyword_registry_hits_and_misses() {
    assert_eq!(
        helix_ls::keywords::keyword_doc(&chars("COUNT")),
        Some("**COUNT** - Count the number of elements")
    );
    assert_eq!(
        helix_ls::keywords::keyword_doc(&chars("In")),
        Some("**In\\<EdgeType\\>** - Traverse incoming edges to connected nodes")
    );
    assert_eq!(
        helix_ls::keywords::keyword_doc(&chars("IN")),
        Some("**IN** - Part of FOR loop syntax")
    );
    assert_eq!(helix_ls::keywords::keyword_doc(&chars("count")), None);
}
