use helix_ls::completion::completions;
use helix_ls::model::{
    CachedModel, EdgeDef, NodeDef, SchemaVersion, SourceLocation, VectorDef,
};

fn chars(s: &str) -> Vec<char> {
    s.chars().collect()
}

fn strings(vs: &[Vec<char>]) -> Vec<String> {
    vs.iter().map(|v| v.iter().collect()).collect()
}

fn loc() -> SourceLocation {
    SourceLocation { file: chars("/w/schema.hx"), line: 1, col: 1 }
}

fn schema_model() -> CachedModel {
    CachedModel {
        versions: vec![SchemaVersion {
            nodes: vec![
                NodeDef { name: chars("Person"), loc: loc(), fields: vec![] },
                NodeDef { name: chars("City"), loc: loc(), fields: vec![] },
            ],
            edges: vec![EdgeDef {
                name: chars("Follows"),
                loc: loc(),
                from_type: chars("Person"),
                to_type: chars("Person"),
                fields: vec![],
            }],
            vectors: vec![VectorDef { name: chars("Doc"), loc: loc(), fields: vec![] }],
        }],
        queries: vec![],
    }
}

#[test]
fn node_bracket_offers_node_types() {
    let model = schema_model();
    let line = chars("  p <- AddN<");
    let r = completions(Some(&model), &line, line.len());
    assert_eq!(strings(&r), vec!["Person".to_string(), "City".to_string()]);
}

#[test]
fn node_bracket_with_partial_name_still_offers_node_types() {
    let model = schema_model();
    let line = chars("  p <- AddN<Pe");
    let r = completions(Some(&model), &line, line.len());
    assert_eq!(strings(&r), vec!["Person".to_string(), "City".to_string()]);
}

#[test]
fn edge_bracket_offers_edge_types() {
    let model = schema_model();
    let line = chars("e <- AddE<");
    let r = completions(Some(&model), &line, line.len());
    assert_eq!(strings(&r), vec!["Follows".to_string()]);
}

#[test]
fn vector_bracket_offers_vector_types() {
    let model = schema_model();
    let line = chars("v <- AddV<");
    let r = completions(Some(&model), &line, line.len());
    assert_eq!(strings(&r), vec!["Doc".to_string()]);
}

#[test]
fn bracket_without_model_offers_nothing() {
    let line = chars("p <- AddN<");
    let r = completions(None, &line, line.len());
    assert!(r.is_empty());
}

#[test]
fn closed_bracket_no_longer_counts() {
    let model = schema_model();
    let line = chars("p <- AddN<Person>");
    let r = completions(Some(&model), &line, line.len());
    // the bracket is closed: the position falls back to the keyword list
    assert!(strings(&r).contains(&"QUERY".to_string()));
}

#[test]
fn scope_operator_offers_steps() {
    let model = schema_model();
    let line = chars("p::");
    let r = completions(Some(&model), &line, line.len());
    let s = strings(&r);
    assert!(s.contains(&"Out".to_string()));
    assert!(s.contains(&"WHERE".to_string()));
    assert!(!s.contains(&"QUERY".to_string()));
}

#[test]
fn default_position_offers_keywords() {
    let model = schema_model();
    let line = chars("");
    let r = completions(Some(&model), &line, 0);
    let s = strings(&r);
    assert!(s.contains(&"QUERY".to_string()));
    assert!(s.contains(&"AddN".to_string()));
}
