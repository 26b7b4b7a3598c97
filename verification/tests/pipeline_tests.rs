use helix_ls::cache::WorkspaceCache;
use helix_ls::diagnostics::{
    convert_diagnostic, publish_set, EditorSeverity, RawDiagnostic, RawLocation, Severity,
};
use helix_ls::model::{CachedModel, FieldDef, FieldType, NodeDef, SchemaVersion, SourceLocation};
use helix_ls::pipeline::{extract_line_col, run_analysis, AnalysisOutcome};
use helix_ls::resolver::hover_text;

fn chars(s: &str) -> Vec<char> {
    s.chars().collect()
}

fn text(v: &[char]) -> String {
    v.iter().collect()
}

fn raw(
    sev: Severity,
    msg: &str,
    hint: Option<&str>,
    file: Option<&str>,
    lines: (usize, usize, usize, usize),
) -> RawDiagnostic {
    RawDiagnostic {
        severity: sev,
        message: chars(msg),
        hint: hint.map(chars),
        location: RawLocation {
            file: file.map(chars),
            start_line: lines.0,
            start_col: lines.1,
            end_line: lines.2,
            end_col: lines.3,
        },
    }
}

fn person_model() -> CachedModel {
    CachedModel {
        versions: vec![SchemaVersion {
            nodes: vec![NodeDef {
                name: chars("Person"),
                loc: SourceLocation { file: chars("/w/schema.hx"), line: 1, col: 1 },
                fields: vec![FieldDef { name: chars("name"), ty: FieldType::Named(chars("String")) }],
            }],
            edges: vec![],
            vectors: vec![],
        }],
        queries: vec![],
    }
}

#[test]
fn extract_finds_first_marker() {
    assert_eq!(extract_line_col(&chars("parse failed at 3:14 near QUERY")), (3, 14));
}

#[test]
fn extract_without_marker_is_origin() {
    assert_eq!(extract_line_col(&chars("unexpected end of input")), (0, 0));
}

#[test]
fn extract_needs_digits_on_both_sides() {
    assert_eq!(extract_line_col(&chars("at line 7: something")), (0, 0));
}

#[test]
fn extract_reads_full_digit_runs() {
    assert_eq!(extract_line_col(&chars("x 123:4567 y 8:9")), (123, 4567));
}

#[test]
fn extract_saturates_on_overlong_runs() {
    let msg = chars("at 99999999999999999999999:1");
    assert_eq!(extract_line_col(&msg), (usize::MAX, 1));
}

#[test]
fn convert_moves_to_zero_based() {
    let d = raw(Severity::Error, "bad", None, None, (3, 5, 3, 9));
    let e = convert_diagnostic(&d);
    assert_eq!((e.start_line, e.start_col, e.end_line, e.end_col), (2, 4, 2, 8));
    assert_eq!(e.severity, EditorSeverity::Error);
    assert_eq!(text(&e.message), "bad");
}

#[test]
fn convert_clamps_zero_coordinates() {
    let d = raw(Severity::Warning, "w", None, None, (0, 0, 0, 0));
    let e = convert_diagnostic(&d);
    assert_eq!((e.start_line, e.start_col, e.end_line, e.end_col), (0, 0, 0, 0));
}

#[test]
fn convert_appends_hint_after_blank_line() {
    let d = raw(Severity::Error, "unknown type", Some("declare it first"), None, (1, 1, 1, 2));
    let e = convert_diagnostic(&d);
    assert_eq!(text(&e.message), "unknown type\n\nHint: declare it first");
}

#[test]
fn convert_empty_severity_becomes_information() {
    let d = raw(Severity::Empty, "note", None, None, (1, 1, 1, 1));
    assert_eq!(convert_diagnostic(&d).severity, EditorSeverity::Information);
}

#[test]
fn publication_covers_every_member_once() {
    let members = vec![chars("/w/a.hx"), chars("/w/b.hx")];
    let diags = vec![raw(Severity::Error, "e1", None, Some("/w/b.hx"), (1, 1, 1, 2))];
    let pubs = publish_set(&diags, &members);
    assert_eq!(pubs.len(), 2);
    assert_eq!(text(&pubs[0].file), "/w/a.hx");
    assert_eq!(text(&pubs[1].file), "/w/b.hx");
    // the clean member gets an explicit empty list
    assert_eq!(pubs[0].diagnostics.len(), 0);
    assert_eq!(pubs[1].diagnostics.len(), 1);
}

#[test]
fn publication_without_filename_goes_to_first_member() {
    let members = vec![chars("/w/a.hx"), chars("/w/b.hx")];
    let diags = vec![raw(Severity::Warning, "somewhere", None, None, (1, 1, 1, 2))];
    let pubs = publish_set(&diags, &members);
    assert_eq!(pubs[0].diagnostics.len(), 1);
    assert_eq!(pubs[1].diagnostics.len(), 0);
}

#[test]
fn publication_twice_is_identical() {
    let members = vec![chars("/w/a.hx"), chars("/w/b.hx")];
    let diags = vec![
        raw(Severity::Error, "e1", Some("h"), Some("/w/a.hx"), (1, 2, 1, 3)),
        raw(Severity::Hint, "e2", None, None, (4, 1, 4, 2)),
    ];
    let first = publish_set(&diags, &members);
    let second = publish_set(&diags, &members);
    assert_eq!(first, second);
}

#[test]
fn success_replaces_cached_model() {
    let mut cache = WorkspaceCache::new();
    let key = chars("/w");
    let names = vec![chars("/w/a.hx")];
    run_analysis(&mut cache, &key, &names, AnalysisOutcome::Success(person_model(), vec![]));
    assert!(cache.get(&key).is_some());
    // a later success for the same key replaces the model wholesale
    let empty = CachedModel { versions: vec![], queries: vec![] };
    run_analysis(&mut cache, &key, &names, AnalysisOutcome::Success(empty, vec![]));
    assert_eq!(cache.get(&key).unwrap().versions.len(), 0);
}

#[test]
fn parse_failure_leaves_cache_untouched() {
    let mut cache = WorkspaceCache::new();
    let key = chars("/w");
    let names = vec![chars("/w/a.hx")];
    run_analysis(&mut cache, &key, &names, AnalysisOutcome::Success(person_model(), vec![]));
    run_analysis(&mut cache, &key, &names, AnalysisOutcome::ParseFailure(chars("broken at 1:2")));
    let model = cache.get(&key).unwrap();
    assert_eq!(model.versions.len(), 1);
    assert_eq!(text(&model.versions[0].nodes[0].name), "Person");
}

#[test]
fn hover_still_resolves_after_parse_failure() {
    // a previously valid analysis filled the cache; the buffer then stops
    // parsing, and hover on a type name still answers from the stale model
    let mut cache = WorkspaceCache::new();
    let key = chars("/w");
    let names = vec![chars("/w/a.hx")];
    run_analysis(&mut cache, &key, &names, AnalysisOutcome::Success(person_model(), vec![]));
    run_analysis(&mut cache, &key, &names, AnalysisOutcome::ParseFailure(chars("oops")));
    let broken_buf = chars("p <- AddN<Person> %%%");
    let r = hover_text(cache.get(&key), &broken_buf, 0, 12).unwrap();
    assert_eq!(text(&r), "**Person** - Node type\n\n- name: String");
}

#[test]
fn parse_failure_publishes_one_synthetic_diagnostic_everywhere() {
    let mut cache = WorkspaceCache::new();
    let key = chars("/w");
    let names = vec![chars("/w/a.hx"), chars("/w/b.hx")];
    let pubs = run_analysis(
        &mut cache,
        &key,
        &names,
        AnalysisOutcome::ParseFailure(chars("expected RETURN at 2:7")),
    );
    assert_eq!(pubs.len(), 2);
    for p in &pubs {
        assert_eq!(p.diagnostics.len(), 1);
        let d = &p.diagnostics[0];
        assert_eq!(text(&d.message), "Parse error: expected RETURN at 2:7");
        assert_eq!(d.severity, EditorSeverity::Error);
        assert_eq!((d.start_line, d.start_col), (1, 6));
        assert_eq!((d.end_line, d.end_col), (1, 7));
    }
    assert!(cache.get(&key).is_none());
}

#[test]
fn analysis_failure_uses_its_own_prefix() {
    let mut cache = WorkspaceCache::new();
    let key = chars("/w");
    let names = vec![chars("/w/a.hx")];
    let pubs = run_analysis(
        &mut cache,
        &key,
        &names,
        AnalysisOutcome::AnalysisFailure(chars("unknown edge type")),
    );
    let d = &pubs[0].diagnostics[0];
    assert_eq!(text(&d.message), "Analysis error: unknown edge type");
    assert_eq!((d.start_line, d.start_col, d.end_line, d.end_col), (0, 0, 0, 1));
}

#[test]
fn success_publishes_translated_diagnostics() {
    let mut cache = WorkspaceCache::new();
    let key = chars("/w");
    let names = vec![chars("/w/a.hx")];
    let diags = vec![raw(
        Severity::Error,
        "bad field",
        Some("check the schema"),
        Some("/w/a.hx"),
        (2, 3, 2, 8),
    )];
    let pubs = run_analysis(
        &mut cache,
        &key,
        &names,
        AnalysisOutcome::Success(person_model(), diags),
    );
    assert_eq!(pubs.len(), 1);
    let d = &pubs[0].diagnostics[0];
    assert_eq!(text(&d.message), "bad field\n\nHint: check the schema");
    assert_eq!((d.start_line, d.start_col, d.end_line, d.end_col), (1, 2, 1, 7));
}

#[test]
fn distinct_keys_keep_distinct_models() {
    let mut cache = WorkspaceCache::new();
    let names = vec![chars("/w/a.hx")];
    run_analysis(
        &mut cache,
        &chars("/w"),
        &names,
        AnalysisOutcome::Success(person_model(), vec![]),
    );
    run_analysis(
        &mut cache,
        &chars("/other"),
        &names,
        AnalysisOutcome::Success(CachedModel { versions: vec![], queries: vec![] }, vec![]),
    );
    assert_eq!(cache.get(&chars("/w")).unwrap().versions.len(), 1);
    assert_eq!(cache.get(&chars("/other")).unwrap().versions.len(), 0);
    assert!(cache.get(&chars("/absent")).is_none());
}

#[test]
fn extract_marker_at_buffer_edges() {
    assert_eq!(extract_line_col(&chars("1:2")), (1, 2));
}
