use helix_ls::cache::WorkspaceCache;
use helix_ls::model::{
    CachedModel, FieldDef, FieldType, NodeDef, QueryDef, SchemaVersion, SourceLocation, Statement,
};
use helix_ls::pipeline::{run_analysis, AnalysisOutcome};
use helix_ls::resolver::hover_text;
use helix_ls::store::DocumentStore;
use helix_ls::workspace::{is_source_path, parent_dir, resolve_workspace, MemberFile};

fn chars(s: &str) -> Vec<char> {
    s.chars().collect()
}

fn text(v: &[char]) -> String {
    v.iter().collect()
}

fn member(path: &str, content: &str) -> MemberFile {
    MemberFile { path: chars(path), content: chars(content) }
}

#[test]
fn parent_dir_of_nested_path() {
    assert_eq!(text(&parent_dir(&chars("/w/sub/q.hx"))), "/w/sub");
}

#[test]
fn parent_dir_of_root_file_is_root() {
    assert_eq!(text(&parent_dir(&chars("/q.hx"))), "/");
}

#[test]
fn parent_dir_without_separator_is_empty() {
    assert_eq!(text(&parent_dir(&chars("q.hx"))), "");
}

#[test]
fn source_paths_by_extension() {
    assert!(is_source_path(&chars("/w/a.hx")));
    assert!(is_source_path(&chars("/w/a.hql")));
    assert!(!is_source_path(&chars("/w/a.txt")));
    assert!(!is_source_path(&chars("/w/hx")));
}

#[test]
fn store_open_update_get_close() {
    let mut store = DocumentStore::new();
    store.open(chars("/w/a.hx"), chars("one"));
    assert_eq!(text(&store.get(&chars("/w/a.hx")).unwrap()), "one");
    store.update(chars("/w/a.hx"), chars("two"));
    assert_eq!(text(&store.get(&chars("/w/a.hx")).unwrap()), "two");
    store.close(&chars("/w/a.hx"));
    assert!(store.get(&chars("/w/a.hx")).is_none());
}

#[test]
fn store_lists_every_open_document() {
    let mut store = DocumentStore::new();
    store.open(chars("/w/a.hx"), chars("aa"));
    store.open(chars("/w/b.hx"), chars("bb"));
    let docs = store.open_documents();
    assert_eq!(docs.len(), 2);
    let mut names: Vec<String> = docs.iter().map(|d| text(&d.path)).collect();
    names.sort();
    assert_eq!(names, vec!["/w/a.hx".to_string(), "/w/b.hx".to_string()]);
}

#[test]
fn workspace_members_are_the_recognized_files_of_the_directory() {
    let open = vec![
        member("/w/a.hx", "open a"),
        member("/w/notes.txt", "not source"),
        member("/elsewhere/c.hx", "other dir"),
    ];
    let disk = vec![member("/w/b.hql", "disk b"), member("/w/readme.md", "not source")];
    let members = resolve_workspace(&chars("/w"), &open, &disk);
    let names: Vec<String> = members.iter().map(|m| text(&m.path)).collect();
    assert_eq!(names, vec!["/w/a.hx".to_string(), "/w/b.hql".to_string()]);
}

#[test]
fn open_buffer_text_shadows_disk_text() {
    let open = vec![member("/w/a.hx", "edited")];
    let disk = vec![member("/w/a.hx", "stale"), member("/w/b.hx", "disk")];
    let members = resolve_workspace(&chars("/w"), &open, &disk);
    assert_eq!(members.len(), 2);
    assert_eq!(text(&members[0].path), "/w/a.hx");
    assert_eq!(text(&members[0].content), "edited");
    assert_eq!(text(&members[1].content), "disk");
}

#[test]
fn closed_file_still_member_through_disk_listing() {
    // a file nobody has open still belongs to the workspace via the disk
    let open: Vec<MemberFile> = vec![];
    let disk = vec![member("/w/a.hx", "on disk")];
    let members = resolve_workspace(&chars("/w"), &open, &disk);
    assert_eq!(members.len(), 1);
    assert_eq!(text(&members[0].content), "on disk");
}

#[test]
fn sibling_files_analyze_as_one_unit() {
    // one file holds the schema, a sibling holds a query referencing it;
    // the merged member set reaches the collaborators as one bundle and the
    // resulting model serves hovers in both files under the shared key
    let mut store = DocumentStore::new();
    store.open(chars("/w/schema.hx"), chars("N::Person { name: String }"));
    store.open(chars("/w/queries.hx"), chars("QUERY f() =>\n  p <- AddN<Person>\nRETURN p"));
    let key = parent_dir(&chars("/w/queries.hx"));
    assert_eq!(text(&key), "/w");
    let members = resolve_workspace(&key, &store.open_documents(), &vec![]);
    assert_eq!(members.len(), 2);
    let names: Vec<String> = members.iter().map(|m| text(&m.path)).collect();
    assert!(names.contains(&"/w/schema.hx".to_string()));
    assert!(names.contains(&"/w/queries.hx".to_string()));

    // the collaborators resolve the cross-file reference over the bundle
    // and hand back one model for the workspace
    let model = CachedModel {
        versions: vec![SchemaVersion {
            nodes: vec![NodeDef {
                name: chars("Person"),
                loc: SourceLocation { file: chars("/w/schema.hx"), line: 1, col: 1 },
                fields: vec![FieldDef { name: chars("name"), ty: FieldType::Named(chars("String")) }],
            }],
            edges: vec![],
            vectors: vec![],
        }],
        queries: vec![QueryDef {
            name: chars("f"),
            params: vec![],
            statements: vec![Statement::Other],
            start_line: 1,
            end_line: 3,
        }],
    };
    let mut cache = WorkspaceCache::new();
    let names: Vec<Vec<char>> = members.iter().map(|m| m.path.clone()).collect();
    run_analysis(&mut cache, &key, &names, AnalysisOutcome::Success(model, vec![]));

    // hovering the reference in the query file answers from the schema
    // declared in the sibling file
    let buf = store.get(&chars("/w/queries.hx")).unwrap();
    let r = hover_text(cache.get(&key), &buf, 1, 13).unwrap();
    assert_eq!(text(&r), "**Person** - Node type\n\n- name: String");
}
