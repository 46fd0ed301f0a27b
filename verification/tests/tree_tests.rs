use subsurface_engine::tree::{ProjectTree, ProjectTreeState, TreeEntryKind, TreeKey};

fn sample_files() -> Vec<String> {
    [
        "README.md",
        "docs/guide.md",
        "src/lib.rs",
        "src/main.rs",
        "src/nested/mod.rs",
        "tests/tree.rs",
    ]
    .iter()
    .map(|s| s.to_string())
    .collect()
}

fn sample_tree() -> ProjectTree {
    ProjectTree::from_tracked_files("/tmp/sample".to_string(), &sample_files())
}

fn visible_paths(tree: &ProjectTree) -> Vec<String> {
    tree.visible_rows().into_iter().map(|row| row.path).collect()
}

#[test]
fn builds_hierarchical_tree_with_directories_before_files() {
    let tree = sample_tree();
    let roots: Vec<(String, TreeEntryKind)> = tree
        .root_entries()
        .iter()
        .map(|node| (node.name.clone(), node.kind))
        .collect();
    assert_eq!(
        roots,
        vec![
            ("docs".into(), TreeEntryKind::Directory),
            ("src".into(), TreeEntryKind::Directory),
            ("tests".into(), TreeEntryKind::Directory),
            ("README.md".into(), TreeEntryKind::File),
        ]
    );

    let src = tree
        .root_entries()
        .iter()
        .find(|node| node.path == "src")
        .expect("src directory");
    let src_children: Vec<(String, TreeEntryKind)> = src
        .children
        .iter()
        .map(|node| (node.name.clone(), node.kind))
        .collect();
    assert_eq!(
        src_children,
        vec![
            ("nested".into(), TreeEntryKind::Directory),
            ("lib.rs".into(), TreeEntryKind::File),
            ("main.rs".into(), TreeEntryKind::File),
        ]
    );
    assert_eq!(
        visible_paths(&tree),
        vec!["docs", "src", "tests", "README.md"]
    );
    assert!(!visible_paths(&tree).iter().any(|path| path.contains('/')));
    assert!(tree
        .root_entries()
        .iter()
        .all(|node| node.path != "untracked.txt"));
}

#[test]
fn keyboard_navigates_expands_collapses_and_selects() {
    let mut tree = sample_tree();

    assert!(tree.handle_key(TreeKey::ArrowDown));
    assert_eq!(tree.selected_path(), Some("docs"));
    assert_eq!(tree.focused_path(), Some("docs"));

    assert!(tree.handle_key(TreeKey::ArrowDown));
    assert_eq!(tree.selected_path(), Some("src"));

    assert!(tree.handle_key(TreeKey::ArrowRight));
    assert!(tree.is_expanded("src"));
    assert_eq!(
        visible_paths(&tree),
        vec![
            "docs",
            "src",
            "src/nested",
            "src/lib.rs",
            "src/main.rs",
            "tests",
            "README.md"
        ]
    );
    assert_eq!(tree.selected_path(), Some("src"));

    assert!(tree.handle_key(TreeKey::ArrowRight));
    assert_eq!(tree.selected_path(), Some("src/nested"));

    assert!(tree.handle_key(TreeKey::Enter));
    assert!(tree.is_expanded("src/nested"));
    assert!(visible_paths(&tree).contains(&"src/nested/mod.rs".to_string()));

    assert!(tree.handle_key(TreeKey::ArrowDown));
    assert_eq!(tree.selected_path(), Some("src/nested/mod.rs"));

    assert!(tree.handle_key(TreeKey::ArrowLeft));
    assert_eq!(tree.selected_path(), Some("src/nested"));

    assert!(tree.handle_key(TreeKey::ArrowLeft));
    assert!(!tree.is_expanded("src/nested"));
    assert_eq!(tree.selected_path(), Some("src/nested"));

    assert!(tree.handle_key(TreeKey::ArrowLeft));
    assert_eq!(tree.selected_path(), Some("src"));

    assert!(tree.handle_key(TreeKey::ArrowLeft));
    assert!(!tree.is_expanded("src"));
    assert_eq!(
        visible_paths(&tree),
        vec!["docs", "src", "tests", "README.md"]
    );
}

#[test]
fn filter_preserves_ancestors_of_matches() {
    let mut tree = sample_tree();

    tree.set_filter("mod.rs");
    assert_eq!(
        visible_paths(&tree),
        vec!["src", "src/nested", "src/nested/mod.rs"]
    );
    let rows = tree.visible_rows();
    assert_eq!(rows[0].kind, TreeEntryKind::Directory);
    assert_eq!(rows[0].depth, 0);
    assert!(rows[0].expanded);
    assert_eq!(rows[1].path, "src/nested");
    assert_eq!(rows[1].depth, 1);
    assert_eq!(rows[2].path, "src/nested/mod.rs");
    assert_eq!(rows[2].kind, TreeEntryKind::File);
    assert_eq!(rows[2].depth, 2);
    assert!(!visible_paths(&tree).contains(&"src/lib.rs".to_string()));
    assert!(!visible_paths(&tree).contains(&"README.md".to_string()));

    tree.set_filter("LIB.RS");
    assert_eq!(visible_paths(&tree), vec!["src", "src/lib.rs"]);
}

#[test]
fn reveal_selects_path_and_expands_ancestors() {
    let mut tree = sample_tree();

    assert!(tree.reveal_path("src/nested/mod.rs"));
    assert_eq!(tree.selected_path(), Some("src/nested/mod.rs"));
    assert!(tree.is_expanded("src"));
    assert!(tree.is_expanded("src/nested"));
    assert!(visible_paths(&tree).contains(&"src/nested/mod.rs".to_string()));
    assert!(!tree.reveal_path("does/not/exist.rs"));
}

#[test]
fn expansion_and_filter_state_persists_per_project() {
    let mut tree = sample_tree();
    tree.set_filter("lib.rs");
    tree.select("src/lib.rs");
    let saved = tree.snapshot_state();

    let other_files = vec!["src/lib.rs".to_string()];
    let mut other_tree = ProjectTree::from_tracked_files("/tmp/other".to_string(), &other_files);
    other_tree.expand("src");
    let other_saved = other_tree.snapshot_state();

    assert_eq!(saved.filter, "lib.rs");
    assert_eq!(saved.selected_path.as_deref(), Some("src/lib.rs"));
    assert!(saved.expanded_paths.contains(&"src".to_string()));

    let mut restored_tree = sample_tree();
    restored_tree.apply_state(&saved);
    assert_eq!(restored_tree.filter(), "lib.rs");
    assert_eq!(restored_tree.selected_path(), Some("src/lib.rs"));
    assert_eq!(visible_paths(&restored_tree), vec!["src", "src/lib.rs"]);

    assert_eq!(other_saved.filter, "");
    assert!(other_saved.expanded_paths.contains(&"src".to_string()));
    assert_ne!(other_saved.selected_path, saved.selected_path);
}

#[test]
fn apply_state_drops_paths_not_in_the_tree() {
    let mut tree = sample_tree();
    let state = ProjectTreeState {
        expanded_paths: vec!["src".to_string(), "gone".to_string()],
        filter: String::new(),
        selected_path: Some("gone/file.rs".to_string()),
    };
    tree.apply_state(&state);
    assert!(tree.is_expanded("src"));
    assert!(!tree.is_expanded("gone"));
    assert_eq!(tree.selected_path(), None);
}

#[test]
fn file_and_directory_with_the_same_name_both_show() {
    let files = vec!["a".to_string(), "a/b".to_string(), "//x//".to_string()];
    let tree = ProjectTree::from_tracked_files("/tmp/p".to_string(), &files);
    let roots: Vec<(String, TreeEntryKind)> = tree
        .root_entries()
        .iter()
        .map(|n| (n.path.clone(), n.kind))
        .collect();
    assert_eq!(
        roots,
        vec![
            ("a".into(), TreeEntryKind::Directory),
            ("a".into(), TreeEntryKind::File),
            ("x".into(), TreeEntryKind::File),
        ]
    );
}

#[test]
fn names_sort_case_insensitively() {
    let files = vec!["b.rs".to_string(), "A.rs".to_string(), "a.rs".to_string()];
    let tree = ProjectTree::from_tracked_files("/tmp/p".to_string(), &files);
    let names: Vec<String> = tree.root_entries().iter().map(|n| n.name.clone()).collect();
    assert_eq!(names, vec!["A.rs", "a.rs", "b.rs"]);
}

#[test]
fn arrow_up_without_focus_goes_to_last_row() {
    let mut tree = sample_tree();
    assert!(tree.handle_key(TreeKey::ArrowUp));
    assert_eq!(tree.selected_path(), Some("README.md"));
    assert!(!tree.handle_key(TreeKey::ArrowRight));
}

#[test]
fn toggling_a_directory_twice_restores_the_tree() {
    let mut tree = sample_tree();
    let before = visible_paths(&tree);
    let state_before = tree.snapshot_state();
    assert!(tree.toggle_expanded("src"));
    assert_ne!(visible_paths(&tree), before);
    assert!(tree.toggle_expanded("src"));
    assert_eq!(visible_paths(&tree), before);
    assert_eq!(tree.snapshot_state(), state_before);
    // A file is no directory: toggling it changes nothing, twice over.
    assert!(!tree.toggle_expanded("README.md"));
    assert!(!tree.toggle_expanded("README.md"));
    assert_eq!(visible_paths(&tree), before);
}
