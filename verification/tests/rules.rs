use agent::rules::{
    scan_rules_directories, ChildEntry, ConfiguredPath, RuleFile, RulesDirContext,
    RulesDirFileContext, RulesDirectoryEntry, RulesScan, RulesWorktree, WorktreeEntry,
    WorktreeFile, MAX_TOTAL_CHARS,
};

fn file(path: &str) -> WorktreeFile {
    let extension = path.rsplit_once('.').map(|(_, extension)| extension.to_string());
    WorktreeFile { path: path.to_string(), extension }
}

fn child(path: &str) -> ChildEntry {
    ChildEntry { is_file: true, file: file(path) }
}

fn configured(path: &str, enabled: Option<bool>, target: Option<WorktreeEntry>) -> ConfiguredPath {
    ConfiguredPath {
        entry: RulesDirectoryEntry { path: path.to_string(), enabled },
        target,
    }
}

fn worktree(id: u64, paths: Vec<ConfiguredPath>) -> RulesWorktree {
    RulesWorktree { id, root_name: format!("root{id}"), paths }
}

fn found(worktrees: &[RulesWorktree]) -> Vec<(u64, String, String)> {
    let mut scan = scan_rules_directories(worktrees);
    let mut files = vec![];
    while let Some(RuleFile { worktree_id, path, directory_path, .. }) = scan.next_file() {
        files.push((*worktree_id, path.clone(), directory_path.clone()));
        scan.on_file(None);
    }
    assert_eq!(scan.finish(), vec![]);
    files
}

fn directory(paths: &[&str]) -> Option<WorktreeEntry> {
    Some(WorktreeEntry::Directory(paths.iter().map(|path| child(path)).collect()))
}

fn read_all(mut scan: RulesScan, read: &[Option<&str>]) -> Vec<RulesDirContext> {
    for text in read {
        if scan.next_file().is_some() {
            scan.on_file(*text);
        }
    }
    assert!(scan.next_file().is_none());
    scan.finish()
}

#[test]
fn rule_files_are_found_by_extension() {
    let paths = vec![
        configured("a.md", None, Some(WorktreeEntry::File(file("a.md")))),
        configured("b.rs", None, Some(WorktreeEntry::File(file("b.rs")))),
        configured(
            "rules",
            Some(true),
            Some(WorktreeEntry::Directory(vec![
                child("rules/one.txt"),
                child("rules/two.mdc"),
                child("rules/three.MD"),
                child("rules/none"),
                ChildEntry { is_file: false, file: file("rules/dir.md") },
            ])),
        ),
        configured("gone", None, None),
        configured("pipe", None, Some(WorktreeEntry::Other)),
        configured("off", Some(false), directory(&["off/x.md"])),
    ];
    let expected = vec![
        (1, "a.md".to_string(), "a.md".to_string()),
        (1, "rules/one.txt".to_string(), "rules".to_string()),
        (1, "rules/two.mdc".to_string(), "rules".to_string()),
    ];
    assert_eq!(found(&[worktree(1, paths)]), expected);
}

#[test]
fn no_worktrees_have_no_rules() {
    assert_eq!(found(&[]), vec![]);
    assert_eq!(found(&[worktree(1, vec![])]), vec![]);
}

#[test]
fn a_file_is_read_once_per_worktree() {
    let paths = || {
        vec![
            configured("rules/a.md", None, Some(WorktreeEntry::File(file("rules/a.md")))),
            configured("rules", None, directory(&["rules/a.md", "rules/b.md"])),
        ]
    };
    let files = found(&[worktree(1, paths()), worktree(2, paths())]);
    let expected = vec![
        (1, "rules/a.md".to_string(), "rules/a.md".to_string()),
        (1, "rules/b.md".to_string(), "rules".to_string()),
        (2, "rules/a.md".to_string(), "rules/a.md".to_string()),
        (2, "rules/b.md".to_string(), "rules".to_string()),
    ];
    assert_eq!(files, expected);
}

#[test]
fn texts_are_trimmed_and_grouped_in_order() {
    let worktrees = vec![
        worktree(2, vec![configured("b", None, directory(&["b/1.md"]))]),
        worktree(
            1,
            vec![
                configured("b", None, directory(&["b/1.md", "b/2.md", "b/3.md", "b/4.md"])),
                configured("a", None, directory(&["a/1.md"])),
            ],
        ),
    ];
    let scan = scan_rules_directories(&worktrees);
    let groups = read_all(
        scan,
        &[Some("other"), Some("  first\n"), None, Some(" \n\t"), Some("fourth"), Some("a one")],
    );
    let group = |root: &str, directory: &str, files: Vec<(&str, &str)>| RulesDirContext {
        worktree_root_name: root.to_string(),
        directory_path: directory.to_string(),
        files: files
            .iter()
            .map(|(path, text)| RulesDirFileContext {
                path_in_worktree: path.to_string(),
                text: text.to_string(),
            })
            .collect(),
    };
    assert_eq!(
        groups,
        vec![
            group("root1", "a", vec![("a/1.md", "a one")]),
            group("root1", "b", vec![("b/1.md", "first"), ("b/4.md", "fourth")]),
            group("root2", "b", vec![("b/1.md", "other")]),
        ]
    );
}

#[test]
fn the_limit_ends_the_scan() {
    let worktrees = vec![worktree(
        1,
        vec![configured("r", None, directory(&["r/1.md", "r/2.md", "r/3.md"]))],
    )];
    let most = "x".repeat(MAX_TOTAL_CHARS - 1);
    let mut scan = scan_rules_directories(&worktrees);
    scan.on_file(Some(&most));
    // Two bytes in one character are one too many.
    scan.on_file(Some("é"));
    assert!(scan.next_file().is_none());
    let groups = scan.finish();
    assert_eq!(groups.len(), 1);
    assert_eq!(groups[0].files.len(), 1);
}

#[test]
fn exactly_the_limit_fits() {
    let worktrees = vec![worktree(
        1,
        vec![configured("r", None, directory(&["r/1.md", "r/2.md", "r/3.md"]))],
    )];
    let most = "x".repeat(MAX_TOTAL_CHARS - 2);
    let mut scan = scan_rules_directories(&worktrees);
    scan.on_file(Some(&most));
    scan.on_file(Some("é"));
    assert!(scan.next_file().is_some());
    scan.on_file(Some("y"));
    let groups = scan.finish();
    assert_eq!(groups[0].files.len(), 2);
    assert_eq!(groups[0].files[1].text, "é");
}
