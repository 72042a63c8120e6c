use pruner::Deletion;
use pruner::FsTree;
use pruner::Pruner;
use pruner::RuleSet;
use pruner::Stats;
use pruner::to_map;

fn file(name: &str, size: u64) -> FsTree {
    FsTree::File { name: name.to_string(), size }
}

fn dir(name: &str, entries: Vec<FsTree>) -> FsTree {
    FsTree::Dir { name: name.to_string(), entries }
}

fn default_pruner() -> Pruner {
    Pruner::new(
        "root",
        to_map(&["docs", "test", ".github", ".md"]),
        to_map(&["LICENSE", "Makefile", ".travis.yml"]),
        to_map(&[".md", ".ts", ".tgz"]),
    )
}

fn paths_of(plan: &[Deletion]) -> Vec<(Vec<String>, bool)> {
    plan.iter().map(|d| (d.path.clone(), d.is_dir)).collect()
}

#[test]
fn stats_new_is_zero() {
    let s = Stats::new();
    assert_eq!(s.size_removed, 0);
    assert_eq!(s.files_total, 0);
    assert_eq!(s.files_removed, 0);
}

#[test]
fn stats_dir_accounts_whole_subtree() {
    let mut s = Stats::new();
    let d = dir("node", vec![file("a", 10), dir("inner", vec![file("b", 20)])]);
    s.dir(&d);
    assert_eq!(s.size_removed, 30);
    assert_eq!(s.files_total, 2);
    assert_eq!(s.files_removed, 2);
}

#[test]
fn to_map_membership() {
    let rs: RuleSet = to_map(&["LICENSE", ".md"]);
    assert!(rs.contains("LICENSE"));
    assert!(rs.contains(".md"));
    assert!(!rs.contains("license"));
    assert!(!rs.contains("LICENSE.txt"));
    assert!(!rs.contains(""));
}

#[test]
fn should_prune_is_pure() {
    let p = default_pruner();
    let first = p.should_prune("docs", true);
    let second = p.should_prune("docs", true);
    assert_eq!(first, second);
    let first = p.should_prune("guide.md", false);
    let second = p.should_prune("guide.md", false);
    assert_eq!(first, second);
}

#[test]
fn directory_match_uses_directory_rules_only() {
    // ".md" is in the extension rules and in the directory rules here:
    // a directory named ".md" is matched via the directory rules.
    let p = default_pruner();
    assert!(p.should_prune(".md", true));
    // Without ".md" among directory rules the same directory is not
    // matched, however many extension or file rules name ".md".
    let q = Pruner::new("root", to_map(&["docs"]), to_map(&[".md"]), to_map(&[".md"]));
    assert!(!q.should_prune(".md", true));
    // And a file named like a directory rule is not matched as a file.
    assert!(!q.should_prune("docs", false));
    assert!(q.should_prune("docs", true));
}

#[test]
fn suffix_matching_semantics() {
    let p = default_pruner();
    // A rule ".md" matches any file name ending in ".md" ...
    assert!(p.should_prune("guide.md", false));
    // ... including a file literally named ".md" ...
    assert!(p.should_prune(".md", false));
    // ... but not a name that lacks the dot, nor a different suffix.
    assert!(!p.should_prune("md", false));
    assert!(!p.should_prune("xmd", false));
    assert!(!p.should_prune("guide.mdx", false));
    // Matching is case-sensitive.
    assert!(!p.should_prune("GUIDE.MD", false));
}

#[test]
fn exact_file_name_deleted() {
    // Root holds a file literally named LICENSE of 50 bytes.
    let p = default_pruner();
    let tree = dir("root", vec![file("LICENSE", 50)]);
    let (stats, plan) = p.prune(&tree);
    assert_eq!(stats.files_removed, 1);
    assert_eq!(stats.size_removed, 50);
    assert_eq!(
        paths_of(&plan),
        vec![(vec!["root".to_string(), "LICENSE".to_string()], false)]
    );
}

#[test]
fn docs_directory_scenario() {
    // Root holds docs/ (in directory rules, one 100-byte file inside)
    // and an unmatched keep.txt of 200 bytes.
    let p = default_pruner();
    let tree = dir(
        "root",
        vec![dir("docs", vec![file("readme.txt", 100)]), file("keep.txt", 200)],
    );
    let (stats, plan) = p.prune(&tree);
    assert_eq!(stats.files_removed, 1);
    assert_eq!(stats.size_removed, 100);
    // Observed: root, docs, the file inside docs, keep.txt.
    assert_eq!(stats.files_total, 4);
    // Only docs/ is deleted; keep.txt appears in no deletion.
    assert_eq!(
        paths_of(&plan),
        vec![(vec!["root".to_string(), "docs".to_string()], true)]
    );
}

#[test]
fn non_matching_tree_is_untouched() {
    let p = default_pruner();
    let tree = dir(
        "root",
        vec![
            file("keep.txt", 7),
            dir("src", vec![file("lib.rs", 11), dir("nested", vec![file("deep.rs", 13)])]),
        ],
    );
    let (stats, plan) = p.prune(&tree);
    assert_eq!(stats.size_removed, 0);
    assert_eq!(stats.files_removed, 0);
    assert!(plan.is_empty());
    // Every entry was still observed: 3 directories and 3 files.
    assert_eq!(stats.files_total, 6);
}

#[test]
fn files_beneath_pruned_directory_counted_once() {
    let p = default_pruner();
    let tree = dir(
        "root",
        vec![dir("docs", vec![file("a", 1), file("b", 2), dir("sub", vec![file("c", 4)])])],
    );
    let (stats, plan) = p.prune(&tree);
    // The three files are each counted once, by the sub-walk; the outer
    // walk adds only root and docs themselves.
    assert_eq!(stats.files_removed, 3);
    assert_eq!(stats.size_removed, 7);
    assert_eq!(stats.files_total, 5);
    assert_eq!(plan.len(), 1);
}

#[test]
fn accounting_invariant_holds() {
    let p = default_pruner();
    let tree = dir(
        "root",
        vec![
            file("LICENSE", 50),
            file("notes.md", 30),
            dir("docs", vec![file("x", 5)]),
            file("keep.txt", 200),
        ],
    );
    let (stats, _plan) = p.prune(&tree);
    assert!(stats.files_removed <= stats.files_total);
    // The removed files are LICENSE (50), notes.md (30) and docs/x (5).
    assert_eq!(stats.files_removed, 3);
    assert_eq!(stats.size_removed, 50 + 30 + 5);
}

#[test]
fn plan_is_in_pre_order() {
    let p = default_pruner();
    let tree = dir(
        "root",
        vec![
            file("LICENSE", 1),
            dir("lib", vec![file("guide.md", 2), dir("docs", vec![])]),
            file("Makefile", 3),
        ],
    );
    let (stats, plan) = p.prune(&tree);
    assert_eq!(
        paths_of(&plan),
        vec![
            (vec!["root".to_string(), "LICENSE".to_string()], false),
            (vec!["root".to_string(), "lib".to_string(), "guide.md".to_string()], false),
            (vec!["root".to_string(), "lib".to_string(), "docs".to_string()], true),
            (vec!["root".to_string(), "Makefile".to_string()], false),
        ]
    );
    assert_eq!(stats.files_removed, 3);
    assert_eq!(stats.size_removed, 1 + 2 + 3);
}

#[test]
fn matched_root_prunes_everything() {
    let p = default_pruner();
    let tree = dir("docs", vec![file("a", 10), file("b", 20)]);
    let (stats, plan) = p.prune(&tree);
    assert_eq!(stats.files_removed, 2);
    assert_eq!(stats.size_removed, 30);
    assert_eq!(stats.files_total, 3);
    assert_eq!(paths_of(&plan), vec![(vec!["docs".to_string()], true)]);
}

#[test]
fn undecodable_name_treated_as_non_matching() {
    // A name that could not be decoded is handed in as the empty
    // string, which matches nothing unless a rule names it.
    let p = default_pruner();
    assert!(!p.should_prune("", false));
    assert!(!p.should_prune("", true));
}

#[test]
fn tree_entry_accessors() {
    let f = file("keep.txt", 7);
    assert_eq!(f.name(), "keep.txt");
    assert!(!f.is_dir());
    let d = dir("src", vec![]);
    assert_eq!(d.name(), "src");
    assert!(d.is_dir());
}

#[test]
fn pruner_new_keeps_root() {
    let p = default_pruner();
    assert_eq!(p.dir, "root");
}

#[test]
fn empty_directory_run() {
    let p = default_pruner();
    let tree = dir("root", vec![]);
    let (stats, plan) = p.prune(&tree);
    assert_eq!(stats.files_total, 1);
    assert_eq!(stats.files_removed, 0);
    assert_eq!(stats.size_removed, 0);
    assert!(plan.is_empty());
}
