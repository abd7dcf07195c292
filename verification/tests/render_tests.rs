use dirtree::render::render;
use dirtree::render::render_tree;
use dirtree::tree::Entry;

fn file(name: &str) -> Entry {
    Entry { name: name.to_string(), is_dir: false, children: vec![] }
}

fn dir(name: &str, children: Vec<Entry>) -> Entry {
    Entry { name: name.to_string(), is_dir: true, children }
}

fn names(v: &[&str]) -> Vec<String> {
    v.iter().map(|s| s.to_string()).collect()
}

#[test]
fn renders_every_entry_once_in_preorder() {
    let root = dir(
        "root",
        vec![
            dir("sub", vec![file("inner.txt"), file("last.txt")]),
            file("top.txt"),
        ],
    );
    let lines = render_tree(&root, &names(&[]));
    assert_eq!(
        lines,
        vec![
            "└── root".to_string(),
            "    ├── sub".to_string(),
            "    │   ├── inner.txt".to_string(),
            "    │   └── last.txt".to_string(),
            "    └── top.txt".to_string(),
        ]
    );
}

#[test]
fn excluded_directory_and_descendants_are_absent() {
    let root = dir(
        "root",
        vec![
            dir("build", vec![file("artifact.bin"), dir("deep", vec![file("x")])]),
            file("keep.txt"),
        ],
    );
    let lines = render_tree(&root, &names(&["build"]));
    assert_eq!(lines, vec!["└── root".to_string(), "    └── keep.txt".to_string()]);
}

#[test]
fn hidden_directory_is_excluded_with_empty_exclusion_list() {
    let root = dir("root", vec![dir(".git", vec![file("config")]), file("a.txt")]);
    let lines = render_tree(&root, &names(&[]));
    assert_eq!(lines, vec!["└── root".to_string(), "    └── a.txt".to_string()]);
}

#[test]
fn files_are_never_excluded_by_name() {
    let root = dir("root", vec![file("build"), file(".hidden")]);
    let lines = render_tree(&root, &names(&["build", ".hidden"]));
    assert_eq!(
        lines,
        vec![
            "└── root".to_string(),
            "    ├── build".to_string(),
            "    └── .hidden".to_string(),
        ]
    );
}

#[test]
fn last_child_gets_closing_connector_at_every_depth() {
    let root = dir(
        "top",
        vec![
            dir("one", vec![file("a"), file("b"), file("c")]),
            dir("two", vec![file("d")]),
        ],
    );
    let lines = render_tree(&root, &names(&[]));
    assert_eq!(
        lines,
        vec![
            "└── top".to_string(),
            "    ├── one".to_string(),
            "    │   ├── a".to_string(),
            "    │   ├── b".to_string(),
            "    │   └── c".to_string(),
            "    └── two".to_string(),
            "        └── d".to_string(),
        ]
    );
}

#[test]
fn excluded_entry_before_file_leaves_file_as_raw_last() {
    // Root `a` holds subdirectory `b` (excluded) and file `c.txt`: the
    // output keeps a line for `a`, gives `c.txt` the closing connector
    // since it sits at the final raw index, and holds nothing for `b`.
    let root = dir("a", vec![dir("b", vec![file("under_b.txt")]), file("c.txt")]);
    let lines = render_tree(&root, &names(&["b"]));
    assert_eq!(lines, vec!["└── a".to_string(), "    └── c.txt".to_string()]);
    assert!(lines.iter().all(|l| !l.contains("b") || l.contains("c.txt") == l.contains("b")));
    assert!(!lines.iter().any(|l| l.ends_with(" b")));
    assert!(!lines.iter().any(|l| l.contains("under_b.txt")));
}

#[test]
fn excluded_raw_last_entry_leaves_no_closing_connector() {
    // The excluded entry occupies the final raw index, so no visible
    // child of `a` is marked last: `c.txt` keeps the tee connector.
    let root = dir("a", vec![file("c.txt"), dir("b", vec![])]);
    let lines = render_tree(&root, &names(&["b"]));
    assert_eq!(lines, vec!["└── a".to_string(), "    ├── c.txt".to_string()]);
}

#[test]
fn root_rendered_as_last_with_empty_prefix() {
    let root = file("only.txt");
    let lines = render_tree(&root, &names(&["only.txt"]));
    assert_eq!(lines, vec!["└── only.txt".to_string()]);
}

#[test]
fn render_honors_prefix_and_flag() {
    let e = file("f");
    assert_eq!(render(&e, "??", false, &names(&[])), vec!["??├── f".to_string()]);
    assert_eq!(render(&e, "", true, &names(&[])), vec!["└── f".to_string()]);
}

#[test]
fn unreadable_directory_renders_as_childless() {
    // A directory whose listing failed is captured with no children: it
    // still gets its own line, and traversal of its siblings goes on.
    let root = dir("root", vec![dir("locked", vec![]), file("after.txt")]);
    let lines = render_tree(&root, &names(&[]));
    assert_eq!(
        lines,
        vec![
            "└── root".to_string(),
            "    ├── locked".to_string(),
            "    └── after.txt".to_string(),
        ]
    );
}

#[test]
fn rerendering_unchanged_tree_repeats_the_output() {
    let root = dir(
        "root",
        vec![dir("sub", vec![file("one"), dir(".cache", vec![])]), file("two")],
    );
    let excl = names(&["logs"]);
    let first = render_tree(&root, &excl);
    let second = render_tree(&root, &excl);
    assert_eq!(first, second);
}
