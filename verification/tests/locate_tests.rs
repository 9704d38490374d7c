use mod_manager::locate::{join, join1, locate_root, DirTree};

fn file(name: &str) -> DirTree {
    DirTree::File { name: name.to_string() }
}

fn dir(name: &str, children: Vec<DirTree>) -> DirTree {
    DirTree::Dir { name: name.to_string(), children }
}

#[test]
fn finds_root_nested_under_wrapper() {
    let tree = dir(
        "temp_1",
        vec![dir(
            "wrapper",
            vec![dir("ModA", vec![file("mod_info.json"), file("readme.txt")])],
        )],
    );
    let segs = locate_root(&tree).unwrap();
    assert_eq!(segs, vec!["wrapper".to_string(), "ModA".to_string()]);
}

#[test]
fn manifest_directly_at_top_gives_empty_path() {
    let tree = dir("pkg", vec![file("mod_info.json")]);
    let segs = locate_root(&tree).unwrap();
    assert!(segs.is_empty());
}

#[test]
fn no_manifest_anywhere_gives_none() {
    let tree = dir(
        "t",
        vec![dir("a", vec![file("x.txt")]), dir("b", vec![]), file("notes.md")],
    );
    assert!(locate_root(&tree).is_none());
}

#[test]
fn traversal_order_decides_between_candidates() {
    // The subdirectory comes first among the entries, so its root wins even
    // though the parent also holds a manifest later in the listing.
    let tree = dir(
        "t",
        vec![
            dir("inner", vec![file("mod_info.json")]),
            file("mod_info.json"),
        ],
    );
    assert_eq!(locate_root(&tree).unwrap(), vec!["inner".to_string()]);
    // With the file first, the parent itself is the root.
    let tree2 = dir(
        "t",
        vec![
            file("mod_info.json"),
            dir("inner", vec![file("mod_info.json")]),
        ],
    );
    assert!(locate_root(&tree2).unwrap().is_empty());
}

#[test]
fn plain_file_tree_has_no_root() {
    assert!(locate_root(&file("mod_info.json")).is_none());
}

#[test]
fn join_builds_slash_separated_paths() {
    assert_eq!(join1("mods", "modA"), "mods/modA");
    assert_eq!(
        join("mods/temp", &vec!["wrapper".to_string(), "ModA".to_string()]),
        "mods/temp/wrapper/ModA"
    );
    assert_eq!(join("base", &Vec::new()), "base");
}
