use ptygrid::tree::FileTree;

fn crate_tree() -> FileTree {
    FileTree::new(String::from("."), false, 5)
}

#[test]
fn new_tree_has_expanded_root_node() {
    let tree = crate_tree();
    assert!(tree.is_expanded(&String::from(".")));
    let nodes = tree.nodes();
    assert!(!nodes.is_empty());
    assert_eq!(nodes[0].path, ".");
    assert_eq!(nodes[0].depth, 0);
    assert!(nodes[0].is_dir);
    // the working directory is never empty here, so children show
    assert!(nodes.len() > 1);
    for n in nodes.iter().skip(1) {
        assert!(n.depth >= 1);
    }
}

#[test]
fn collapsing_root_hides_children() {
    let mut tree = crate_tree();
    assert!(tree.nodes().len() > 1);
    tree.select_first();
    tree.toggle_expand();
    assert!(!tree.is_expanded(&String::from(".")));
    assert_eq!(tree.nodes().len(), 1);
    tree.toggle_expand();
    assert!(tree.is_expanded(&String::from(".")));
    assert!(tree.nodes().len() > 1);
}

#[test]
fn selection_movement_clamps() {
    let mut tree = crate_tree();
    let len = tree.nodes().len();
    tree.select_last();
    assert_eq!(tree.selected(), len - 1);
    tree.select_next();
    assert_eq!(tree.selected(), len - 1);
    tree.select_first();
    assert_eq!(tree.selected(), 0);
    tree.select_previous();
    assert_eq!(tree.selected(), 0);
    tree.select_next();
    if len > 1 {
        assert_eq!(tree.selected(), 1);
    }
    tree.page_down(10_000);
    assert_eq!(tree.selected(), len - 1);
    tree.page_up(10_000);
    assert_eq!(tree.selected(), 0);
}

#[test]
fn offset_round_trips() {
    let mut tree = crate_tree();
    tree.set_offset(7);
    assert_eq!(tree.offset(), 7);
}

#[test]
fn search_is_case_insensitive() {
    let mut tree = crate_tree();
    // search for an existing child's name with its case flipped
    if tree.nodes().len() > 1 {
        let name = tree.nodes()[1].name.clone();
        let flipped: String = name
            .chars()
            .map(|c| {
                if c.is_ascii_lowercase() {
                    c.to_ascii_uppercase()
                } else {
                    c.to_ascii_lowercase()
                }
            })
            .collect();
        tree.search(&flipped);
        let idx = tree.selected();
        assert_eq!(tree.nodes()[idx].name.to_lowercase(), name.to_lowercase());
    }
}

#[test]
fn empty_search_leaves_selection() {
    let mut tree = crate_tree();
    tree.select_first();
    tree.search(&String::from(""));
    assert_eq!(tree.selected(), 0);
    // stepping with no matches does nothing
    tree.search_next();
    tree.search_prev();
    assert_eq!(tree.selected(), 0);
}

#[test]
fn search_next_and_prev_wrap() {
    let mut tree = crate_tree();
    tree.search(&String::from("s"));
    let first = tree.selected();
    tree.search_next();
    tree.search_prev();
    assert_eq!(tree.selected(), first);
}

#[test]
fn toggle_or_open_returns_file_path() {
    let mut tree = crate_tree();
    let entries: Vec<(String, bool)> = tree
        .nodes()
        .iter()
        .map(|n| (n.path.clone(), n.is_dir))
        .collect();
    // opening a selected file yields its path back for the caller
    if let Some((idx, (path, _))) = entries.iter().enumerate().find(|(_, (_, d))| !*d) {
        tree.select_first();
        for _ in 0..idx {
            tree.select_next();
        }
        let picked = tree.toggle_or_open();
        assert_eq!(picked, Some(path.clone()));
    }
}

#[test]
fn toggle_or_open_on_expanded_root_yields_path() {
    let mut tree = crate_tree();
    tree.select_first();
    let picked = tree.toggle_or_open();
    assert_eq!(picked, Some(String::from(".")));
}

#[test]
fn toggle_hidden_flips_flag() {
    let mut tree = crate_tree();
    assert!(!tree.show_hidden());
    tree.toggle_hidden();
    assert!(tree.show_hidden());
    tree.toggle_hidden();
    assert!(!tree.show_hidden());
}

#[test]
fn refresh_keeps_root() {
    let mut tree = crate_tree();
    tree.refresh();
    assert_eq!(tree.root_path(), ".");
    tree.refresh_path(&String::from("./src"));
    assert_eq!(tree.nodes()[0].path, ".");
}

#[test]
fn collapse_or_parent_moves_to_parent() {
    let mut tree = crate_tree();
    if tree.nodes().len() > 1 {
        // a depth-1 child's parent is the root
        tree.select_first();
        tree.select_next();
        let n = &tree.nodes()[tree.selected()];
        if !n.is_dir {
            tree.collapse_or_parent();
            assert_eq!(tree.selected(), 0);
        }
    }
}
