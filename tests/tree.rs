use twilight_commander::compare_functions::PathNodeCompare;
use twilight_commander::composer::Composer;
use twilight_commander::config::Config;
use twilight_commander::controller::EventQueue;
use twilight_commander::path_node::{DirEntry, PathNode};
use twilight_commander::tree::{DepthFirstIterator, NodeIndex, Tree};
use twilight_commander::tree_index::TreeIndex;

const ROOT: &str = "./tests/test_dirs";

/// The entries of a small directory tree, in an order that no sort gives.
fn entries_of(location: &str) -> Option<Vec<(&'static str, bool)>> {
    let rel = location.strip_prefix(ROOT)?;
    let x_or_y: Vec<(&'static str, bool)> = vec![("file_q", false), ("file_p", false), ("file_r", false)];
    let entries = match rel {
        "" => vec![
            ("file_h", false),
            ("dir2", true),
            ("file_a", false),
            ("file_j", false),
            ("dir3", true),
            ("file_b", false),
            ("file_c", false),
            ("file_d", false),
            ("dir1", true),
            ("file_e", false),
            ("file_f", false),
            ("file_g", false),
            ("file_i", false),
        ],
        "/dir1" => vec![("file3", false), ("dir11", true)],
        "/dir1/dir11" => vec![("file6", false), ("file4", false), ("file5", false)],
        "/dir2" => vec![("file8", false), ("dir21", true), ("file7", false), ("file9", false)],
        "/dir3" => vec![],
        "/dir2/dir21" => vec![
            ("file11", false),
            ("dirC", true),
            ("file10", false),
            ("dirA", true),
            ("file13", false),
            ("dirB", true),
        ],
        "/dir2/dir21/dirA" | "/dir2/dir21/dirC" => vec![("y", true), ("file12", false), ("x", true)],
        "/dir2/dir21/dirB" => vec![],
        "/dir2/dir21/dirA/x" | "/dir2/dir21/dirA/y" | "/dir2/dir21/dirC/x" | "/dir2/dir21/dirC/y" => x_or_y,
        _ => return None,
    };
    Some(entries)
}

fn listing(location: &str) -> Option<Vec<DirEntry>> {
    entries_of(location).map(|entries| {
        entries
            .into_iter()
            .map(|(name, is_dir)| DirEntry {
                name: String::from(name),
                is_dir,
                path: format!("{}/{}", location, name),
            })
            .collect()
    })
}

fn expand(node: &mut PathNode, index: Vec<usize>, compare: PathNodeCompare) {
    let tree_index = TreeIndex::from(index);
    let entries = match node.expand_location(&tree_index) {
        Some(location) => listing(&location),
        None => None,
    };
    node.expand_dir(&tree_index, compare, entries);
}

fn get_expanded_path_node() -> PathNode {
    let compare = PathNodeCompare::DirsTopSimple;
    let mut path_node = PathNode::from(ROOT);
    expand(&mut path_node, vec![], compare);
    expand(&mut path_node, vec![0], compare);
    expand(&mut path_node, vec![0, 0], compare);
    expand(&mut path_node, vec![1], compare);
    expand(&mut path_node, vec![1, 0], compare);
    expand(&mut path_node, vec![1, 0, 2], compare);
    path_node
}

#[test]
fn test_integration_with_path_node_sort_dirs_top_simple() {
    let mut config = Config::default();
    config.setup.working_dir = String::from(ROOT);

    let composer = Composer::new(config.duplicate());
    let mut path_node = PathNode::from(config.setup.working_dir.clone());
    let path_node_compare = PathNodeCompare::DirsTopSimple;
    assert_eq!(0, composer.compose_path_node(&path_node).len());

    expand(&mut path_node, vec![], path_node_compare);
    assert_eq!(13, composer.compose_path_node(&path_node).len(), "expanding the root directory");

    expand(&mut path_node, vec![3], path_node_compare);
    assert_eq!(13, composer.compose_path_node(&path_node).len(), "expanding a file does nothing");

    expand(&mut path_node, vec![1], path_node_compare);
    assert_eq!(17, composer.compose_path_node(&path_node).len());

    expand(&mut path_node, vec![1, 0], path_node_compare);
    assert_eq!(23, composer.compose_path_node(&path_node).len());

    expand(&mut path_node, vec![1, 0, 2], path_node_compare);
    assert_eq!(26, composer.compose_path_node(&path_node).len());

    expand(&mut path_node, vec![1, 0, 2, 1], path_node_compare);
    assert_eq!(29, composer.compose_path_node(&path_node).len());

    let flat_index = TreeIndex::from(vec![7, 2, 4, 0, 0]).to_flat_index();
    assert_eq!(17, flat_index);

    let tree_index = path_node.flat_index_to_tree_index(9);
    assert_eq!(vec![1, 0, 2, 1, 1], tree_index.index);

    let tree_index = path_node.flat_index_to_tree_index(10);
    assert_eq!(vec![1, 0, 2, 1, 2], tree_index.index);

    let tree_index = path_node.flat_index_to_tree_index(11);
    assert_eq!(vec![1, 0, 2, 2], tree_index.index);

    let tree_index = path_node.flat_index_to_tree_index(15);
    assert_eq!(vec![1, 1], tree_index.index);

    path_node.collapse_dir(&TreeIndex::from(vec![1, 0, 2, 1]));
    assert_eq!(26, composer.compose_path_node(&path_node).len(), "reducing the last opened dir");

    path_node.collapse_dir(&TreeIndex::from(vec![1, 0]));
    assert_eq!(17, composer.compose_path_node(&path_node).len(), "reducing lots of sub dirs");
}

#[test]
fn test_integration_with_path_node_sort_dirs_bot_simple() {
    let mut config = Config::default();
    config.setup.working_dir = String::from(ROOT);

    let composer = Composer::new(config.duplicate());
    let mut path_node = PathNode::from(config.setup.working_dir.clone());
    let path_node_compare = PathNodeCompare::DirsBotSimple;
    assert_eq!(0, composer.compose_path_node(&path_node).len());

    expand(&mut path_node, vec![], path_node_compare);
    assert_eq!(13, composer.compose_path_node(&path_node).len(), "expanding the root directory");

    expand(&mut path_node, vec![3], path_node_compare);
    assert_eq!(13, composer.compose_path_node(&path_node).len(), "expanding a file does nothing");

    expand(&mut path_node, vec![11], path_node_compare);
    assert_eq!(17, composer.compose_path_node(&path_node).len());

    expand(&mut path_node, vec![11, 3], path_node_compare);
    assert_eq!(23, composer.compose_path_node(&path_node).len());

    expand(&mut path_node, vec![11, 3, 3], path_node_compare);
    assert_eq!(26, composer.compose_path_node(&path_node).len());

    expand(&mut path_node, vec![11, 3, 3, 1], path_node_compare);
    assert_eq!(29, composer.compose_path_node(&path_node).len());

    path_node.collapse_dir(&TreeIndex::from(vec![11, 3, 3, 1]));
    assert_eq!(26, composer.compose_path_node(&path_node).len(), "reducing the last opened dir");

    path_node.collapse_dir(&TreeIndex::from(vec![11, 3]));
    assert_eq!(17, composer.compose_path_node(&path_node).len(), "reducing lots of sub dirs");
}

#[test]
fn first_dirs() {
    let path_node = {
        let compare = PathNodeCompare::DirsTopSimple;
        let mut path_node = PathNode::from(ROOT);
        expand(&mut path_node, vec![], compare);
        expand(&mut path_node, vec![0], compare);
        expand(&mut path_node, vec![0, 0], compare);
        path_node
    };

    let child_path_node = path_node.get_child_path_node(&TreeIndex::from(vec![0, 0, 0]));

    assert_eq!("file4", child_path_node.display_text);
}

#[test]
fn complex_dirs() {
    let path_node = get_expanded_path_node();

    let child_path_node = path_node.get_child_path_node(&TreeIndex::from(vec![1, 0, 2, 2]));

    assert_eq!("file12", child_path_node.display_text);
}

#[test]
fn path_node_complex_dirs() {
    let path_node = get_expanded_path_node();

    let flat_index = path_node.tree_index_to_flat_index(&TreeIndex::from(vec![4]));

    assert_eq!(22, flat_index);
}

#[test]
fn complex_dirs2() {
    let path_node = get_expanded_path_node();

    let flat_index = path_node.tree_index_to_flat_index(&TreeIndex::from(vec![5]));

    assert_eq!(23, flat_index);
}

#[test]
fn complex_dirs3() {
    let path_node = get_expanded_path_node();

    let flat_index = path_node.tree_index_to_flat_index(&TreeIndex::from(vec![1, 0, 4]));

    assert_eq!(15, flat_index);
}

#[test]
fn total_count() {
    let path_node = get_expanded_path_node();

    let flat_index = path_node.tree_index_to_flat_index(&TreeIndex::from(vec![100_000]));

    assert_eq!(31, flat_index);
}

#[test]
fn zero() {
    let path_node = get_expanded_path_node();

    let flat_index = path_node.tree_index_to_flat_index(&TreeIndex::from(vec![0]));

    assert_eq!(0, flat_index);
}

#[test]
fn empty() {
    let tree_index = TreeIndex::new();
    let parent = tree_index.get_parent();
    assert_eq!(TreeIndex::new(), parent);
}

#[test]
fn minimal() {
    let tree_index = TreeIndex::from(vec![0]);
    let parent = tree_index.get_parent();
    assert_eq!(TreeIndex::new(), parent);
}

#[test]
fn zeroes() {
    let tree_index = TreeIndex::from(vec![0, 0, 0, 0, 0]);
    let parent = tree_index.get_parent();
    assert_eq!(TreeIndex::from(vec![0, 0, 0, 0]), parent);
}

#[test]
fn complex() {
    let tree_index = TreeIndex::from(vec![3, 4, 6, 7, 1]);
    let parent = tree_index.get_parent();
    assert_eq!(TreeIndex::from(vec![3, 4, 6, 7]), parent);
}

#[test]
fn tree_index_empty() {
    let tree_index = TreeIndex::new();
    let flat_index = tree_index.to_flat_index();
    assert_eq!(0, flat_index);
}

#[test]
fn tree_index_minimal() {
    let tree_index = TreeIndex::from(vec![0]);
    let flat_index = tree_index.to_flat_index();
    assert_eq!(0, flat_index);
}

#[test]
fn tree_index_zeroes() {
    let tree_index = TreeIndex::from(vec![0, 0, 0, 0, 0]);
    let flat_index = tree_index.to_flat_index();
    assert_eq!(4, flat_index);
}

#[test]
fn tree_index_complex() {
    let tree_index = TreeIndex::from(vec![3, 4, 6, 7, 1]);
    let flat_index = tree_index.to_flat_index();
    assert_eq!(25, flat_index);
}

#[test]
fn flat_round_trip_on_every_row() {
    let path_node = get_expanded_path_node();
    let n = path_node.visible_count();
    assert_eq!(31, n);
    for row in 0..n {
        let tree_index = path_node.flat_index_to_tree_index(row);
        assert_eq!(row, path_node.tree_index_to_flat_index(&tree_index));
    }
}

#[test]
fn flat_rows_follow_position_order() {
    let path_node = get_expanded_path_node();
    let a = TreeIndex::from(vec![1, 0, 2]);
    let b = TreeIndex::from(vec![1, 0, 2, 0]);
    let c = TreeIndex::from(vec![1, 1]);
    let ra = path_node.tree_index_to_flat_index(&a);
    let rb = path_node.tree_index_to_flat_index(&b);
    let rc = path_node.tree_index_to_flat_index(&c);
    assert!(ra < rb && rb < rc);
    assert_eq!((10, 11, 17), (ra, rb, rc));
}

#[test]
fn row_beyond_the_last_gives_the_root() {
    let path_node = get_expanded_path_node();
    assert_eq!(TreeIndex::new(), path_node.flat_index_to_tree_index(31));
}

#[test]
fn expand_then_collapse_keeps_count() {
    let mut path_node = get_expanded_path_node();
    let before = path_node.visible_count();
    expand(&mut path_node, vec![1, 0, 1], PathNodeCompare::DirsTopSimple);
    assert_eq!(before, path_node.visible_count());
    expand(&mut path_node, vec![1, 0, 0], PathNodeCompare::DirsTopSimple);
    assert_eq!(before + 3, path_node.visible_count());
    path_node.collapse_dir(&TreeIndex::from(vec![1, 0, 0]));
    assert_eq!(before, path_node.visible_count());
}

#[test]
fn stale_paths_change_nothing() {
    let mut path_node = get_expanded_path_node();
    expand(&mut path_node, vec![1, 9, 0], PathNodeCompare::DirsTopSimple);
    path_node.collapse_dir(&TreeIndex::from(vec![40]));
    assert_eq!(31, path_node.visible_count());
    assert_eq!(None, path_node.find_node(&TreeIndex::from(vec![1, 9])));
}

#[test]
fn failed_listing_marks_the_node_unreadable() {
    let mut path_node = PathNode::from(ROOT);
    path_node.expand_dir(&TreeIndex::new(), PathNodeCompare::DirsTopSimple, None);
    assert!(path_node.is_expanded);
    assert!(path_node.is_err);
    assert_eq!(0, path_node.visible_count());
}

#[test]
fn unsorted_keeps_listing_order() {
    let mut path_node = PathNode::from(ROOT);
    expand(&mut path_node, vec![], PathNodeCompare::Unsorted);
    assert_eq!("file_h", path_node.children[0].display_text);
    assert_eq!("dir2", path_node.children[1].display_text);
    assert_eq!("./tests/test_dirs/dir2", path_node.children[1].path);
}

#[test]
fn expanded_paths_in_pre_order() {
    let path_node = get_expanded_path_node();
    let paths: Vec<Vec<usize>> = path_node.expanded_paths().into_iter().map(|t| t.index).collect();
    assert_eq!(vec![vec![0], vec![0, 0], vec![1], vec![1, 0], vec![1, 0, 2]], paths);
}

#[test]
fn new_expanded_lists_the_working_dir() {
    let mut config = Config::default();
    config.setup.working_dir = String::from(ROOT);
    let root = PathNode::new_expanded(&config, listing(ROOT));
    assert_eq!(13, root.visible_count());
    assert!(root.children[0].is_dir);
    assert_eq!("dir1", root.children[0].display_text);
    assert_eq!("file_a", root.children[3].display_text);
}


#[derive(Debug)]
struct TestStruct {
    number: i32,
    text: String,
}

#[test]
fn build_tree() {
    let value_root = TestStruct { number: 0, text: String::from("root") };
    let value_branch1 = TestStruct { number: 1, text: String::from("branch1") };
    let value_branch2 = TestStruct { number: 2, text: String::from("branch2") };
    let value_leaf = TestStruct { number: 3, text: String::from("leaf") };
    let value_subleaf = TestStruct { number: 4, text: String::from("subleaf") };

    let mut tree = Tree::new(value_root);

    let index_root = 0;
    let index_branch1 = tree.add_child(index_root, value_branch1);
    let _index_branch2 = tree.add_child(index_root, value_branch2);
    let _index_leaf = tree.add_child(index_branch1, value_leaf);

    // testing the connection and traversion
    let mut dfi = DepthFirstIterator::new(&tree);
    let mut indices: Vec<NodeIndex> = vec![];
    while let Some(index) = dfi.next() {
        indices.push(index);
    }
    assert_eq!(vec![0, 2, 1, 3], indices);

    // adding another child
    let _index_leaf = tree.add_child(index_branch1, value_subleaf);
    let mut dfi = DepthFirstIterator::new(&tree);
    let mut indices: Vec<NodeIndex> = vec![];
    while let Some(index) = dfi.next() {
        indices.push(index);
    }
    assert_eq!(vec![0, 2, 1, 4, 3], indices);

    let node = tree.get_node(4);
    assert_eq!(Some(1), node.parent);
    assert_eq!("subleaf", node.value.text);
    assert_eq!(4, node.value.number);
    assert_eq!(vec![3, 4], tree.get_node(1).children);
}

fn prepare_event_queue() -> EventQueue {
    let config = Config::default();
    let path_node = PathNode::from(config.setup.working_dir.clone());
    let mut event_queue = EventQueue::new(config, path_node, 80, 24);
    event_queue.do_reload(get_expanded_path_node(), 80, 24);
    event_queue
}

#[test]
fn expanded() {
    let event_queue = prepare_event_queue();

    let delta = event_queue.get_parent_dir_cursor_delta(&TreeIndex::from(vec![0]));

    assert_eq!(0, delta);
}

#[test]
fn empty_tree_index() {
    let event_queue = prepare_event_queue();

    let delta = event_queue.get_parent_dir_cursor_delta(&TreeIndex::new());

    assert_eq!(0, delta);
}

#[test]
fn jump() {
    let event_queue = prepare_event_queue();

    let delta = event_queue.get_parent_dir_cursor_delta(&TreeIndex::from(vec![1, 0, 4]));

    assert_eq!(7, delta);
}

#[test]
fn do_reload() {
    let mut config = Config::default();
    config.setup.working_dir = String::from(ROOT);
    let mut event_queue = EventQueue::new(config, get_expanded_path_node(), 80, 24);
    let before = event_queue.text_entries.clone();

    let mut new_root = PathNode::new_expanded(&event_queue.config, listing(ROOT));
    for tree_index in event_queue.path_node_root.expanded_paths() {
        if let Some(location) = new_root.expand_location(&tree_index) {
            new_root.expand_dir(&tree_index, event_queue.path_node_compare, listing(&location));
        }
    }
    event_queue.do_reload(new_root, 80, 24);

    assert_eq!(before, event_queue.text_entries);
    assert_eq!(31, event_queue.text_entries.len());
}
