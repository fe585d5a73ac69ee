use std::cmp::Ordering::Greater;
use std::cmp::Ordering::Less;
use twilight_commander::composer::Composer;
use twilight_commander::config::Config;
use twilight_commander::pager::{Pager, ScreenLine};
use twilight_commander::path_node::PathNode;

fn prepare_pager() -> Pager {
    let mut config = Config::default();
    config.debug.enabled = true;
    config.debug.padding_bot = 1;
    config.debug.padding_top = 1;
    config.debug.spacing_bot = 1;
    config.debug.spacing_top = 1;

    let mut pager = Pager::new(config);

    pager.terminal_cols = 100;
    pager.terminal_rows = 10;

    pager
}

fn get_dir(name: &str) -> PathNode {
    let mut path_node = PathNode::from(".");
    path_node.is_dir = true;
    path_node.display_text = String::from(name);
    path_node
}

fn get_file(name: &str) -> PathNode {
    let mut path_node = PathNode::from(".");
    path_node.is_dir = false;
    path_node.display_text = String::from(name);
    path_node
}

#[test]
fn dir_to_dir() {
    let dir_a = get_dir("dir_a");
    let dir_b = get_dir("dir_b");

    let order = PathNode::compare_dirs_bot_simple(&dir_a, &dir_b);

    assert_eq!(Less, order);
}

#[test]
fn dir_to_file() {
    let dir = get_dir("something");
    let file = get_file("something");

    let order = PathNode::compare_dirs_bot_simple(&dir, &file);

    assert_eq!(Greater, order);
}

#[test]
fn file_to_file() {
    let file_a = get_file("file_a");
    let file_b = get_file("file_b");

    let order = PathNode::compare_dirs_bot_simple(&file_a, &file_b);

    assert_eq!(Less, order);
}

#[test]
fn compare_functions_dir_to_dir() {
    let dir_a = get_dir("dir_a");
    let dir_b = get_dir("dir_b");

    let order = PathNode::compare_dirs_top_simple(&dir_a, &dir_b);

    assert_eq!(Less, order);
}

#[test]
fn compare_functions_dir_to_file() {
    let dir = get_dir("something");
    let file = get_file("something");

    let order = PathNode::compare_dirs_top_simple(&dir, &file);

    assert_eq!(Less, order);
}

#[test]
fn compare_functions_file_to_file() {
    let file_a = get_file("file_a");
    let file_b = get_file("file_b");

    let order = PathNode::compare_dirs_top_simple(&file_a, &file_b);

    assert_eq!(Less, order);
}

#[test]
fn names_compare_by_bytes() {
    let a = get_file("B");
    let b = get_file("a");
    let c = get_file("ab");
    assert_eq!(Less, PathNode::compare_dirs_top_simple(&a, &b));
    assert_eq!(Less, PathNode::compare_dirs_top_simple(&b, &c));
    assert_eq!(std::cmp::Ordering::Equal, PathNode::compare_dirs_top_simple(&c, &c));
}

#[test]
fn truncate_string_test() {
    let tc = Composer::truncate_string;
    assert_eq!(tc("hello world", 5), "hell~");
    assert_eq!(tc("hello world", 1), "~");
    assert_eq!(tc("hello world", 0), "");
    assert_eq!(tc("aaa▶bbb▶ccc", 8), "aaa▶bbb~");
    assert_eq!(tc("aaa▶bbb▶ccc", 6), "aaa▶b~");
    assert_eq!(tc("aaa▶bbb▶ccc", 4), "aaa~");
}

#[test]
fn truncate_keeps_short_strings() {
    assert_eq!(Composer::truncate_string("abc", 3), "abc");
    assert_eq!(Composer::truncate_string("", 2), "");
}

#[test]
fn composed_lines_show_markers_and_indent() {
    let mut config = Config::default();
    config.composition.show_indent = true;
    let composer = Composer::new(config);
    let mut root = PathNode::from(".");
    let mut dir = get_dir("d");
    dir.is_expanded = true;
    dir.children.push(get_file("f"));
    let mut bad = get_dir("e");
    bad.is_err = true;
    bad.is_expanded = true;
    root.children.push(dir);
    root.children.push(bad);
    root.children.push(get_dir("g"));
    let lines = composer.compose_path_node(&root);
    assert_eq!(vec!["▼ d/", "·   f", "⨯ e/", "▶ g/"], lines);
}

#[test]
fn overshoot_from_below() {
    let overshoot = Pager::get_index_overshoot(10, 11, 3);
    assert_eq!(Some(1), overshoot);
}

#[test]
fn overshoot_from_above() {
    let overshoot = Pager::get_index_overshoot(10, 7, -4);
    assert_eq!(Some(-3), overshoot);
}

#[test]
fn no_overshoot_from_below() {
    let overshoot = Pager::get_index_overshoot(10, 7, 2);
    assert_eq!(None, overshoot);
}

#[test]
fn no_overshoot_from_above() {
    let overshoot = Pager::get_index_overshoot(10, 14, -3);
    assert_eq!(None, overshoot);
}

#[test]
fn scroll_like_center_cursor_top_test() {
    let text_row = {
        let pager = prepare_pager();
        pager.scroll_like_center(1, 17)
    };

    assert_eq!(1, text_row);
}

#[test]
fn scroll_like_center_text_moves_up1_test() {
    let text_row = {
        let mut pager = prepare_pager();
        pager.cursor_row = 5;
        pager.scroll_like_center(1, 17)
    };

    assert_eq!(0, text_row);
}

#[test]
fn scroll_like_center_text_moves_up2_test() {
    let text_row = {
        let mut pager = prepare_pager();
        pager.cursor_row = 6;
        pager.scroll_like_center(1, 17)
    };

    assert_eq!(-1, text_row);
}

#[test]
fn scroll_like_center_text_moves_down_test() {
    let text_row = {
        let mut pager = prepare_pager();
        pager.cursor_row = 6;
        pager.scroll_like_center(-1, 17)
    };

    assert_eq!(0, text_row);
}

#[test]
fn scroll_like_center_cursor_bot_test() {
    let text_row = {
        let mut pager = prepare_pager();
        pager.cursor_row = 9;
        pager.scroll_like_center(-1, 17)
    };

    assert_eq!(-1, text_row);
}

#[test]
fn scroll_like_center_cursor_bot_no_delta_test() {
    let text_row = {
        let mut pager = prepare_pager();
        pager.cursor_row = 9;
        pager.scroll_like_center(0, 17)
    };

    assert_eq!(-4, text_row);
}

#[test]
fn scroll_like_editor_cursor_top_test() {
    let text_row = {
        let pager = prepare_pager();
        pager.scroll_like_editor()
    };

    assert_eq!(2, text_row);
}

#[test]
fn scroll_like_editor_text_moves_up1_test() {
    let text_row = {
        let mut pager = prepare_pager();
        pager.cursor_row = 5;
        pager.scroll_like_editor()
    };

    assert_eq!(0, text_row);
}

#[test]
fn scroll_like_editor_text_moves_up2_test() {
    let text_row = {
        let mut pager = prepare_pager();
        pager.cursor_row = 6;
        pager.scroll_like_editor()
    };

    assert_eq!(0, text_row);
}

#[test]
fn scroll_like_editor_text_moves_down_test() {
    let text_row = {
        let mut pager = prepare_pager();
        pager.cursor_row = 6;
        pager.scroll_like_editor()
    };

    assert_eq!(0, text_row);
}

#[test]
fn scroll_like_editor_cursor_bot_test() {
    let text_row = {
        let mut pager = prepare_pager();
        pager.cursor_row = 9;
        pager.scroll_like_editor()
    };

    assert_eq!(-2, text_row);
}

#[test]
fn scroll_like_editor_cursor_bot_no_delta_test() {
    let text_row = {
        let mut pager = prepare_pager();
        pager.cursor_row = 9;
        pager.scroll_like_editor()
    };

    assert_eq!(-2, text_row);
}

#[test]
fn cursor_wraps_around() {
    let mut pager = prepare_pager();
    pager.update_cursor_row(-1, 17);
    assert_eq!(16, pager.cursor_row);
    pager.update_cursor_row(1, 17);
    assert_eq!(0, pager.cursor_row);
}

#[test]
fn centered_scroll_brings_first_row_to_top() {
    let mut pager = prepare_pager();
    pager.cursor_row = 1;
    pager.text_row = -3;
    pager.update(-1, 17, 100, 10);
    assert_eq!(0, pager.cursor_row);
    assert_eq!(1, pager.text_row);
    let mut pager = prepare_pager();
    pager.cursor_row = 16;
    pager.text_row = -7;
    pager.update(1, 17, 100, 10);
    assert_eq!(0, pager.cursor_row);
    assert_eq!(1, pager.text_row);
}

#[test]
fn unknown_scrolling_fixes_the_view() {
    let mut pager = prepare_pager();
    pager.config.behavior.scrolling = String::from("none");
    pager.text_row = 5;
    pager.update(3, 17, 100, 10);
    assert_eq!(3, pager.cursor_row);
    assert_eq!(0, pager.text_row);
}

#[test]
fn layout_places_visible_rows() {
    let mut pager = prepare_pager();
    pager.cursor_row = 2;
    pager.text_row = 0;
    let lines = pager.layout(17);
    assert_eq!(8, lines.len());
    assert_eq!(ScreenLine { line: 2, entry: 1, emphasized: false }, lines[0]);
    assert_eq!(ScreenLine { line: 3, entry: 2, emphasized: true }, lines[1]);
    assert_eq!(ScreenLine { line: 9, entry: 8, emphasized: false }, lines[7]);
}

#[test]
fn centered_scroll_never_leaves_blank_lines_above_the_first_row() {
    let mut pager = prepare_pager();
    pager.cursor_row = 1;
    pager.text_row = 5;
    pager.update(-1, 17, 100, 10);
    assert_eq!(0, pager.cursor_row);
    assert_eq!(1, pager.text_row);

    let mut pager = prepare_pager();
    pager.cursor_row = 20;
    pager.text_row = -10;
    pager.update(-18, 30, 100, 10);
    assert_eq!(2, pager.cursor_row);
    assert!(pager.text_row <= 1);
    pager.update(-1, 30, 100, 10);
    pager.update(-1, 30, 100, 10);
    assert_eq!(0, pager.cursor_row);
    assert_eq!(1, pager.text_row);
}

#[test]
fn centered_scroll_keeps_the_last_row_at_the_bottom() {
    let mut pager = prepare_pager();
    pager.cursor_row = 16;
    pager.text_row = -20;
    pager.update(0, 17, 100, 10);
    assert_eq!(-8, pager.text_row);
}
