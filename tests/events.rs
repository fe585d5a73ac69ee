use twilight_commander::args::{parse_bool, parse_i32, split_arg, ArgsError};
use twilight_commander::compare_functions::PathNodeCompare;
use twilight_commander::config::Config;
use twilight_commander::controller::{Action, EventQueue, FileActionStep};
use twilight_commander::event::{key_event_from_name, Key, KeyCode, TermEvent};
use twilight_commander::path_node::{DirEntry, PathNode};
use twilight_commander::text::replace_marker_in;
use twilight_commander::tree_index::TreeIndex;

const ROOT: &str = "./tests/test_dirs";

fn listing(location: &str) -> Option<Vec<DirEntry>> {
    let entries: Vec<(&str, bool)> = match location.strip_prefix(ROOT)? {
        "" => vec![("dir1", true), ("dir2", true), ("file_a", false)],
        "/dir1" => vec![("file1", false)],
        "/dir2" => vec![("dir21", true), ("file2", false)],
        "/dir2/dir21" => vec![("file3", false), ("dir211", true), ("file4", false)],
        "/dir2/dir21/dir211" => vec![],
        _ => return None,
    };
    Some(
        entries
            .into_iter()
            .map(|(name, is_dir)| DirEntry {
                name: String::from(name),
                is_dir,
                path: format!("{}/{}", location, name),
            })
            .collect(),
    )
}

fn expand(node: &mut PathNode, index: Vec<usize>) {
    let tree_index = TreeIndex::from(index);
    let entries = match node.expand_location(&tree_index) {
        Some(location) => listing(&location),
        None => None,
    };
    node.expand_dir(&tree_index, PathNodeCompare::DirsTopSimple, entries);
}

fn get_expanded_path_node() -> PathNode {
    let mut path_node = PathNode::from(ROOT);
    expand(&mut path_node, vec![]);
    expand(&mut path_node, vec![0]);
    expand(&mut path_node, vec![1]);
    expand(&mut path_node, vec![1, 0]);
    path_node
}

fn prepare_event_queue() -> EventQueue {
    let mut config = Config::default();
    config.setup.working_dir = String::from(ROOT);
    EventQueue::new(config, get_expanded_path_node(), 80, 24)
}

fn bound(event_queue: &EventQueue, name: &str) -> Action {
    event_queue.match_key_event(&Key::from(name))
}

#[test]
fn key_from_termion_event_test() {
    assert_eq!(
        Key::from(TermEvent::Unsupported(vec![27, 91, 49, 59, 52, 66])),
        Key { inner: TermEvent::Unsupported(vec![27, 91, 49, 59, 52, 66]) }
    );
}

#[test]
fn key_from_str_test() {
    assert_eq!(
        Key::from("shift+alt+down"),
        Key { inner: TermEvent::Unsupported(vec![27, 91, 49, 59, 52, 66]) }
    );
}

#[test]
fn key_from_string_test() {
    assert_eq!(
        Key::from(String::from("shift+alt+up")),
        Key { inner: TermEvent::Unsupported(vec![27, 91, 49, 59, 52, 65]) }
    );
}

#[test]
fn nonsense() {
    assert_eq!(TermEvent::Unsupported(Vec::new()), key_event_from_name("x1"));
    assert_eq!(TermEvent::Unsupported(Vec::new()), key_event_from_name("alt+x1"));
    assert_eq!(TermEvent::Unsupported(Vec::new()), key_event_from_name("ctrl+x1"));
}

#[test]
fn single_digit() {
    assert_eq!(TermEvent::Key(KeyCode::Char('x')), key_event_from_name("x"));
}

#[test]
fn alt_digit() {
    assert_eq!(TermEvent::Key(KeyCode::Alt('x')), key_event_from_name("alt+x"));
}

#[test]
fn ctrl_digit() {
    assert_eq!(TermEvent::Key(KeyCode::Ctrl('x')), key_event_from_name("ctrl+x"));
}

#[test]
fn f_key() {
    assert_eq!(TermEvent::Key(KeyCode::F(5)), key_event_from_name("f5"));
}

#[test]
fn special_key() {
    assert_eq!(TermEvent::Key(KeyCode::PageDown), key_event_from_name("page_down"));
}

#[test]
fn special_key_comination() {
    assert_eq!(
        TermEvent::Unsupported(vec![27, 91, 49, 59, 52, 65]),
        key_event_from_name("alt+shift+up")
    );
}

#[test]
fn return_and_tab_are_characters() {
    assert_eq!(TermEvent::Key(KeyCode::Char('\n')), key_event_from_name("return"));
    assert_eq!(TermEvent::Key(KeyCode::Char('\t')), key_event_from_name("tab"));
    assert_eq!(TermEvent::Unsupported(vec![27, 91, 49, 59, 53, 68]), key_event_from_name("ctrl+left"));
}

#[test]
fn match_key_event_default_test() {
    let event_queue = prepare_event_queue();
    let action = bound(&event_queue, "nonsense");
    assert_eq!(Action::Unbound, action);
    assert!(EventQueue::keeps_running(action));
}

#[test]
fn match_key_event_quit_test() {
    let event_queue = prepare_event_queue();
    let action = bound(&event_queue, &event_queue.config.keybinding.quit.clone());
    assert_eq!(Action::Quit, action);
    assert!(!EventQueue::keeps_running(action));
}

#[test]
fn match_key_event_reload_test() {
    let event_queue = prepare_event_queue();
    let action = bound(&event_queue, &event_queue.config.keybinding.reload.clone());
    assert_eq!(Action::Reload, action);
    assert!(EventQueue::keeps_running(action));
}

#[test]
fn match_key_event_file_action_test() {
    let event_queue = prepare_event_queue();
    let action = bound(&event_queue, &event_queue.config.keybinding.file_action.clone());
    assert_eq!(Action::FileAction, action);
    assert!(EventQueue::keeps_running(action));
}

#[test]
fn match_key_event_entry_up_test() {
    let event_queue = prepare_event_queue();
    let action = bound(&event_queue, &event_queue.config.keybinding.entry_up.clone());
    assert_eq!(Action::EntryUp, action);
    assert!(EventQueue::keeps_running(action));
}

#[test]
fn match_key_event_entry_down_test() {
    let event_queue = prepare_event_queue();
    let action = bound(&event_queue, &event_queue.config.keybinding.entry_down.clone());
    assert_eq!(Action::EntryDown, action);
    assert!(EventQueue::keeps_running(action));
}

#[test]
fn match_key_event_collapse_dir_test() {
    let event_queue = prepare_event_queue();
    let action = bound(&event_queue, &event_queue.config.keybinding.collapse_dir.clone());
    assert_eq!(Action::CollapseDir, action);
    assert!(EventQueue::keeps_running(action));
}

#[test]
fn match_key_event_expand_dir_test() {
    let event_queue = prepare_event_queue();
    let action = bound(&event_queue, &event_queue.config.keybinding.expand_dir.clone());
    assert_eq!(Action::ExpandDir, action);
    assert!(EventQueue::keeps_running(action));
}

#[test]
fn collapse_then_jump_to_parent() {
    let mut event_queue = prepare_event_queue();
    // rows: dir1, file1, dir2, dir21, dir211, file3, file4, file2, file_a, ...
    event_queue.do_entry_down(80, 24);
    event_queue.do_entry_down(80, 24);
    event_queue.do_entry_down(80, 24);
    assert_eq!(3, event_queue.pager.cursor_row);
    event_queue.do_collapse_dir(80, 24);
    assert_eq!(6, event_queue.text_entries.len());
    assert_eq!(3, event_queue.pager.cursor_row);
    event_queue.do_entry_up(80, 24);
    event_queue.do_collapse_dir(80, 24);
    assert_eq!(4, event_queue.text_entries.len());
    event_queue.do_entry_down(80, 24);
    event_queue.do_entry_down(80, 24);
    assert_eq!(0, event_queue.pager.cursor_row);
}

#[test]
fn expand_the_row_under_the_cursor() {
    let mut config = Config::default();
    config.setup.working_dir = String::from(ROOT);
    let root = PathNode::new_expanded(&config, listing(ROOT));
    let mut event_queue = EventQueue::new(config, root, 80, 24);
    assert_eq!(3, event_queue.text_entries.len());
    event_queue.do_entry_down(80, 24);
    let target = event_queue.expand_target().expect("a container is selected");
    assert_eq!(vec![1], target.tree_index.index);
    assert_eq!("./tests/test_dirs/dir2", target.location);
    event_queue.do_expand_dir(&target.tree_index, listing(&target.location), 80, 24);
    assert_eq!(5, event_queue.text_entries.len());
    assert_eq!("▼ dir2/", event_queue.text_entries[1]);
    event_queue.do_entry_down(80, 24);
    event_queue.do_entry_down(80, 24);
    assert!(event_queue.expand_target().is_none());
    assert_eq!(Some(String::from("./tests/test_dirs/dir2/file2")), event_queue.file_action_target());
}

#[test]
fn file_action_fills_in_the_path() {
    let mut event_queue = prepare_event_queue();
    event_queue.config.behavior.file_action = String::from("less %s; echo %s");
    match event_queue.do_file_action("/tmp/x") {
        FileActionStep::Spawn(command) => assert_eq!("less /tmp/x; echo /tmp/x", command),
        _ => panic!("expected a command to start"),
    }
    event_queue.config.behavior.quit_on_action = true;
    assert!(matches!(event_queue.do_file_action("/y"), FileActionStep::Quit));
    assert_eq!(Some(String::from("less /y; echo /y")), event_queue.command_to_run_on_exit);
}

#[test]
fn marker_replacement() {
    assert_eq!("a%b", replace_marker_in("a%b", "X"));
    assert_eq!("XsX", replace_marker_in("%ss%s", "X"));
    assert_eq!("", replace_marker_in("", "X"));
}

#[test]
fn split_arg_at_first_equals() {
    let (k, v) = split_arg(String::from("--behavior.file_action=(x=1; y=2; echo $x$y)"));
    assert_eq!("--behavior.file_action", k);
    assert_eq!("(x=1; y=2; echo $x$y)", v);
    let (k, v) = split_arg(String::from("--help"));
    assert_eq!("--help", k);
    assert_eq!("", v);
}

#[test]
fn numbers_parse_like_std() {
    let cases = ["123", "-5", "+7", "", "-", "+", "2147483647", "2147483648", "-2147483648", "-2147483649", "12a", "007", "99999999999"];
    for case in cases {
        assert_eq!(case.parse::<i32>().ok(), parse_i32(case), "{}", case);
    }
    assert_eq!(Some(true), parse_bool("true"));
    assert_eq!(Some(false), parse_bool("false"));
    assert_eq!(None, parse_bool("True"));
}

#[test]
fn test_parse_args() {
    let default_config = Config::default();
    let args_vec = vec![
        String::from("--behavior.file_action=file_action_test"),
        String::from("--behavior.path_node_sort=path_node_sort_test"),
        String::from("--behavior.scrolling=scrolling_test"),
        String::from("--color.background=background_test"),
        String::from("--color.foreground=foreground_test"),
        String::from("--debug.enabled=true"),
        String::from("--debug.padding_bot=111"),
        String::from("--debug.padding_top=222"),
        String::from("--debug.spacing_bot=333"),
        String::from("--debug.spacing_top=444"),
        String::from("--setup.working_dir=working_dir_test"),
    ];

    let config = Config::parse_args(default_config, &args_vec).unwrap();

    assert_eq!(config.behavior.file_action, String::from("file_action_test"));
    assert_eq!(config.behavior.path_node_sort, String::from("path_node_sort_test"));
    assert_eq!(config.behavior.scrolling, String::from("scrolling_test"));
    assert_eq!(config.color.background, String::from("background_test"));
    assert_eq!(config.color.foreground, String::from("foreground_test"));
    assert_eq!(config.debug.enabled, true);
    assert_eq!(config.debug.padding_bot, 111);
    assert_eq!(config.debug.padding_top, 222);
    assert_eq!(config.debug.spacing_bot, 333);
    assert_eq!(config.debug.spacing_top, 444);
    assert_eq!(config.setup.working_dir, String::from("working_dir_test"));
}

#[test]
fn test_parse_args_with_stopper() {
    let default_config = Config::default();
    let args_vec = vec![
        String::from("--behavior.file_action=file_action_test"),
        String::from("--behavior.path_node_sort=path_node_sort_test"),
        String::from("--behavior.scrolling=scrolling_test"),
        String::from("--color.background=background_test"),
        String::from("--color.foreground=foreground_test"),
        String::from("--"),
        String::from("--debug.enabled=true"),
        String::from("--debug.padding_bot=111"),
        String::from("--debug.padding_top=222"),
        String::from("--debug.spacing_bot=333"),
        String::from("--debug.spacing_top=444"),
        String::from("--setup.working_dir=working_dir_test"),
    ];

    let config = Config::parse_args(default_config, &args_vec).unwrap();
    let def_conf = Config::default();

    assert_eq!(config.behavior.file_action, String::from("file_action_test"));
    assert_eq!(config.behavior.path_node_sort, String::from("path_node_sort_test"));
    assert_eq!(config.behavior.scrolling, String::from("scrolling_test"));
    assert_eq!(config.color.background, String::from("background_test"));
    assert_eq!(config.color.foreground, String::from("foreground_test"));
    assert_eq!(config.debug.enabled, def_conf.debug.enabled);
    assert_eq!(config.debug.padding_bot, def_conf.debug.padding_bot);
    assert_eq!(config.debug.padding_top, def_conf.debug.padding_top);
    assert_eq!(config.debug.spacing_bot, def_conf.debug.spacing_bot);
    assert_eq!(config.debug.spacing_top, def_conf.debug.spacing_top);
    assert_eq!(config.setup.working_dir, def_conf.setup.working_dir);
}

#[test]
fn test_parse_args_with_multiple_equals() {
    let default_config = Config::default();
    let args_vec = vec![String::from("--behavior.file_action=(x=1; y=2; echo $x$y)")];

    let config = Config::parse_args(default_config, &args_vec).unwrap();

    assert_eq!(config.behavior.file_action, String::from("(x=1; y=2; echo $x$y)"));
}

#[test]
fn parse_args_errors() {
    let args_vec = vec![String::from("--debug.padding_top=2"), String::from("--debug.enabled=yes")];
    match Config::parse_args(Config::default(), &args_vec) {
        Err(ArgsError::Unparsable { key, value }) => {
            assert_eq!("--debug.enabled", key);
            assert_eq!("yes", value);
        }
        _ => panic!("expected an unparsable value"),
    }
    let args_vec = vec![String::from("--nothing=1"), String::from("--help"), String::from("--debug.enabled=yes")];
    assert!(matches!(Config::parse_args(Config::default(), &args_vec), Err(ArgsError::Help)));
    let args_vec = vec![String::from("--debug.spacing_top=5"), String::from("--debug.spacing_top=7")];
    assert_eq!(7, Config::parse_args(Config::default(), &args_vec).unwrap().debug.spacing_top);
}
