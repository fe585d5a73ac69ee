use vstd::prelude::*;
use crate::compare_functions::{compare_named, PathNodeCompare};
use crate::composer::{lines, views, Composer};
use crate::config::{Config, Keybinding};
use crate::event::{key_event_spec, Key, TermEventView};
use crate::pager::{pager_stepped, saturate, Pager};
use crate::path_node::{
    collapse_result,
    count_before,
    expand_result,
    listing_view,
    node_at,
    rows,
    DirEntry,
    PathNode,
};
use crate::text::{replace_marker, replace_marker_in};
use crate::tree_index::TreeIndex;

verus! {

/// What a key press asks for.
#[derive(Debug, Clone, Copy, PartialEq, Eq, Structural)]
pub enum Action {
    CollapseDir,
    EntryDown,
    EntryUp,
    ExpandDir,
    FileAction,
    Quit,
    Reload,
    Unbound,
}

/// A container to expand: its path, and the location to list.
#[derive(Debug)]
pub struct ExpandTarget {
    pub tree_index: TreeIndex,
    pub location: String,
}

/// What the event loop does after a file action.
#[derive(Debug)]
pub enum FileActionStep {
    /// Start this shell command and go on.
    Spawn(String),
    /// Stop the loop; the command to run on exit is set.
    Quit,
}

/// The action bound to `key`; bindings are tried in a fixed order.
pub open spec fn action_for(kb: Keybinding, key: TermEventView) -> Action {
    if key == key_event_spec(kb.collapse_dir@) {
        Action::CollapseDir
    } else if key == key_event_spec(kb.entry_down@) {
        Action::EntryDown
    } else if key == key_event_spec(kb.entry_up@) {
        Action::EntryUp
    } else if key == key_event_spec(kb.expand_dir@) {
        Action::ExpandDir
    } else if key == key_event_spec(kb.file_action@) {
        Action::FileAction
    } else if key == key_event_spec(kb.quit@) {
        Action::Quit
    } else if key == key_event_spec(kb.reload@) {
        Action::Reload
    } else {
        Action::Unbound
    }
}

/// The state that the consumer of the event loop owns: the tree, its
/// display lines, and the view.
#[derive(Debug)]
pub struct EventQueue {
    pub config: Config,
    pub composer: Composer,
    pub pager: Pager,
    pub path_node_root: PathNode,
    pub path_node_compare: PathNodeCompare,
    pub text_entries: Vec<String>,
    pub command_to_run_on_exit: Option<String>,
}

/// The display lines of `root`; none when its rows do not fit in a `usize`.
pub open spec fn lines_of(composer: Composer, root: PathNode) -> Seq<Seq<char>> {
    if rows(root).len() <= usize::MAX {
        lines(composer.config.composition, root, 0)
    } else {
        Seq::empty()
    }
}

impl EventQueue {
    /// The display lines are those of the tree, and indentation is at least
    /// one column per level.
    pub open spec fn wf(&self) -> bool {
        &&& self.composer.config.composition.indent >= 1
        &&& views(self.text_entries@) == lines_of(self.composer, self.path_node_root)
    }

    /// The path of the row under the cursor; the root's when there is none.
    pub open spec fn selected_path(&self) -> Seq<int> {
        let r = rows(self.path_node_root);
        if r.len() <= usize::MAX && 0 <= self.pager.cursor_row < r.len() {
            r[self.pager.cursor_row as int]
        } else {
            Seq::empty()
        }
    }

    /// How far the cursor jumps when collapsing at `p`: to the parent row,
    /// unless the node there is an expanded container or a child of the root.
    pub open spec fn parent_delta(&self, p: Seq<int>) -> int {
        let n = node_at(self.path_node_root, p)->0;
        if n.is_dir && n.is_expanded {
            0
        } else if p.len() <= 1 || rows(self.path_node_root).len() > usize::MAX {
            0
        } else {
            saturate(
                saturate(count_before(rows(self.path_node_root), p.drop_last()) as int)
                    - self.pager.cursor_row,
            )
        }
    }

    /// A loop state around `path_node_root`, drawn on a terminal of the
    /// given size.
    pub fn new(config: Config, path_node_root: PathNode, terminal_cols: u16, terminal_rows: u16) -> (r:
        EventQueue)
        requires
            config.composition.indent >= 1,
        ensures
            r.wf(),
            r.config == config,
            r.path_node_root == path_node_root,
            r.path_node_compare == compare_named(config.behavior.path_node_sort@),
            r.command_to_run_on_exit is None,
            r.composer.config == config,
            pager_stepped(
                (Pager { config: config, cursor_row: 0, terminal_cols: 0, terminal_rows: 0, text_row: 0 }),
                r.pager,
                0,
                r.text_entries@.len() as int,
                terminal_cols as int,
                terminal_rows as int,
            ),
    {
        let path_node_compare = PathNode::get_path_node_compare(&config);
        let composer = Composer::from(config.duplicate());
        let pager = Pager::new(config.duplicate());
        let mut r = EventQueue {
            config,
            composer,
            pager,
            path_node_root,
            path_node_compare,
            text_entries: Vec::new(),
            command_to_run_on_exit: None,
        };
        r.refresh();
        r.update_pager(0, terminal_cols, terminal_rows);
        r
    }

    /// Recomposes the display lines from the tree.
    pub fn refresh(&mut self)
        requires
            old(self).composer.config.composition.indent >= 1,
        ensures
            final(self).wf(),
            final(self).path_node_root == old(self).path_node_root,
            final(self).pager == old(self).pager,
            final(self).config == old(self).config,
            final(self).composer == old(self).composer,
            final(self).path_node_compare == old(self).path_node_compare,
            final(self).command_to_run_on_exit == old(self).command_to_run_on_exit,
    {
        match self.path_node_root.checked_visible_count() {
            Some(_) => {
                self.text_entries = self.composer.compose_path_node(&self.path_node_root);
            },
            None => {
                self.text_entries = Vec::new();
                assert(views(self.text_entries@) =~= Seq::<Seq<char>>::empty());
            },
        }
    }

    /// Moves the cursor by `cursor_delta` and scrolls.
    pub fn update_pager(&mut self, cursor_delta: i32, terminal_cols: u16, terminal_rows: u16)
        ensures
            pager_stepped(
                old(self).pager,
                final(self).pager,
                cursor_delta as int,
                old(self).text_entries@.len() as int,
                terminal_cols as int,
                terminal_rows as int,
            ),
            final(self).path_node_root == old(self).path_node_root,
            final(self).text_entries == old(self).text_entries,
            final(self).config == old(self).config,
            final(self).composer == old(self).composer,
            final(self).path_node_compare == old(self).path_node_compare,
            final(self).command_to_run_on_exit == old(self).command_to_run_on_exit,
    {
        let len = self.text_entries.len();
        self.pager.update(cursor_delta, len, terminal_cols, terminal_rows);
    }

    /// The action bound to `key`.
    pub fn match_key_event(&self, key: &Key) -> (r: Action)
        ensures
            r == action_for(self.config.keybinding, key.inner@),
    {
        let kb = &self.config.keybinding;
        if *key == Key::from(kb.collapse_dir.as_str()) {
            Action::CollapseDir
        } else if *key == Key::from(kb.entry_down.as_str()) {
            Action::EntryDown
        } else if *key == Key::from(kb.entry_up.as_str()) {
            Action::EntryUp
        } else if *key == Key::from(kb.expand_dir.as_str()) {
            Action::ExpandDir
        } else if *key == Key::from(kb.file_action.as_str()) {
            Action::FileAction
        } else if *key == Key::from(kb.quit.as_str()) {
            Action::Quit
        } else if *key == Key::from(kb.reload.as_str()) {
            Action::Reload
        } else {
            Action::Unbound
        }
    }

    /// The path of the row under the cursor; the root's when there is none.
    pub fn selected_tree_index(&self) -> (r: TreeIndex)
        ensures
            r@ == self.selected_path(),
            node_at(self.path_node_root, r@) is Some,
    {
        let cursor = self.pager.cursor_row;
        match self.path_node_root.checked_visible_count() {
            Some(n) => {
                if cursor >= 0 && (cursor as usize) < n {
                    let r = self.path_node_root.flat_index_to_tree_index(cursor as usize);
                    proof {
                        crate::path_node::lemma_row_resolves(
                            self.path_node_root,
                            cursor as int,
                        );
                    }
                    r
                } else {
                    TreeIndex::new()
                }
            },
            None => TreeIndex::new(),
        }
    }

    /// How far the cursor jumps when collapsing at `tree_index`.
    pub fn get_parent_dir_cursor_delta(&self, tree_index: &TreeIndex) -> (r: i32)
        requires
            node_at(self.path_node_root, tree_index@) is Some,
        ensures
            r == self.parent_delta(tree_index@),
    {
        let node = self.path_node_root.get_child_path_node(tree_index);
        if node.is_dir && node.is_expanded {
            return 0;
        }
        // the parent of a child of the root is the root, which has no row
        if tree_index.index.len() <= 1 {
            return 0;
        }
        let parent = tree_index.get_parent();
        match self.path_node_root.checked_visible_count() {
            Some(_) => {
                let flat = self.path_node_root.tree_index_to_flat_index(&parent);
                let flat32: i64 = if flat > i32::MAX as usize {
                    i32::MAX as i64
                } else {
                    flat as i64
                };
                let d = flat32 - self.pager.cursor_row as i64;
                if d < i32::MIN as i64 {
                    i32::MIN
                } else if d > i32::MAX as i64 {
                    i32::MAX
                } else {
                    d as i32
                }
            },
            None => 0,
        }
    }
}


impl EventQueue {
    /// Moves the cursor one row up.
    pub fn do_entry_up(&mut self, terminal_cols: u16, terminal_rows: u16)
        ensures
            pager_stepped(
                old(self).pager,
                final(self).pager,
                -1,
                old(self).text_entries@.len() as int,
                terminal_cols as int,
                terminal_rows as int,
            ),
            final(self).path_node_root == old(self).path_node_root,
            final(self).text_entries == old(self).text_entries,
            final(self).config == old(self).config,
            final(self).composer == old(self).composer,
            final(self).path_node_compare == old(self).path_node_compare,
            final(self).command_to_run_on_exit == old(self).command_to_run_on_exit,
            old(self).wf() ==> final(self).wf(),
    {
        self.update_pager(-1, terminal_cols, terminal_rows);
    }

    /// Moves the cursor one row down.
    pub fn do_entry_down(&mut self, terminal_cols: u16, terminal_rows: u16)
        ensures
            pager_stepped(
                old(self).pager,
                final(self).pager,
                1,
                old(self).text_entries@.len() as int,
                terminal_cols as int,
                terminal_rows as int,
            ),
            final(self).path_node_root == old(self).path_node_root,
            final(self).text_entries == old(self).text_entries,
            final(self).config == old(self).config,
            final(self).composer == old(self).composer,
            final(self).path_node_compare == old(self).path_node_compare,
            final(self).command_to_run_on_exit == old(self).command_to_run_on_exit,
            old(self).wf() ==> final(self).wf(),
    {
        self.update_pager(1, terminal_cols, terminal_rows);
    }

    /// Collapses the node under the cursor when it is an expanded container;
    /// otherwise moves the cursor to its parent's row.
    pub fn do_collapse_dir(&mut self, terminal_cols: u16, terminal_rows: u16)
        requires
            old(self).wf(),
        ensures
            final(self).wf(),
            old(self).parent_delta(old(self).selected_path()) == 0 ==> collapse_result(
                old(self).path_node_root,
                final(self).path_node_root,
                old(self).selected_path(),
            ),
            old(self).parent_delta(old(self).selected_path()) != 0 ==> final(self).path_node_root
                == old(self).path_node_root,
            pager_stepped(
                old(self).pager,
                final(self).pager,
                old(self).parent_delta(old(self).selected_path()),
                final(self).text_entries@.len() as int,
                terminal_cols as int,
                terminal_rows as int,
            ),
            final(self).config == old(self).config,
            final(self).composer == old(self).composer,
            final(self).path_node_compare == old(self).path_node_compare,
            final(self).command_to_run_on_exit == old(self).command_to_run_on_exit,
    {
        let tree_index = self.selected_tree_index();
        let cursor_delta = self.get_parent_dir_cursor_delta(&tree_index);
        if cursor_delta == 0 {
            self.path_node_root.collapse_dir(&tree_index);
        }
        self.refresh();
        proof {
            crate::composer::lemma_lines_len(
                self.composer.config.composition,
                self.path_node_root,
                0,
            );
        }
        self.update_pager(cursor_delta, terminal_cols, terminal_rows);
    }

    /// The path under the cursor and the location to list, when the row
    /// under the cursor is a container.
    pub fn expand_target(&self) -> (r: Option<ExpandTarget>)
        ensures
            r is Some <==> node_at(self.path_node_root, self.selected_path())->0.is_dir,
            r is Some ==> r->0.tree_index@ == self.selected_path() && r->0.location@ == node_at(
                self.path_node_root,
                self.selected_path(),
            )->0.path@,
    {
        let tree_index = self.selected_tree_index();
        match self.path_node_root.expand_location(&tree_index) {
            Some(location) => Some(ExpandTarget { tree_index, location }),
            None => None,
        }
    }

    /// Expands the container at `tree_index` with `listing` (`None` when
    /// listing failed), and redraws.
    pub fn do_expand_dir(
        &mut self,
        tree_index: &TreeIndex,
        listing: Option<Vec<DirEntry>>,
        terminal_cols: u16,
        terminal_rows: u16,
    )
        requires
            old(self).wf(),
        ensures
            final(self).wf(),
            expand_result(
                old(self).path_node_root,
                final(self).path_node_root,
                tree_index@,
                old(self).path_node_compare,
                listing_view(listing),
            ),
            pager_stepped(
                old(self).pager,
                final(self).pager,
                0,
                final(self).text_entries@.len() as int,
                terminal_cols as int,
                terminal_rows as int,
            ),
            final(self).config == old(self).config,
            final(self).composer == old(self).composer,
            final(self).path_node_compare == old(self).path_node_compare,
            final(self).command_to_run_on_exit == old(self).command_to_run_on_exit,
    {
        self.path_node_root.expand_dir(tree_index, self.path_node_compare, listing);
        self.refresh();
        self.update_pager(0, terminal_cols, terminal_rows);
    }

    /// The location of the row under the cursor, when it is no container:
    /// the file that a file action acts on.
    pub fn file_action_target(&self) -> (r: Option<String>)
        ensures
            r is Some <==> !node_at(self.path_node_root, self.selected_path())->0.is_dir,
            r is Some ==> r->0@ == node_at(self.path_node_root, self.selected_path())->0.path@,
    {
        let tree_index = self.selected_tree_index();
        let node = self.path_node_root.get_child_path_node(&tree_index);
        if node.is_dir {
            None
        } else {
            Some(node.path.clone())
        }
    }

    /// The file action on the file at `absolute_path`: the configured command
    /// with each `%s` replaced by the path, either to start now or, when the
    /// configuration says so, to run on exit.
    pub fn do_file_action(&mut self, absolute_path: &str) -> (r: FileActionStep)
        ensures
            final(self).path_node_root == old(self).path_node_root,
            final(self).pager == old(self).pager,
            final(self).text_entries == old(self).text_entries,
            final(self).config == old(self).config,
            final(self).composer == old(self).composer,
            final(self).path_node_compare == old(self).path_node_compare,
            old(self).wf() ==> final(self).wf(),
            old(self).config.behavior.quit_on_action ==> r is Quit
                && final(self).command_to_run_on_exit is Some
                && final(self).command_to_run_on_exit->0@ == replace_marker(
                old(self).config.behavior.file_action@,
                absolute_path@,
            ),
            !old(self).config.behavior.quit_on_action ==> r is Spawn && r->0@ == replace_marker(
                old(self).config.behavior.file_action@,
                absolute_path@,
            ) && final(self).command_to_run_on_exit == old(self).command_to_run_on_exit,
    {
        let command = replace_marker_in(self.config.behavior.file_action.as_str(), absolute_path);
        if self.config.behavior.quit_on_action {
            self.command_to_run_on_exit = Some(command);
            FileActionStep::Quit
        } else {
            FileActionStep::Spawn(command)
        }
    }

    /// Takes `new_root`, rebuilt from a fresh listing, in place of the tree,
    /// and redraws.
    pub fn do_reload(&mut self, new_root: PathNode, terminal_cols: u16, terminal_rows: u16)
        requires
            old(self).wf(),
        ensures
            final(self).wf(),
            final(self).path_node_root == new_root,
            pager_stepped(
                old(self).pager,
                final(self).pager,
                0,
                final(self).text_entries@.len() as int,
                terminal_cols as int,
                terminal_rows as int,
            ),
            final(self).config == old(self).config,
            final(self).composer == old(self).composer,
            final(self).path_node_compare == old(self).path_node_compare,
            final(self).command_to_run_on_exit == old(self).command_to_run_on_exit,
    {
        self.path_node_root = new_root;
        self.refresh();
        self.update_pager(0, terminal_cols, terminal_rows);
    }

    /// Whether the loop goes on after `action`: only quitting stops it.
    pub fn keeps_running(action: Action) -> (r: bool)
        ensures
            r == (action != Action::Quit),
    {
        match action {
            Action::Quit => false,
            _ => true,
        }
    }
}

} // verus!
