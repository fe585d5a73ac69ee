use vstd::prelude::*;

verus! {

/// What happens on a file action, how siblings are ordered and how the view scrolls.
#[derive(Clone, Debug)]
pub struct Behavior {
    pub file_action: String,
    pub path_node_sort: String,
    pub scrolling: String,
    pub quit_on_action: bool,
}

/// The colours of the view, as hexadecimal RGB strings.
#[derive(Clone, Debug)]
pub struct Color {
    pub background: String,
    pub foreground: String,
}

/// How rows are drawn: indentation width, whether indentation is marked, and
/// whether UTF-8 glyphs are used.
#[derive(Clone, Debug)]
pub struct Composition {
    pub indent: i32,
    pub show_indent: bool,
    pub use_utf8: bool,
}

/// The margins of the view: `spacing_*` lines are kept free for the header
/// and footer, `padding_*` is the band the cursor stays out of when
/// scrolling like an editor.
#[derive(Clone, Debug)]
pub struct Debug {
    pub enabled: bool,
    pub padding_bot: i32,
    pub padding_top: i32,
    pub spacing_bot: i32,
    pub spacing_top: i32,
}

/// The key names bound to each action.
#[derive(Clone, Debug)]
pub struct Keybinding {
    pub quit: String,
    pub entry_up: String,
    pub entry_down: String,
    pub expand_dir: String,
    pub collapse_dir: String,
    pub file_action: String,
    pub reload: String,
}

/// Where the viewed tree starts.
#[derive(Clone, Debug)]
pub struct Setup {
    pub working_dir: String,
}

/// The whole configuration.
#[derive(Clone, Debug)]
pub struct Config {
    pub behavior: Behavior,
    pub color: Color,
    pub composition: Composition,
    pub debug: Debug,
    pub keybinding: Keybinding,
    pub setup: Setup,
}

impl Behavior {
    /// The shell command run on a file: one that does nothing.
    pub fn default_file_action() -> (r: String)
        ensures
            r@ == "true"@,
    {
        "true".to_owned()
    }

    pub fn default_path_node_sort() -> (r: String)
        ensures
            r@ == "dirs_top_simple"@,
    {
        "dirs_top_simple".to_owned()
    }

    pub fn default_scrolling() -> (r: String)
        ensures
            r@ == "center"@,
    {
        "center".to_owned()
    }

    pub fn default_quit_on_action() -> (r: bool)
        ensures
            !r,
    {
        false
    }
}

impl Default for Behavior {
    fn default() -> (r: Behavior)
        ensures
            r.file_action@ == "true"@,
            r.path_node_sort@ == "dirs_top_simple"@,
            r.scrolling@ == "center"@,
            !r.quit_on_action,
    {
        Behavior {
            file_action: Self::default_file_action(),
            path_node_sort: Self::default_path_node_sort(),
            scrolling: Self::default_scrolling(),
            quit_on_action: Self::default_quit_on_action(),
        }
    }
}

impl Color {
    pub fn default_background() -> (r: String)
        ensures
            r@ == "000000"@,
    {
        "000000".to_owned()
    }

    pub fn default_foreground() -> (r: String)
        ensures
            r@ == "FFFFFF"@,
    {
        "FFFFFF".to_owned()
    }
}

impl Default for Color {
    fn default() -> (r: Color)
        ensures
            r.background@ == "000000"@,
            r.foreground@ == "FFFFFF"@,
    {
        Color { background: Self::default_background(), foreground: Self::default_foreground() }
    }
}

impl Composition {
    pub fn default_indent() -> (r: i32)
        ensures
            r == 2,
    {
        2
    }

    pub fn default_show_indent() -> (r: bool)
        ensures
            !r,
    {
        false
    }

    pub fn default_use_utf8() -> (r: bool)
        ensures
            r,
    {
        true
    }
}

impl Default for Composition {
    fn default() -> (r: Composition)
        ensures
            r.indent == 2,
            !r.show_indent,
            r.use_utf8,
    {
        Composition {
            indent: Self::default_indent(),
            show_indent: Self::default_show_indent(),
            use_utf8: Self::default_use_utf8(),
        }
    }
}

impl Debug {
    pub fn default_enabled() -> (r: bool)
        ensures
            !r,
    {
        false
    }

    pub fn default_padding_bot() -> (r: i32)
        ensures
            r == 3,
    {
        3
    }

    pub fn default_padding_top() -> (r: i32)
        ensures
            r == 3,
    {
        3
    }

    pub fn default_spacing_bot() -> (r: i32)
        ensures
            r == 0,
    {
        0
    }

    pub fn default_spacing_top() -> (r: i32)
        ensures
            r == 1,
    {
        1
    }
}

impl Default for Debug {
    fn default() -> (r: Debug)
        ensures
            !r.enabled,
            r.padding_bot == 3,
            r.padding_top == 3,
            r.spacing_bot == 0,
            r.spacing_top == 1,
    {
        Debug {
            enabled: Self::default_enabled(),
            padding_bot: Self::default_padding_bot(),
            padding_top: Self::default_padding_top(),
            spacing_bot: Self::default_spacing_bot(),
            spacing_top: Self::default_spacing_top(),
        }
    }
}

impl Keybinding {
    pub fn default_quit() -> (r: String)
        ensures
            r@ == "q"@,
    {
        "q".to_owned()
    }

    pub fn default_entry_up() -> (r: String)
        ensures
            r@ == "up"@,
    {
        "up".to_owned()
    }

    pub fn default_entry_down() -> (r: String)
        ensures
            r@ == "down"@,
    {
        "down".to_owned()
    }

    pub fn default_expand_dir() -> (r: String)
        ensures
            r@ == "right"@,
    {
        "right".to_owned()
    }

    pub fn default_collapse_dir() -> (r: String)
        ensures
            r@ == "left"@,
    {
        "left".to_owned()
    }

    pub fn default_file_action() -> (r: String)
        ensures
            r@ == "return"@,
    {
        "return".to_owned()
    }

    pub fn default_reload() -> (r: String)
        ensures
            r@ == "r"@,
    {
        "r".to_owned()
    }
}

impl Default for Keybinding {
    fn default() -> (r: Keybinding)
        ensures
            r.quit@ == "q"@,
            r.entry_up@ == "up"@,
            r.entry_down@ == "down"@,
            r.expand_dir@ == "right"@,
            r.collapse_dir@ == "left"@,
            r.file_action@ == "return"@,
            r.reload@ == "r"@,
    {
        Keybinding {
            quit: Self::default_quit(),
            entry_up: Self::default_entry_up(),
            entry_down: Self::default_entry_down(),
            expand_dir: Self::default_expand_dir(),
            collapse_dir: Self::default_collapse_dir(),
            file_action: Self::default_file_action(),
            reload: Self::default_reload(),
        }
    }
}

impl Setup {
    pub fn default_working_dir() -> (r: String)
        ensures
            r@ == "."@,
    {
        ".".to_owned()
    }
}

impl Default for Setup {
    fn default() -> (r: Setup)
        ensures
            r.working_dir@ == "."@,
    {
        Setup { working_dir: Self::default_working_dir() }
    }
}

impl Default for Config {
    fn default() -> (r: Config)
        ensures
            r.behavior.file_action@ == "true"@,
            r.behavior.path_node_sort@ == "dirs_top_simple"@,
            r.behavior.scrolling@ == "center"@,
            !r.behavior.quit_on_action,
            r.color.background@ == "000000"@,
            r.color.foreground@ == "FFFFFF"@,
            r.composition.indent == 2,
            !r.composition.show_indent,
            r.composition.use_utf8,
            !r.debug.enabled,
            r.debug.padding_bot == 3,
            r.debug.padding_top == 3,
            r.debug.spacing_bot == 0,
            r.debug.spacing_top == 1,
            r.keybinding.quit@ == "q"@,
            r.keybinding.entry_up@ == "up"@,
            r.keybinding.entry_down@ == "down"@,
            r.keybinding.expand_dir@ == "right"@,
            r.keybinding.collapse_dir@ == "left"@,
            r.keybinding.file_action@ == "return"@,
            r.keybinding.reload@ == "r"@,
            r.setup.working_dir@ == "."@,
    {
        Config {
            behavior: Behavior::default(),
            color: Color::default(),
            composition: Composition::default(),
            debug: Debug::default(),
            keybinding: Keybinding::default(),
            setup: Setup::default(),
        }
    }
}


impl Config {
    /// A copy of this configuration.
    pub fn duplicate(&self) -> (r: Config)
        ensures
            r == *self,
    {
        Config {
            behavior: Behavior {
                file_action: self.behavior.file_action.clone(),
                path_node_sort: self.behavior.path_node_sort.clone(),
                scrolling: self.behavior.scrolling.clone(),
                quit_on_action: self.behavior.quit_on_action,
            },
            color: Color {
                background: self.color.background.clone(),
                foreground: self.color.foreground.clone(),
            },
            composition: Composition {
                indent: self.composition.indent,
                show_indent: self.composition.show_indent,
                use_utf8: self.composition.use_utf8,
            },
            debug: Debug {
                enabled: self.debug.enabled,
                padding_bot: self.debug.padding_bot,
                padding_top: self.debug.padding_top,
                spacing_bot: self.debug.spacing_bot,
                spacing_top: self.debug.spacing_top,
            },
            keybinding: Keybinding {
                quit: self.keybinding.quit.clone(),
                entry_up: self.keybinding.entry_up.clone(),
                entry_down: self.keybinding.entry_down.clone(),
                expand_dir: self.keybinding.expand_dir.clone(),
                collapse_dir: self.keybinding.collapse_dir.clone(),
                file_action: self.keybinding.file_action.clone(),
                reload: self.keybinding.reload.clone(),
            },
            setup: Setup { working_dir: self.setup.working_dir.clone() },
        }
    }
}


} // verus!
