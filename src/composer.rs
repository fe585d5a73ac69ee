use vstd::prelude::*;
use vstd::string::StringExecFns;
use crate::config::{Composition, Config};
use crate::path_node::{child_rows, lemma_child_rows_len, rows, PathNode};
use crate::text::{chars_of, push_char, push_repeated, repeat, string_of_prefix};

verus! {

/// Turns the tree into display lines, one per visible row.
#[derive(Debug)]
pub struct Composer {
    pub config: Config,
}

/// `s` cut to `n` characters: past `n`, its first `n - 1` characters and a
/// tilde.
pub open spec fn truncated(s: Seq<char>, n: nat) -> Seq<char> {
    if n == 0 {
        Seq::empty()
    } else if n >= s.len() {
        s
    } else {
        s.subrange(0, n - 1) + seq!['~']
    }
}

pub open spec fn indent_char(c: Composition) -> char {
    if !c.show_indent {
        ' '
    } else if c.use_utf8 {
        '·'
    } else {
        '-'
    }
}

/// The indentation of a line at `depth`: per level, the indent character and
/// `indent - 1` spaces.
pub open spec fn indent_text(c: Composition, depth: nat) -> Seq<char> {
    repeat(seq![indent_char(c)] + repeat(seq![' '], (c.indent - 1) as nat), depth)
}

/// The marker of a container (unreadable, expanded or collapsed) and a
/// space; two spaces for other entries.
pub open spec fn dir_prefix(c: Composition, n: PathNode) -> Seq<char> {
    if n.is_dir {
        let m = if n.is_err {
            if c.use_utf8 {
                '⨯'
            } else {
                'x'
            }
        } else if n.is_expanded {
            if c.use_utf8 {
                '▼'
            } else {
                'v'
            }
        } else {
            if c.use_utf8 {
                '▶'
            } else {
                '>'
            }
        };
        seq![m, ' ']
    } else {
        seq![' ', ' ']
    }
}

pub open spec fn dir_suffix(n: PathNode) -> Seq<char> {
    if n.is_dir {
        seq!['/']
    } else {
        Seq::empty()
    }
}

pub open spec fn line_of(c: Composition, n: PathNode, depth: nat) -> Seq<char> {
    indent_text(c, depth) + dir_prefix(c, n) + n.display_text@ + dir_suffix(n)
}

/// The display lines of the rows below `n`, whose children stand at `depth`.
pub open spec fn lines(c: Composition, n: PathNode, depth: nat) -> Seq<Seq<char>>
    decreases n,
{
    child_lines(c, n.children@, depth)
}

pub open spec fn child_lines(c: Composition, cs: Seq<PathNode>, depth: nat) -> Seq<Seq<char>>
    decreases cs,
{
    if cs.len() == 0 {
        Seq::empty()
    } else {
        let k = cs.len() - 1;
        child_lines(c, cs.subrange(0, k), depth) + seq![line_of(c, cs[k], depth)] + lines(
            c,
            cs[k],
            depth + 1,
        )
    }
}

pub open spec fn views(v: Seq<String>) -> Seq<Seq<char>> {
    v.map_values(|s: String| s@)
}

/// There is one display line for each visible row.
pub proof fn lemma_lines_len(c: Composition, n: PathNode, depth: nat)
    ensures
        lines(c, n, depth).len() == rows(n).len(),
    decreases n,
{
    lemma_child_lines_len(c, n.children@, depth);
}

pub proof fn lemma_child_lines_len(c: Composition, cs: Seq<PathNode>, depth: nat)
    ensures
        child_lines(c, cs, depth).len() == child_rows(cs).len(),
    decreases cs,
{
    if cs.len() > 0 {
        let k = cs.len() - 1;
        lemma_child_lines_len(c, cs.subrange(0, k), depth);
        lemma_lines_len(c, cs[k], depth + 1);
    }
}

impl From<Config> for Composer {
    fn from(config: Config) -> (r: Composer)
        ensures
            r.config == config,
    {
        Composer { config }
    }
}

impl vstd::std_specs::convert::FromSpecImpl<Config> for Composer {
    open spec fn obeys_from_spec() -> bool {
        true
    }

    open spec fn from_spec(config: Config) -> Composer {
        Composer { config }
    }
}

impl Composer {
    pub fn new(config: Config) -> (r: Composer)
        ensures
            r.config == config,
    {
        Composer { config }
    }

    /// Cuts `string` to `desired_char_count` characters, marking a cut by a
    /// tilde in place of the last one kept.
    pub fn truncate_string(string: &str, desired_char_count: usize) -> (r: String)
        ensures
            r@ == truncated(string@, desired_char_count as nat),
    {
        if desired_char_count < 1 {
            return String::new();
        }
        let cs = chars_of(string);
        if desired_char_count >= cs.len() {
            return string.to_owned();
        }
        let mut r = string_of_prefix(&cs, desired_char_count - 1);
        push_char(&mut r, '~');
        r
    }

    /// The indentation for a line at `depth`.
    pub fn get_indent(&self, depth: usize) -> (r: String)
        requires
            self.config.composition.indent >= 1,
        ensures
            r@ == indent_text(self.config.composition, depth as nat),
    {
        let c = &self.config.composition;
        let ch = if !c.show_indent {
            ' '
        } else if c.use_utf8 {
            '·'
        } else {
            '-'
        };
        let mut unit = String::new();
        push_char(&mut unit, ch);
        push_repeated(&mut unit, " ", (c.indent - 1) as usize);
        proof {
            reveal_strlit(" ");
            assert(" "@ =~= seq![' ']);
            assert(unit@ =~= seq![ch] + repeat(seq![' '], (c.indent - 1) as nat));
        }
        let mut r = String::new();
        push_repeated(&mut r, unit.as_str(), depth);
        assert(r@ =~= indent_text(self.config.composition, depth as nat));
        r
    }

    pub fn get_dir_prefix(&self, path_node: &PathNode) -> (r: String)
        ensures
            r@ == dir_prefix(self.config.composition, *path_node),
    {
        let utf8 = self.config.composition.use_utf8;
        let mut r = String::new();
        if path_node.is_dir {
            let m = if path_node.is_err {
                if utf8 {
                    '⨯'
                } else {
                    'x'
                }
            } else if path_node.is_expanded {
                if utf8 {
                    '▼'
                } else {
                    'v'
                }
            } else {
                if utf8 {
                    '▶'
                } else {
                    '>'
                }
            };
            push_char(&mut r, m);
            push_char(&mut r, ' ');
        } else {
            push_char(&mut r, ' ');
            push_char(&mut r, ' ');
        }
        assert(r@ =~= dir_prefix(self.config.composition, *path_node));
        r
    }

    pub fn get_dir_suffix(&self, path_node: &PathNode) -> (r: String)
        ensures
            r@ == dir_suffix(*path_node),
    {
        let mut r = String::new();
        if path_node.is_dir {
            push_char(&mut r, '/');
        }
        assert(r@ =~= dir_suffix(*path_node));
        r
    }

    /// Appends to `texts` the display lines of the rows below `path_node`,
    /// whose children stand at `depth`.
    pub fn compose_path_node_recursive(
        &self,
        path_node: &PathNode,
        texts: &mut Vec<String>,
        depth: usize,
    )
        requires
            self.config.composition.indent >= 1,
            depth + rows(*path_node).len() <= usize::MAX,
        ensures
            views(final(texts)@) == views(old(texts)@) + lines(
                self.config.composition,
                *path_node,
                depth as nat,
            ),
        decreases path_node,
    {
        let ghost c = self.config.composition;
        let ghost cs = path_node.children@;
        let n = path_node.children.len();
        let mut i: usize = 0;
        assert(views(old(texts)@) + child_lines(c, cs.subrange(0, 0), depth as nat) =~= views(
            old(texts)@,
        ));
        while i < n
            invariant
                n == path_node.children@.len(),
                cs == path_node.children@,
                c == self.config.composition,
                self.config.composition.indent >= 1,
                depth + rows(*path_node).len() <= usize::MAX,
                0 <= i <= n,
                views(texts@) == views(old(texts)@) + child_lines(
                    c,
                    cs.subrange(0, i as int),
                    depth as nat,
                ),
            decreases n - i,
        {
            let child = &path_node.children[i];
            proof {
                lemma_child_rows_len(cs, i as int);
            }
            let mut text = self.get_indent(depth);
            let prefix = self.get_dir_prefix(child);
            let suffix = self.get_dir_suffix(child);
            text.append(prefix.as_str());
            text.append(child.display_text.as_str());
            text.append(suffix.as_str());
            let ghost before = texts@;
            texts.push(text);
            assert(views(texts@) =~= views(before).push(line_of(c, cs[i as int], depth as nat)));
            self.compose_path_node_recursive(child, texts, depth + 1);
            proof {
                let s = cs.subrange(0, i + 1);
                assert(s.subrange(0, i as int) =~= cs.subrange(0, i as int));
                assert(s[i as int] == cs[i as int]);
            }
            i += 1;
            assert(views(texts@) =~= views(old(texts)@) + child_lines(
                c,
                cs.subrange(0, i as int),
                depth as nat,
            ));
        }
        assert(cs.subrange(0, n as int) =~= cs);
    }

    /// The display lines of all visible rows, in row order.
    pub fn compose_path_node(&self, path_node: &PathNode) -> (r: Vec<String>)
        requires
            self.config.composition.indent >= 1,
            rows(*path_node).len() <= usize::MAX,
        ensures
            views(r@) == lines(self.config.composition, *path_node, 0),
            r@.len() == rows(*path_node).len(),
    {
        let mut result: Vec<String> = Vec::new();
        assert(views(result@) =~= Seq::<Seq<char>>::empty());
        self.compose_path_node_recursive(path_node, &mut result, 0);
        assert(views(result@) =~= lines(self.config.composition, *path_node, 0));
        proof {
            lemma_lines_len(self.config.composition, *path_node, 0);
        }
        result
    }
}

} // verus!
