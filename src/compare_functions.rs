use vstd::prelude::*;
use vstd::utf8::encode_utf8;
use crate::path_node::PathNode;
use crate::config::Config;
use std::cmp::Ordering;

verus! {

/// The order among siblings that is applied after each listing.
#[derive(Debug, Clone, Copy, PartialEq, Eq, Structural)]
pub enum PathNodeCompare {
    /// Containers after all other entries, then by name.
    DirsBotSimple,
    /// Containers before all other entries, then by name.
    DirsTopSimple,
    /// All entries equal: the listing order is kept.
    Unsorted,
}

/// Lexicographic order of byte strings, a proper prefix first.
pub open spec fn bytes_cmp(a: Seq<u8>, b: Seq<u8>) -> Ordering
    decreases a.len(),
{
    if a.len() == 0 {
        if b.len() == 0 {
            Ordering::Equal
        } else {
            Ordering::Less
        }
    } else if b.len() == 0 {
        Ordering::Greater
    } else if a[0] < b[0] {
        Ordering::Less
    } else if a[0] > b[0] {
        Ordering::Greater
    } else {
        bytes_cmp(a.drop_first(), b.drop_first())
    }
}

/// The order of two names: that of their UTF-8 encodings.
pub open spec fn name_cmp(a: Seq<char>, b: Seq<char>) -> Ordering {
    bytes_cmp(encode_utf8(a), encode_utf8(b))
}

/// Containers after other entries; otherwise by name.
pub open spec fn dirs_bot_cmp(a: PathNode, b: PathNode) -> Ordering {
    if a.is_dir && !b.is_dir {
        Ordering::Greater
    } else if !a.is_dir && b.is_dir {
        Ordering::Less
    } else {
        name_cmp(a.display_text@, b.display_text@)
    }
}

/// Containers before other entries; otherwise by name.
pub open spec fn dirs_top_cmp(a: PathNode, b: PathNode) -> Ordering {
    if a.is_dir && !b.is_dir {
        Ordering::Less
    } else if !a.is_dir && b.is_dir {
        Ordering::Greater
    } else {
        name_cmp(a.display_text@, b.display_text@)
    }
}

pub open spec fn compare_spec(c: PathNodeCompare, a: PathNode, b: PathNode) -> Ordering {
    match c {
        PathNodeCompare::DirsBotSimple => dirs_bot_cmp(a, b),
        PathNodeCompare::DirsTopSimple => dirs_top_cmp(a, b),
        PathNodeCompare::Unsorted => Ordering::Equal,
    }
}

/// No node of `s` is ordered after a later one.
pub open spec fn sorted_by(c: PathNodeCompare, s: Seq<PathNode>) -> bool {
    forall|i: int, j: int|
        0 <= i < j < s.len() ==> compare_spec(c, #[trigger] s[i], #[trigger] s[j])
            != Ordering::Greater
}

pub proof fn lemma_bytes_cmp_flip(a: Seq<u8>, b: Seq<u8>)
    ensures
        (bytes_cmp(a, b) == Ordering::Greater) == (bytes_cmp(b, a) == Ordering::Less),
        (bytes_cmp(a, b) == Ordering::Less) == (bytes_cmp(b, a) == Ordering::Greater),
    decreases a.len(),
{
    if a.len() > 0 && b.len() > 0 && a[0] == b[0] {
        lemma_bytes_cmp_flip(a.drop_first(), b.drop_first());
    }
}

pub proof fn lemma_bytes_cmp_trans(a: Seq<u8>, b: Seq<u8>, c: Seq<u8>)
    requires
        bytes_cmp(a, b) != Ordering::Greater,
        bytes_cmp(b, c) != Ordering::Greater,
    ensures
        bytes_cmp(a, c) != Ordering::Greater,
    decreases a.len(),
{
    if a.len() > 0 && b.len() > 0 && c.len() > 0 && a[0] == b[0] && b[0] == c[0] {
        lemma_bytes_cmp_trans(a.drop_first(), b.drop_first(), c.drop_first());
    }
}

pub proof fn lemma_compare_flip(c: PathNodeCompare, a: PathNode, b: PathNode)
    ensures
        (compare_spec(c, a, b) == Ordering::Greater) == (compare_spec(c, b, a) == Ordering::Less),
{
    lemma_bytes_cmp_flip(encode_utf8(a.display_text@), encode_utf8(b.display_text@));
}

pub proof fn lemma_compare_trans(c: PathNodeCompare, a: PathNode, b: PathNode, d: PathNode)
    requires
        compare_spec(c, a, b) != Ordering::Greater,
        compare_spec(c, b, d) != Ordering::Greater,
    ensures
        compare_spec(c, a, d) != Ordering::Greater,
{
    if c != PathNodeCompare::Unsorted && a.is_dir == b.is_dir && b.is_dir == d.is_dir {
        lemma_bytes_cmp_trans(
            encode_utf8(a.display_text@),
            encode_utf8(b.display_text@),
            encode_utf8(d.display_text@),
        );
    }
}

/// Compares two names by their bytes, as `str`'s order does.
pub fn compare_names(a: &String, b: &String) -> (r: Ordering)
    ensures
        r == name_cmp(a@, b@),
{
    let x = a.as_str().as_bytes();
    let y = b.as_str().as_bytes();
    let ghost xs = x@;
    let ghost ys = y@;
    assert(xs == encode_utf8(a@));
    assert(ys == encode_utf8(b@));
    let mut i: usize = 0;
    assert(xs.skip(0) =~= xs);
    assert(ys.skip(0) =~= ys);
    while i < x.len() && i < y.len()
        invariant
            xs == x@,
            ys == y@,
            xs == encode_utf8(a@),
            ys == encode_utf8(b@),
            0 <= i <= xs.len(),
            i <= ys.len(),
            bytes_cmp(xs, ys) == bytes_cmp(xs.skip(i as int), ys.skip(i as int)),
        decreases xs.len() - i,
    {
        assert(xs.skip(i as int).len() > 0 && ys.skip(i as int).len() > 0);
        assert(xs.skip(i as int)[0] == x[i as int]);
        assert(ys.skip(i as int)[0] == y[i as int]);
        if x[i] < y[i] {
            return Ordering::Less;
        }
        if x[i] > y[i] {
            return Ordering::Greater;
        }
        assert(xs.skip(i as int).drop_first() =~= xs.skip(i + 1));
        assert(ys.skip(i as int).drop_first() =~= ys.skip(i + 1));
        i += 1;
    }
    assert(i < x.len() ==> xs.skip(i as int).len() > 0);
    assert(i < y.len() ==> ys.skip(i as int).len() > 0);
    if i < x.len() {
        Ordering::Greater
    } else if i < y.len() {
        Ordering::Less
    } else {
        Ordering::Equal
    }
}

impl PathNode {
    /// Orders containers after other entries, then by name.
    pub fn compare_dirs_bot_simple(a: &PathNode, b: &PathNode) -> (r: Ordering)
        ensures
            r == dirs_bot_cmp(*a, *b),
    {
        if a.is_dir && !b.is_dir {
            return Ordering::Greater;
        } else if !a.is_dir && b.is_dir {
            return Ordering::Less;
        }
        compare_names(&a.display_text, &b.display_text)
    }

    /// Orders containers before other entries, then by name.
    pub fn compare_dirs_top_simple(a: &PathNode, b: &PathNode) -> (r: Ordering)
        ensures
            r == dirs_top_cmp(*a, *b),
    {
        if a.is_dir && !b.is_dir {
            return Ordering::Less;
        } else if !a.is_dir && b.is_dir {
            return Ordering::Greater;
        }
        compare_names(&a.display_text, &b.display_text)
    }
}

impl PathNodeCompare {
    /// Compares two siblings under this order.
    pub fn compare(&self, a: &PathNode, b: &PathNode) -> (r: Ordering)
        ensures
            r == compare_spec(*self, *a, *b),
    {
        match self {
            PathNodeCompare::DirsBotSimple => PathNode::compare_dirs_bot_simple(a, b),
            PathNodeCompare::DirsTopSimple => PathNode::compare_dirs_top_simple(a, b),
            PathNodeCompare::Unsorted => Ordering::Equal,
        }
    }
}


/// The sibling order that a configured name selects; an unknown name keeps
/// the listing order.
pub open spec fn compare_named(name: Seq<char>) -> PathNodeCompare {
    if name == "dirs_bot_simple"@ {
        PathNodeCompare::DirsBotSimple
    } else if name == "dirs_top_simple"@ {
        PathNodeCompare::DirsTopSimple
    } else {
        PathNodeCompare::Unsorted
    }
}

impl PathNode {
    /// The sibling order that the configuration names.
    pub fn get_path_node_compare(config: &Config) -> (r: PathNodeCompare)
        ensures
            r == compare_named(config.behavior.path_node_sort@),
    {
        let name = &config.behavior.path_node_sort;
        if *name == "dirs_bot_simple".to_owned() {
            PathNodeCompare::DirsBotSimple
        } else if *name == "dirs_top_simple".to_owned() {
            PathNodeCompare::DirsTopSimple
        } else {
            PathNodeCompare::Unsorted
        }
    }
}

} // verus!
