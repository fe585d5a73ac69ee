use vstd::prelude::*;
use vstd::std_specs::iter::IteratorSpec;
use vstd::string::StringExecFns;

verus! {

broadcast use vstd::string::axiom_spec_iter, vstd::string::next_postcondition;

/// Relies on `String::push`: the character is appended.
#[verifier::external_body]
pub(crate) fn push_char(s: &mut String, c: char)
    ensures
        final(s)@ == old(s)@.push(c),
{
    s.push(c)
}

/// The characters of `s`, in order.
pub fn chars_of(s: &str) -> (r: Vec<char>)
    ensures
        r@ == s@,
{
    let mut it = s.chars();
    let ghost all = s@;
    let mut out: Vec<char> = Vec::new();
    loop
        invariant
            it.obeys_prophetic_iter_laws(),
            out@ + it.remaining() == all,
        ensures
            out@ == all,
        decreases all.len() - out@.len(),
    {
        match it.next() {
            Some(c) => {
                out.push(c);
            },
            None => {
                assert(it.remaining().len() == 0);
                assert(out@ =~= all);
                break ;
            },
        }
    }
    out
}


/// `k` copies of `s`, one after another.
pub open spec fn repeat(s: Seq<char>, k: nat) -> Seq<char>
    decreases k,
{
    if k == 0 {
        Seq::empty()
    } else {
        repeat(s, (k - 1) as nat) + s
    }
}

/// Appends `k` copies of `s` to `out`.
pub fn push_repeated(out: &mut String, s: &str, k: usize)
    ensures
        final(out)@ == old(out)@ + repeat(s@, k as nat),
{
    let mut i: usize = 0;
    assert(old(out)@ + repeat(s@, 0) =~= old(out)@);
    while i < k
        invariant
            0 <= i <= k,
            out@ == old(out)@ + repeat(s@, i as nat),
        decreases k - i,
    {
        out.append(s);
        i += 1;
        assert(old(out)@ + repeat(s@, i as nat) =~= old(out)@ + repeat(s@, (i - 1) as nat) + s@);
    }
}

/// A string of the characters `cs[0..n]`.
pub fn string_of_prefix(cs: &Vec<char>, n: usize) -> (r: String)
    requires
        n <= cs@.len(),
    ensures
        r@ == cs@.subrange(0, n as int),
{
    let mut out = String::new();
    let mut i: usize = 0;
    while i < n
        invariant
            n <= cs@.len(),
            0 <= i <= n,
            out@ == cs@.subrange(0, i as int),
        decreases n - i,
    {
        push_char(&mut out, cs[i]);
        i += 1;
        assert(out@ =~= cs@.subrange(0, i as int));
    }
    out
}


/// `s` with each `%s`, taken from left to right, replaced by `with`.
pub open spec fn replace_marker(s: Seq<char>, with: Seq<char>) -> Seq<char>
    decreases s.len(),
{
    if s.len() == 0 {
        s
    } else if s.len() >= 2 && s[0] == '%' && s[1] == 's' {
        with + replace_marker(s.skip(2), with)
    } else {
        seq![s[0]] + replace_marker(s.skip(1), with)
    }
}

/// Replaces each `%s` of `template`, from left to right, by `with`.
pub fn replace_marker_in(template: &str, with: &str) -> (r: String)
    ensures
        r@ == replace_marker(template@, with@),
{
    let cs = chars_of(template);
    let n = cs.len();
    let mut out = String::new();
    let mut i: usize = 0;
    assert(cs@.skip(0) =~= cs@);
    while i < n
        invariant
            n == cs@.len(),
            cs@ == template@,
            0 <= i <= n,
            out@ + replace_marker(cs@.skip(i as int), with@) == replace_marker(template@, with@),
        decreases n - i,
    {
        let ghost rest = cs@.skip(i as int);
        if i + 1 < n && cs[i] == '%' && cs[i + 1] == 's' {
            assert(rest.skip(2) =~= cs@.skip(i + 2));
            out.append(with);
            i += 2;
        } else {
            assert(rest.skip(1) =~= cs@.skip(i + 1));
            push_char(&mut out, cs[i]);
            i += 1;
        }
    }
    assert(cs@.skip(n as int) =~= Seq::<char>::empty());
    assert(out@ + Seq::<char>::empty() =~= out@);
    out
}


/// A string of the characters `cs[a..b]`.
pub fn string_of_range(cs: &Vec<char>, a: usize, b: usize) -> (r: String)
    requires
        a <= b <= cs@.len(),
    ensures
        r@ == cs@.subrange(a as int, b as int),
{
    let mut out = String::new();
    let mut i: usize = a;
    assert(out@ =~= cs@.subrange(a as int, a as int));
    while i < b
        invariant
            a <= i <= b,
            b <= cs@.len(),
            out@ == cs@.subrange(a as int, i as int),
        decreases b - i,
    {
        push_char(&mut out, cs[i]);
        i += 1;
        assert(out@ =~= cs@.subrange(a as int, i as int));
    }
    out
}

} // verus!
