use vstd::prelude::*;
use crate::config::Config;
use crate::text::{chars_of, string_of_range};

verus! {

pub open spec fn is_digit(c: char) -> bool {
    '0' <= c <= '9'
}

/// The number that the decimal digits `s` write.
pub open spec fn decimal_value(s: Seq<char>) -> int
    decreases s.len(),
{
    if s.len() == 0 {
        0
    } else {
        decimal_value(s.drop_last()) * 10 + (s.last() as int - '0' as int)
    }
}

/// The digits of `s` after an optional sign.
pub open spec fn unsigned_part(s: Seq<char>) -> Seq<char> {
    if s.len() > 0 && (s[0] == '-' || s[0] == '+') {
        s.skip(1)
    } else {
        s
    }
}

/// `s` read as a decimal `i32`, with an optional sign, as `str::parse`
/// reads it: `None` when a digit is missing or wrong, or the number does
/// not fit.
pub open spec fn parse_i32_spec(s: Seq<char>) -> Option<i32> {
    let body = unsigned_part(s);
    let v = if s.len() > 0 && s[0] == '-' {
        -decimal_value(body)
    } else {
        decimal_value(body)
    };
    if body.len() == 0 || !(forall|i: int| 0 <= i < body.len() ==> is_digit(#[trigger] body[i])) {
        None
    } else if i32::MIN <= v <= i32::MAX {
        Some(v as i32)
    } else {
        None
    }
}

/// `s` read as a `bool`: exactly `true` or `false`.
pub open spec fn parse_bool_spec(s: Seq<char>) -> Option<bool> {
    if s == "true"@ {
        Some(true)
    } else if s == "false"@ {
        Some(false)
    } else {
        None
    }
}

proof fn lemma_decimal_value_prefix(s: Seq<char>, j: int)
    requires
        0 <= j <= s.len(),
        forall|i: int| 0 <= i < s.len() ==> is_digit(#[trigger] s[i]),
    ensures
        0 <= decimal_value(s.subrange(0, j)) <= decimal_value(s),
    decreases s.len() - j,
{
    if j < s.len() {
        lemma_decimal_value_prefix(s, j + 1);
        assert(s.subrange(0, j + 1).drop_last() =~= s.subrange(0, j));
        assert(s.subrange(0, j + 1).last() == s[j]);
    } else {
        assert(s.subrange(0, j) =~= s);
    }
    lemma_decimal_value_nonneg(s.subrange(0, j));
}

proof fn lemma_decimal_value_nonneg(s: Seq<char>)
    requires
        forall|i: int| 0 <= i < s.len() ==> is_digit(#[trigger] s[i]),
    ensures
        decimal_value(s) >= 0,
    decreases s.len(),
{
    if s.len() > 0 {
        assert forall|i: int| 0 <= i < s.drop_last().len() implies is_digit(
            #[trigger] s.drop_last()[i],
        ) by {
            assert(s.drop_last()[i] == s[i]);
        }
        lemma_decimal_value_nonneg(s.drop_last());
    }
}

/// Reads `s` as `str::parse::<i32>` does.
pub fn parse_i32(s: &str) -> (r: Option<i32>)
    ensures
        r == parse_i32_spec(s@),
{
    let cs = chars_of(s);
    let n = cs.len();
    let negative = n > 0 && cs[0] == '-';
    let start: usize = if n > 0 && (cs[0] == '-' || cs[0] == '+') {
        1
    } else {
        0
    };
    let ghost body = unsigned_part(s@);
    assert(body =~= cs@.subrange(start as int, n as int));
    if start == n {
        return None;
    }
    let mut value: i64 = 0;
    let mut i: usize = start;
    while i < n
        invariant
            cs@ == s@,
            n == cs@.len(),
            start <= i <= n,
            body == cs@.subrange(start as int, n as int),
            body == unsigned_part(s@),
            negative == (s@.len() > 0 && s@[0] == '-'),
            forall|j: int| start <= j < i ==> is_digit(#[trigger] cs@[j]),
            value == decimal_value(cs@.subrange(start as int, i as int)),
            0 <= value <= 0x8000_0000,
        decreases n - i,
    {
        let c = cs[i];
        assert(body[i - start] == cs@[i as int]);
        if !('0' <= c && c <= '9') {
            assert(!is_digit(body[i - start]));
            return None;
        }
        let d = (c as u32 - '0' as u32) as i64;
        let next = value * 10 + d;
        assert(cs@.subrange(start as int, i + 1).drop_last() =~= cs@.subrange(start as int, i as int));
        assert(cs@.subrange(start as int, i + 1).last() == c);
        assert(next == decimal_value(cs@.subrange(start as int, i + 1)));
        if next > 0x8000_0000 {
            // a longer run of digits only grows; the rest decides between
            // a wrong digit and a number too large, and both give `None`
            let mut k: usize = i + 1;
            while k < n
                invariant
                    cs@ == s@,
                    n == cs@.len(),
                    i < k <= n,
                    start <= i,
                    body == cs@.subrange(start as int, n as int),
                    body == unsigned_part(s@),
                    forall|j: int| start <= j < k ==> is_digit(#[trigger] cs@[j]),
                decreases n - k,
            {
                assert(body[k - start] == cs@[k as int]);
                if !('0' <= cs[k] && cs[k] <= '9') {
                    assert(!is_digit(body[k - start]));
                    return None;
                }
                k += 1;
            }
            proof {
                assert forall|j: int| 0 <= j < body.len() implies is_digit(#[trigger] body[j]) by {
                    assert(body[j] == cs@[j + start]);
                }
                lemma_decimal_value_prefix(body, (i + 1 - start) as int);
                assert(body.subrange(0, (i + 1 - start) as int) =~= cs@.subrange(
                    start as int,
                    i + 1,
                ));
            }
            return None;
        }
        value = next;
        i += 1;
    }
    assert(cs@.subrange(start as int, n as int) =~= body);
    if negative {
        Some((-value) as i32)
    } else if value > 0x7fff_ffff {
        None
    } else {
        Some(value as i32)
    }
}

/// Reads `s` as `str::parse::<bool>` does.
pub fn parse_bool(s: &str) -> (r: Option<bool>)
    ensures
        r == parse_bool_spec(s@),
{
    let owned = s.to_owned();
    if owned == "true".to_owned() {
        Some(true)
    } else if owned == "false".to_owned() {
        Some(false)
    } else {
        None
    }
}


/// Why a command line was not taken.
#[derive(Debug)]
pub enum ArgsError {
    /// `--help` or `--version` was given.
    Help,
    /// The value of an option could not be read.
    Unparsable { key: String, value: String },
}

/// The name and the value of an option: the parts around its first `=`;
/// without `=`, the whole option and an empty value.
pub open spec fn split_equals(s: Seq<char>) -> (Seq<char>, Seq<char>)
    decreases s.len(),
{
    if s.len() == 0 {
        (Seq::empty(), Seq::empty())
    } else if s[0] == '=' {
        (Seq::empty(), s.skip(1))
    } else {
        (seq![s[0]] + split_equals(s.skip(1)).0, split_equals(s.skip(1)).1)
    }
}

pub open spec fn arg_key(a: Seq<char>) -> Seq<char> {
    split_equals(a).0
}

pub open spec fn arg_value(a: Seq<char>) -> Seq<char> {
    split_equals(a).1
}

/// The number of the setting that an option names: the options in the
/// order of the settings in `Config`.
pub open spec fn option_number(key: Seq<char>) -> Option<int> {
    if key == "--behavior.file_action"@ {
        Some(0)
    } else if key == "--behavior.path_node_sort"@ {
        Some(1)
    } else if key == "--behavior.scrolling"@ {
        Some(2)
    } else if key == "--color.background"@ {
        Some(3)
    } else if key == "--color.foreground"@ {
        Some(4)
    } else if key == "--composition.indent"@ {
        Some(5)
    } else if key == "--composition.show_indent"@ {
        Some(6)
    } else if key == "--composition.use_utf8"@ {
        Some(7)
    } else if key == "--debug.enabled"@ {
        Some(8)
    } else if key == "--debug.padding_bot"@ {
        Some(9)
    } else if key == "--debug.padding_top"@ {
        Some(10)
    } else if key == "--debug.spacing_bot"@ {
        Some(11)
    } else if key == "--debug.spacing_top"@ {
        Some(12)
    } else if key == "--keybinding.collapse_dir"@ {
        Some(13)
    } else if key == "--keybinding.entry_down"@ {
        Some(14)
    } else if key == "--keybinding.entry_up"@ {
        Some(15)
    } else if key == "--keybinding.expand_dir"@ {
        Some(16)
    } else if key == "--keybinding.file_action"@ {
        Some(17)
    } else if key == "--keybinding.quit"@ {
        Some(18)
    } else if key == "--keybinding.reload"@ {
        Some(19)
    } else if key == "--setup.working_dir"@ {
        Some(20)
    } else {
        None
    }
}

/// Settings 5 and 9 to 12 are numbers, 6 to 8 are flags, the others text.
pub open spec fn is_number_option(j: int) -> bool {
    j == 5 || 9 <= j <= 12
}

pub open spec fn is_flag_option(j: int) -> bool {
    6 <= j <= 8
}

/// `v` can be read as a value of setting `j`.
pub open spec fn value_ok(j: int, v: Seq<char>) -> bool {
    if is_number_option(j) {
        parse_i32_spec(v) is Some
    } else if is_flag_option(j) {
        parse_bool_spec(v) is Some
    } else {
        true
    }
}

pub open spec fn is_help(key: Seq<char>) -> bool {
    key == "--help"@ || key == "--version"@
}

/// An option that ends the reading with an error: a request for help, or
/// a setting whose value cannot be read.
pub open spec fn arg_fails(a: Seq<char>) -> bool {
    arg_key(a) != "--"@ && (is_help(arg_key(a)) || (option_number(arg_key(a)) is Some
        && !value_ok(option_number(arg_key(a))->0, arg_value(a))))
}

/// An option that ends the reading: `--`, or one that fails.
pub open spec fn arg_ends(a: Seq<char>) -> bool {
    arg_key(a) == "--"@ || arg_fails(a)
}

/// The position of the first option from `i` on that ends the reading, or
/// the number of options.
pub open spec fn end_of_options(args: Seq<Seq<char>>, i: int) -> int
    decreases args.len() - i,
{
    if i >= args.len() {
        args.len() as int
    } else if i >= 0 && arg_ends(args[i]) {
        i
    } else {
        end_of_options(args, i + 1)
    }
}

/// The value of the last of `args[0..n]` that names setting `j`.
pub open spec fn last_option(args: Seq<Seq<char>>, n: int, j: int) -> Option<Seq<char>>
    decreases n,
{
    if n <= 0 {
        None
    } else if option_number(arg_key(args[n - 1])) == Some(j) {
        Some(arg_value(args[n - 1]))
    } else {
        last_option(args, n - 1, j)
    }
}

pub open spec fn text_setting(orig: Seq<char>, v: Option<Seq<char>>) -> Seq<char> {
    match v {
        Some(t) => t,
        None => orig,
    }
}

pub open spec fn number_setting(orig: i32, v: Option<Seq<char>>) -> i32 {
    match v {
        Some(t) => parse_i32_spec(t)->0,
        None => orig,
    }
}

pub open spec fn flag_setting(orig: bool, v: Option<Seq<char>>) -> bool {
    match v {
        Some(t) => parse_bool_spec(t)->0,
        None => orig,
    }
}

/// `c` is `orig` with the settings that `args[0..n]` give.
pub open spec fn options_applied(orig: Config, c: Config, args: Seq<Seq<char>>, n: int) -> bool {
    &&& c.behavior.quit_on_action == orig.behavior.quit_on_action
    &&& c.behavior.file_action@ == text_setting(orig.behavior.file_action@, last_option(args, n, 0))
    &&& c.behavior.path_node_sort@ == text_setting(orig.behavior.path_node_sort@, last_option(args, n, 1))
    &&& c.behavior.scrolling@ == text_setting(orig.behavior.scrolling@, last_option(args, n, 2))
    &&& c.color.background@ == text_setting(orig.color.background@, last_option(args, n, 3))
    &&& c.color.foreground@ == text_setting(orig.color.foreground@, last_option(args, n, 4))
    &&& c.composition.indent == number_setting(orig.composition.indent, last_option(args, n, 5))
    &&& c.composition.show_indent == flag_setting(orig.composition.show_indent, last_option(args, n, 6))
    &&& c.composition.use_utf8 == flag_setting(orig.composition.use_utf8, last_option(args, n, 7))
    &&& c.debug.enabled == flag_setting(orig.debug.enabled, last_option(args, n, 8))
    &&& c.debug.padding_bot == number_setting(orig.debug.padding_bot, last_option(args, n, 9))
    &&& c.debug.padding_top == number_setting(orig.debug.padding_top, last_option(args, n, 10))
    &&& c.debug.spacing_bot == number_setting(orig.debug.spacing_bot, last_option(args, n, 11))
    &&& c.debug.spacing_top == number_setting(orig.debug.spacing_top, last_option(args, n, 12))
    &&& c.keybinding.collapse_dir@ == text_setting(orig.keybinding.collapse_dir@, last_option(args, n, 13))
    &&& c.keybinding.entry_down@ == text_setting(orig.keybinding.entry_down@, last_option(args, n, 14))
    &&& c.keybinding.entry_up@ == text_setting(orig.keybinding.entry_up@, last_option(args, n, 15))
    &&& c.keybinding.expand_dir@ == text_setting(orig.keybinding.expand_dir@, last_option(args, n, 16))
    &&& c.keybinding.file_action@ == text_setting(orig.keybinding.file_action@, last_option(args, n, 17))
    &&& c.keybinding.quit@ == text_setting(orig.keybinding.quit@, last_option(args, n, 18))
    &&& c.keybinding.reload@ == text_setting(orig.keybinding.reload@, last_option(args, n, 19))
    &&& c.setup.working_dir@ == text_setting(orig.setup.working_dir@, last_option(args, n, 20))
}

/// `b` is `a` with setting `j` read from `v`.
pub open spec fn option_set(a: Config, b: Config, j: int, v: Seq<char>) -> bool {
    &&& b.behavior.quit_on_action == a.behavior.quit_on_action
    &&& b.behavior.file_action@ == if j == 0 { v } else { a.behavior.file_action@ }
    &&& b.behavior.path_node_sort@ == if j == 1 { v } else { a.behavior.path_node_sort@ }
    &&& b.behavior.scrolling@ == if j == 2 { v } else { a.behavior.scrolling@ }
    &&& b.color.background@ == if j == 3 { v } else { a.color.background@ }
    &&& b.color.foreground@ == if j == 4 { v } else { a.color.foreground@ }
    &&& b.composition.indent == if j == 5 { parse_i32_spec(v)->0 } else { a.composition.indent }
    &&& b.composition.show_indent == if j == 6 { parse_bool_spec(v)->0 } else { a.composition.show_indent }
    &&& b.composition.use_utf8 == if j == 7 { parse_bool_spec(v)->0 } else { a.composition.use_utf8 }
    &&& b.debug.enabled == if j == 8 { parse_bool_spec(v)->0 } else { a.debug.enabled }
    &&& b.debug.padding_bot == if j == 9 { parse_i32_spec(v)->0 } else { a.debug.padding_bot }
    &&& b.debug.padding_top == if j == 10 { parse_i32_spec(v)->0 } else { a.debug.padding_top }
    &&& b.debug.spacing_bot == if j == 11 { parse_i32_spec(v)->0 } else { a.debug.spacing_bot }
    &&& b.debug.spacing_top == if j == 12 { parse_i32_spec(v)->0 } else { a.debug.spacing_top }
    &&& b.keybinding.collapse_dir@ == if j == 13 { v } else { a.keybinding.collapse_dir@ }
    &&& b.keybinding.entry_down@ == if j == 14 { v } else { a.keybinding.entry_down@ }
    &&& b.keybinding.entry_up@ == if j == 15 { v } else { a.keybinding.entry_up@ }
    &&& b.keybinding.expand_dir@ == if j == 16 { v } else { a.keybinding.expand_dir@ }
    &&& b.keybinding.file_action@ == if j == 17 { v } else { a.keybinding.file_action@ }
    &&& b.keybinding.quit@ == if j == 18 { v } else { a.keybinding.quit@ }
    &&& b.keybinding.reload@ == if j == 19 { v } else { a.keybinding.reload@ }
    &&& b.setup.working_dir@ == if j == 20 { v } else { a.setup.working_dir@ }
}

fn is(s: &String, name: &str) -> (r: bool)
    ensures
        r == (s@ == name@),
{
    *s == name.to_owned()
}

/// The number of the setting that `key` names.
pub fn option_number_of(key: &String) -> (r: Option<usize>)
    ensures
        r is Some <==> option_number(key@) is Some,
        r is Some ==> r->0 == option_number(key@)->0,
{
    if is(key, "--behavior.file_action") {
        Some(0)
    } else if is(key, "--behavior.path_node_sort") {
        Some(1)
    } else if is(key, "--behavior.scrolling") {
        Some(2)
    } else if is(key, "--color.background") {
        Some(3)
    } else if is(key, "--color.foreground") {
        Some(4)
    } else if is(key, "--composition.indent") {
        Some(5)
    } else if is(key, "--composition.show_indent") {
        Some(6)
    } else if is(key, "--composition.use_utf8") {
        Some(7)
    } else if is(key, "--debug.enabled") {
        Some(8)
    } else if is(key, "--debug.padding_bot") {
        Some(9)
    } else if is(key, "--debug.padding_top") {
        Some(10)
    } else if is(key, "--debug.spacing_bot") {
        Some(11)
    } else if is(key, "--debug.spacing_top") {
        Some(12)
    } else if is(key, "--keybinding.collapse_dir") {
        Some(13)
    } else if is(key, "--keybinding.entry_down") {
        Some(14)
    } else if is(key, "--keybinding.entry_up") {
        Some(15)
    } else if is(key, "--keybinding.expand_dir") {
        Some(16)
    } else if is(key, "--keybinding.file_action") {
        Some(17)
    } else if is(key, "--keybinding.quit") {
        Some(18)
    } else if is(key, "--keybinding.reload") {
        Some(19)
    } else if is(key, "--setup.working_dir") {
        Some(20)
    } else {
        None
    }
}

/// Sets setting `j` of `config` from `value`; `false`, changing nothing,
/// when the value cannot be read.
pub fn apply_option(config: &mut Config, j: usize, value: String) -> (r: bool)
    requires
        j < 21,
    ensures
        r == value_ok(j as int, value@),
        r ==> option_set(*old(config), *final(config), j as int, value@),
        !r ==> *final(config) == *old(config),
{
    if j == 5 || (9 <= j && j <= 12) {
        let n = match parse_i32(value.as_str()) {
            Some(n) => n,
            None => return false,
        };
        if j == 5 {
            config.composition.indent = n;
        }
        if j == 9 {
            config.debug.padding_bot = n;
        }
        if j == 10 {
            config.debug.padding_top = n;
        }
        if j == 11 {
            config.debug.spacing_bot = n;
        }
        if j == 12 {
            config.debug.spacing_top = n;
        }
        return true;
    }
    if 6 <= j && j <= 8 {
        let b = match parse_bool(value.as_str()) {
            Some(b) => b,
            None => return false,
        };
        if j == 6 {
            config.composition.show_indent = b;
        }
        if j == 7 {
            config.composition.use_utf8 = b;
        }
        if j == 8 {
            config.debug.enabled = b;
        }
        return true;
    }
    if j == 0 {
        config.behavior.file_action = value;
    } else if j == 1 {
        config.behavior.path_node_sort = value;
    } else if j == 2 {
        config.behavior.scrolling = value;
    } else if j == 3 {
        config.color.background = value;
    } else if j == 4 {
        config.color.foreground = value;
    } else if j == 13 {
        config.keybinding.collapse_dir = value;
    } else if j == 14 {
        config.keybinding.entry_down = value;
    } else if j == 15 {
        config.keybinding.entry_up = value;
    } else if j == 16 {
        config.keybinding.expand_dir = value;
    } else if j == 17 {
        config.keybinding.file_action = value;
    } else if j == 18 {
        config.keybinding.quit = value;
    } else if j == 19 {
        config.keybinding.reload = value;
    } else if j == 20 {
        config.setup.working_dir = value;
    }
    true
}

proof fn lemma_last_option_step(a: Seq<Seq<char>>, i: int, k: int)
    requires
        0 <= i < a.len(),
    ensures
        last_option(a, i + 1, k) == if option_number(arg_key(a[i])) == Some(k) {
            Some(arg_value(a[i]))
        } else {
            last_option(a, i, k)
        },
{
}

/// Reading one more option that names setting `j` sets that setting.
#[verifier::rlimit(60)]
proof fn lemma_options_applied_step(
    orig: Config,
    before: Config,
    after: Config,
    a: Seq<Seq<char>>,
    i: int,
    j: int,
)
    requires
        0 <= i < a.len(),
        options_applied(orig, before, a, i),
        option_number(arg_key(a[i])) == Some(j),
        option_set(before, after, j, arg_value(a[i])),
    ensures
        options_applied(orig, after, a, i + 1),
{
    assert forall|k: int| 0 <= k < 21 implies last_option(a, i + 1, k) == if k == j {
        Some(arg_value(a[i]))
    } else {
        last_option(a, i, k)
    } by {
        lemma_last_option_step(a, i, k);
    }
}

/// Reading an option that names no setting changes nothing.
#[verifier::rlimit(60)]
proof fn lemma_options_applied_skip(orig: Config, c: Config, a: Seq<Seq<char>>, i: int)
    requires
        0 <= i < a.len(),
        options_applied(orig, c, a, i),
        option_number(arg_key(a[i])) is None,
    ensures
        options_applied(orig, c, a, i + 1),
{
    assert forall|k: int| 0 <= k < 21 implies last_option(a, i + 1, k) == last_option(a, i, k) by {
        lemma_last_option_step(a, i, k);
    }
}

pub open spec fn arg_views(args: Seq<String>) -> Seq<Seq<char>> {
    args.map_values(|a: String| a@)
}

proof fn lemma_split_equals_at(s: Seq<char>, i: int)
    requires
        0 <= i < s.len(),
        s[i] == '=',
        forall|j: int| 0 <= j < i ==> s[j] != '=',
    ensures
        split_equals(s) == (s.subrange(0, i), s.subrange(i + 1, s.len() as int)),
    decreases i,
{
    if i == 0 {
        assert(s.subrange(0, 0) =~= Seq::<char>::empty());
        assert(s.skip(1) =~= s.subrange(1, s.len() as int));
    } else {
        let t = s.skip(1);
        lemma_split_equals_at(t, i - 1);
        assert(seq![s[0]] + t.subrange(0, i - 1) =~= s.subrange(0, i));
        assert(t.subrange(i, t.len() as int) =~= s.subrange(i + 1, s.len() as int));
    }
}

proof fn lemma_split_equals_none(s: Seq<char>)
    requires
        forall|j: int| 0 <= j < s.len() ==> s[j] != '=',
    ensures
        split_equals(s) == (s, Seq::<char>::empty()),
    decreases s.len(),
{
    if s.len() > 0 {
        let t = s.skip(1);
        lemma_split_equals_none(t);
        assert(seq![s[0]] + t =~= s);
    }
}

/// The option `arg` split at its first `=` into name and value; without
/// `=`, the whole option and an empty value.
pub fn split_arg(arg: String) -> (r: (String, String))
    ensures
        r.0@ == arg_key(arg@),
        r.1@ == arg_value(arg@),
{
    let cs = chars_of(arg.as_str());
    let n = cs.len();
    let mut i: usize = 0;
    while i < n
        invariant
            n == cs@.len(),
            cs@ == arg@,
            0 <= i <= n,
            forall|j: int| 0 <= j < i ==> cs@[j] != '=',
        decreases n - i,
    {
        if cs[i] == '=' {
            let before = string_of_range(&cs, 0, i);
            let after = string_of_range(&cs, i + 1, n);
            proof {
                lemma_split_equals_at(arg@, i as int);
            }
            return (before, after);
        }
        i += 1;
    }
    proof {
        lemma_split_equals_none(arg@);
    }
    (arg, String::new())
}

impl Config {
    /// Reads the options `args` on top of `config`, in order, up to the
    /// first `--`: each `--<section>.<setting>=<value>` sets that setting,
    /// a later option winning; other names are ignored. `--help` or
    /// `--version`, or a number or flag that cannot be read, ends the reading
    /// with an error.
    pub fn parse_args(config: Config, args: &Vec<String>) -> (r: Result<Config, ArgsError>)
        ensures
            r is Ok <==> (end_of_options(arg_views(args@), 0) == args@.len() || !arg_fails(
                arg_views(args@)[end_of_options(arg_views(args@), 0)],
            )),
            r is Ok ==> options_applied(
                config,
                r->Ok_0,
                arg_views(args@),
                end_of_options(arg_views(args@), 0),
            ),
            (r is Err && r->Err_0 is Help) <==> (end_of_options(arg_views(args@), 0)
                < args@.len() && arg_fails(arg_views(args@)[end_of_options(arg_views(args@), 0)])
                && is_help(arg_key(arg_views(args@)[end_of_options(arg_views(args@), 0)]))),
            (r is Err && r->Err_0 is Unparsable) ==> r->Err_0->key@ == arg_key(
                arg_views(args@)[end_of_options(arg_views(args@), 0)],
            ) && r->Err_0->value@ == arg_value(
                arg_views(args@)[end_of_options(arg_views(args@), 0)],
            ),
    {
        let ghost a = arg_views(args@);
        let mut settings = config.duplicate();
        let n = args.len();
        let mut i: usize = 0;
        while i < n
            invariant
                n == args@.len(),
                a == arg_views(args@),
                0 <= i <= n,
                end_of_options(a, 0) == end_of_options(a, i as int),
                options_applied(config, settings, a, i as int),
            decreases n - i,
        {
            let (key, value) = split_arg(args[i].clone());
            assert(a[i as int] == args@[i as int]@);
            if is(&key, "--") {
                assert(arg_ends(a[i as int]));
                assert(end_of_options(a, i as int) == i);
                return Ok(settings);
            }
            if is(&key, "--help") || is(&key, "--version") {
                assert(arg_ends(a[i as int]));
                return Err(ArgsError::Help);
            }
            match option_number_of(&key) {
                Some(j) => {
                    let ghost before = settings;
                    let v = value.clone();
                    if !apply_option(&mut settings, j, value) {
                        assert(arg_ends(a[i as int]));
                        return Err(ArgsError::Unparsable { key, value: v });
                    }
                    proof {
                        lemma_options_applied_step(config, before, settings, a, i as int, j as int);
                    }
                },
                None => {
                    proof {
                        lemma_options_applied_skip(config, settings, a, i as int);
                    }
                },
            }
            assert(end_of_options(a, i as int) == end_of_options(a, i + 1));
            i += 1;
        }
        Ok(settings)
    }
}

} // verus!
