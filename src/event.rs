use vstd::prelude::*;
use vstd::utf8::encode_utf8;
use crate::text::chars_of;

verus! {

/// A key as the terminal reports it.
#[derive(Debug, Clone, Copy, PartialEq, Eq, Structural)]
pub enum KeyCode {
    Backspace,
    Left,
    Right,
    Up,
    Down,
    Home,
    End,
    PageUp,
    PageDown,
    BackTab,
    Delete,
    Insert,
    F(u8),
    Char(char),
    Alt(char),
    Ctrl(char),
    Null,
    Esc,
}

/// An input event as the terminal reports it: a key, a mouse event, or a
/// byte sequence the terminal layer does not decode.
#[derive(Debug, Clone)]
pub enum TermEvent {
    Key(KeyCode),
    Mouse,
    Unsupported(Vec<u8>),
}

/// What a `TermEvent` holds, as plain values.
pub ghost enum TermEventView {
    Key(KeyCode),
    Mouse,
    Unsupported(Seq<u8>),
}

impl View for TermEvent {
    type V = TermEventView;

    open spec fn view(&self) -> TermEventView {
        match self {
            TermEvent::Key(k) => TermEventView::Key(*k),
            TermEvent::Mouse => TermEventView::Mouse,
            TermEvent::Unsupported(b) => TermEventView::Unsupported(b@),
        }
    }
}

impl PartialEq for TermEvent {
    fn eq(&self, other: &TermEvent) -> (r: bool)
        ensures
            r == (self@ == other@),
    {
        match (self, other) {
            (TermEvent::Key(a), TermEvent::Key(b)) => *a == *b,
            (TermEvent::Mouse, TermEvent::Mouse) => true,
            (TermEvent::Unsupported(a), TermEvent::Unsupported(b)) => {
                if a.len() != b.len() {
                    return false;
                }
                let mut i: usize = 0;
                while i < a.len()
                    invariant
                        self@ == TermEventView::Unsupported(a@),
                        other@ == TermEventView::Unsupported(b@),
                        a.len() == b.len(),
                        0 <= i <= a.len(),
                        forall|j: int| 0 <= j < i ==> a@[j] == b@[j],
                    decreases a.len() - i,
                {
                    if a[i] != b[i] {
                        assert(a@[i as int] != b@[i as int]);
                        return false;
                    }
                    i += 1;
                }
                assert(a@ =~= b@);
                true
            },
            _ => false,
        }
    }
}

impl vstd::std_specs::cmp::PartialEqSpecImpl for TermEvent {
    open spec fn obeys_eq_spec() -> bool {
        true
    }

    open spec fn eq_spec(&self, other: &TermEvent) -> bool {
        self@ == other@
    }
}

/// A key press handed to the event loop.
#[derive(Debug, Clone)]
pub struct Key {
    pub inner: TermEvent,
}

impl PartialEq for Key {
    fn eq(&self, other: &Key) -> (r: bool)
        ensures
            r == (self.inner@ == other.inner@),
    {
        self.inner == other.inner
    }
}

impl vstd::std_specs::cmp::PartialEqSpecImpl for Key {
    open spec fn obeys_eq_spec() -> bool {
        true
    }

    open spec fn eq_spec(&self, other: &Key) -> bool {
        self.inner@ == other.inner@
    }
}

/// The events of the event loop: a key press, or a change of the
/// terminal's size.
#[derive(Debug, Clone)]
pub enum Event {
    Resize,
    Key(Key),
}

/// The escape sequence of an arrow key with a modifier: `m` names the
/// modifier, `d` the direction.
pub open spec fn modified_arrow(m: u8, d: u8) -> TermEventView {
    TermEventView::Unsupported(seq![27u8, 91u8, 49u8, 59u8, m, d])
}

/// The event that a key name stands for in a key binding.
pub open spec fn key_event_spec(s: Seq<char>) -> TermEventView {
    let n = encode_utf8(s).len();
    if n == 1 && s.len() > 0 {
        TermEventView::Key(KeyCode::Char(s.last()))
    } else if n == 5 && s.len() > 4 && s.subrange(0, 4) == "alt+"@ {
        TermEventView::Key(KeyCode::Alt(s.last()))
    } else if n == 6 && s.len() > 5 && s.subrange(0, 5) == "ctrl+"@ {
        TermEventView::Key(KeyCode::Ctrl(s.last()))
    } else if s == "f1"@ {
        TermEventView::Key(KeyCode::F(1))
    } else if s == "f2"@ {
        TermEventView::Key(KeyCode::F(2))
    } else if s == "f3"@ {
        TermEventView::Key(KeyCode::F(3))
    } else if s == "f4"@ {
        TermEventView::Key(KeyCode::F(4))
    } else if s == "f5"@ {
        TermEventView::Key(KeyCode::F(5))
    } else if s == "f6"@ {
        TermEventView::Key(KeyCode::F(6))
    } else if s == "f7"@ {
        TermEventView::Key(KeyCode::F(7))
    } else if s == "f8"@ {
        TermEventView::Key(KeyCode::F(8))
    } else if s == "f9"@ {
        TermEventView::Key(KeyCode::F(9))
    } else if s == "f10"@ {
        TermEventView::Key(KeyCode::F(10))
    } else if s == "f11"@ {
        TermEventView::Key(KeyCode::F(11))
    } else if s == "f12"@ {
        TermEventView::Key(KeyCode::F(12))
    } else if s == "backspace"@ {
        TermEventView::Key(KeyCode::Backspace)
    } else if s == "left"@ {
        TermEventView::Key(KeyCode::Left)
    } else if s == "right"@ {
        TermEventView::Key(KeyCode::Right)
    } else if s == "up"@ {
        TermEventView::Key(KeyCode::Up)
    } else if s == "down"@ {
        TermEventView::Key(KeyCode::Down)
    } else if s == "home"@ {
        TermEventView::Key(KeyCode::Home)
    } else if s == "end"@ {
        TermEventView::Key(KeyCode::End)
    } else if s == "page_up"@ {
        TermEventView::Key(KeyCode::PageUp)
    } else if s == "page_down"@ {
        TermEventView::Key(KeyCode::PageDown)
    } else if s == "delete"@ {
        TermEventView::Key(KeyCode::Delete)
    } else if s == "insert"@ {
        TermEventView::Key(KeyCode::Insert)
    } else if s == "esc"@ {
        TermEventView::Key(KeyCode::Esc)
    } else if s == "return"@ {
        TermEventView::Key(KeyCode::Char('\n'))
    } else if s == "tab"@ {
        TermEventView::Key(KeyCode::Char('\t'))
    } else if s == "ctrl+left"@ {
        modified_arrow(53, 68)
    } else if s == "ctrl+right"@ {
        modified_arrow(53, 67)
    } else if s == "ctrl+up"@ {
        modified_arrow(53, 65)
    } else if s == "ctrl+down"@ {
        modified_arrow(53, 66)
    } else if s == "shift+left"@ {
        modified_arrow(50, 68)
    } else if s == "shift+right"@ {
        modified_arrow(50, 67)
    } else if s == "shift+up"@ {
        modified_arrow(50, 65)
    } else if s == "shift+down"@ {
        modified_arrow(50, 66)
    } else if s == "alt+shift+left"@ || s == "shift+alt+left"@ {
        modified_arrow(52, 68)
    } else if s == "alt+shift+right"@ || s == "shift+alt+right"@ {
        modified_arrow(52, 67)
    } else if s == "alt+shift+up"@ || s == "shift+alt+up"@ {
        modified_arrow(52, 65)
    } else if s == "alt+shift+down"@ || s == "shift+alt+down"@ {
        modified_arrow(52, 66)
    } else {
        TermEventView::Unsupported(Seq::empty())
    }
}

fn is(s: &String, name: &str) -> (r: bool)
    ensures
        r == (s@ == name@),
{
    *s == name.to_owned()
}

fn arrow(m: u8, d: u8) -> (r: TermEvent)
    ensures
        r@ == modified_arrow(m, d),
{
    let v: Vec<u8> = vec![27u8, 91u8, 49u8, 59u8, m, d];
    let r = TermEvent::Unsupported(v);
    assert(r@ == modified_arrow(m, d)) by {
        assert(v@ =~= seq![27u8, 91u8, 49u8, 59u8, m, d]);
    }
    r
}

fn key(k: KeyCode) -> (r: TermEvent)
    ensures
        r@ == TermEventView::Key(k),
{
    TermEvent::Key(k)
}

/// The event that the key name `s` of a key binding stands for: a single
/// character, `alt+` or `ctrl+` and a character, a function or special key,
/// or a modified arrow key; anything else gives an empty undecoded sequence.
pub fn key_event_from_name(s: &str) -> (r: TermEvent)
    ensures
        r@ == key_event_spec(s@),
{
    let cs = chars_of(s);
    let n = s.as_bytes().len();
    let st = s.to_owned();
    assert(cs@ == s@);
    assert(n as int == encode_utf8(s@).len());
    assert(cs@.len() > 0 ==> cs@[cs@.len() - 1] == s@.last());
    if n == 1 && cs.len() > 0 {
        return key(KeyCode::Char(cs[cs.len() - 1]));
    }
    if n == 5 && cs.len() > 4 {
        let p = crate::text::string_of_prefix(&cs, 4);
        assert(p@ == s@.subrange(0, 4));
        if is(&p, "alt+") {
            return key(KeyCode::Alt(cs[cs.len() - 1]));
        }
    }
    if n == 6 && cs.len() > 5 {
        let p = crate::text::string_of_prefix(&cs, 5);
        assert(p@ == s@.subrange(0, 5));
        if is(&p, "ctrl+") {
            return key(KeyCode::Ctrl(cs[cs.len() - 1]));
        }
    }
    if is(&st, "f1") { key(KeyCode::F(1)) }
    else if is(&st, "f2") { key(KeyCode::F(2)) }
    else if is(&st, "f3") { key(KeyCode::F(3)) }
    else if is(&st, "f4") { key(KeyCode::F(4)) }
    else if is(&st, "f5") { key(KeyCode::F(5)) }
    else if is(&st, "f6") { key(KeyCode::F(6)) }
    else if is(&st, "f7") { key(KeyCode::F(7)) }
    else if is(&st, "f8") { key(KeyCode::F(8)) }
    else if is(&st, "f9") { key(KeyCode::F(9)) }
    else if is(&st, "f10") { key(KeyCode::F(10)) }
    else if is(&st, "f11") { key(KeyCode::F(11)) }
    else if is(&st, "f12") { key(KeyCode::F(12)) }
    else if is(&st, "backspace") { key(KeyCode::Backspace) }
    else if is(&st, "left") { key(KeyCode::Left) }
    else if is(&st, "right") { key(KeyCode::Right) }
    else if is(&st, "up") { key(KeyCode::Up) }
    else if is(&st, "down") { key(KeyCode::Down) }
    else if is(&st, "home") { key(KeyCode::Home) }
    else if is(&st, "end") { key(KeyCode::End) }
    else if is(&st, "page_up") { key(KeyCode::PageUp) }
    else if is(&st, "page_down") { key(KeyCode::PageDown) }
    else if is(&st, "delete") { key(KeyCode::Delete) }
    else if is(&st, "insert") { key(KeyCode::Insert) }
    else if is(&st, "esc") { key(KeyCode::Esc) }
    else if is(&st, "return") { key(KeyCode::Char('\n')) }
    else if is(&st, "tab") { key(KeyCode::Char('\t')) }
    else if is(&st, "ctrl+left") { arrow(53, 68) }
    else if is(&st, "ctrl+right") { arrow(53, 67) }
    else if is(&st, "ctrl+up") { arrow(53, 65) }
    else if is(&st, "ctrl+down") { arrow(53, 66) }
    else if is(&st, "shift+left") { arrow(50, 68) }
    else if is(&st, "shift+right") { arrow(50, 67) }
    else if is(&st, "shift+up") { arrow(50, 65) }
    else if is(&st, "shift+down") { arrow(50, 66) }
    else if is(&st, "alt+shift+left") || is(&st, "shift+alt+left") { arrow(52, 68) }
    else if is(&st, "alt+shift+right") || is(&st, "shift+alt+right") { arrow(52, 67) }
    else if is(&st, "alt+shift+up") || is(&st, "shift+alt+up") { arrow(52, 65) }
    else if is(&st, "alt+shift+down") || is(&st, "shift+alt+down") { arrow(52, 66) }
    else {
        let v: Vec<u8> = Vec::new();
        assert(v@ =~= Seq::<u8>::empty());
        TermEvent::Unsupported(v)
    }
}

impl From<TermEvent> for Key {
    fn from(inner: TermEvent) -> (r: Key)
        ensures
            r.inner == inner,
    {
        Key { inner }
    }
}

impl vstd::std_specs::convert::FromSpecImpl<TermEvent> for Key {
    open spec fn obeys_from_spec() -> bool {
        true
    }

    open spec fn from_spec(inner: TermEvent) -> Key {
        Key { inner }
    }
}

impl From<&str> for Key {
    fn from(s: &str) -> (r: Key)
        ensures
            r.inner@ == key_event_spec(s@),
    {
        Key { inner: key_event_from_name(s) }
    }
}

impl vstd::std_specs::convert::FromSpecImpl<&str> for Key {
    open spec fn obeys_from_spec() -> bool {
        false
    }

    open spec fn from_spec(s: &str) -> Key {
        arbitrary()
    }
}

impl From<String> for Key {
    fn from(s: String) -> (r: Key)
        ensures
            r.inner@ == key_event_spec(s@),
    {
        Key { inner: key_event_from_name(s.as_str()) }
    }
}

impl vstd::std_specs::convert::FromSpecImpl<String> for Key {
    open spec fn obeys_from_spec() -> bool {
        false
    }

    open spec fn from_spec(s: String) -> Key {
        arbitrary()
    }
}

} // verus!
