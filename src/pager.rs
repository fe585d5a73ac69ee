use vstd::prelude::*;
use crate::config::Config;

verus! {

/// Where the view stands: the cursor's row, the terminal's size, and
/// `text_row`, the screen line on which the first row would be drawn.
#[derive(Debug)]
pub struct Pager {
    pub config: Config,
    pub cursor_row: i32,
    pub terminal_cols: i32,
    pub terminal_rows: i32,
    pub text_row: i32,
}

/// One row to draw: the row `entry` of the listing goes to screen line
/// `line`, emphasized when the cursor is on it.
#[derive(Debug, Clone, Copy, PartialEq, Eq, Structural)]
pub struct ScreenLine {
    pub line: i64,
    pub entry: usize,
    pub emphasized: bool,
}

/// Division by two that rounds toward zero, as machine division does.
pub open spec fn half(x: int) -> int {
    if x >= 0 {
        x / 2
    } else {
        -((-x) / 2)
    }
}

/// How far `now` went past `under_test` on a move by `delta`, if the move
/// reached or crossed it, from either side.
pub open spec fn overshoot_spec(under_test: int, now: int, delta: int) -> Option<int> {
    let before = now - delta;
    if before <= under_test && now >= under_test {
        Some(now - under_test)
    } else if before >= under_test && now <= under_test {
        Some(now - under_test)
    } else {
        None
    }
}

/// The cursor after a move by `delta` over `len` rows: below the first row it
/// wraps to the last, at or past the end it wraps to the first.
pub open spec fn wrapped_cursor(cursor: int, delta: int, len: int) -> int {
    let moved = cursor + delta;
    let a = if moved < 0 {
        len - 1
    } else {
        moved
    };
    if a >= len {
        0
    } else {
        a
    }
}

/// The screen line of the first row when the cursor is moved toward the
/// middle of the view; `kept_in_text` then holds it at the ends of the text.
pub open spec fn center_scroll(
    cursor: int,
    text_row: int,
    rows: int,
    spacing_bot: int,
    spacing_top: int,
    delta: int,
    len: int,
) -> int {
    let center = spacing_top - text_row + half(rows - (spacing_bot + spacing_top));
    let last = rows - (text_row + spacing_bot);
    if delta == 0 && cursor - center > 0 && cursor - center <= len - last {
        // re-center after a subtree opened below a cursor under the middle
        text_row - (cursor - center)
    } else if overshoot_spec(center, cursor, delta) is Some {
        if text_row >= spacing_top && delta < 0 {
            text_row
        } else if text_row + len <= rows - spacing_bot && delta > 0 {
            text_row
        } else {
            text_row - overshoot_spec(center, cursor, delta)->0
        }
    } else if text_row + cursor < spacing_top {
        spacing_top - cursor
    } else if text_row + cursor > rows - (1 + spacing_bot) {
        rows - (1 + spacing_bot + cursor)
    } else {
        text_row
    }
}

/// `r` held so that no line above the first row is shown, and, when the rows
/// fill the displayable lines, no line below the last row either.
pub open spec fn kept_in_text(r: int, rows: int, spacing_bot: int, spacing_top: int, len: int) -> int {
    let top = if r > spacing_top {
        spacing_top
    } else {
        r
    };
    if len >= rows - (spacing_bot + spacing_top) && top + len < rows - spacing_bot {
        rows - spacing_bot - len
    } else {
        top
    }
}

/// The screen line of the first row when the cursor is kept near the middle
/// of the view, never scrolling past the first or the last row.
pub open spec fn center_policy(
    cursor: int,
    text_row: int,
    rows: int,
    spacing_bot: int,
    spacing_top: int,
    delta: int,
    len: int,
) -> int {
    kept_in_text(
        center_scroll(cursor, text_row, rows, spacing_bot, spacing_top, delta, len),
        rows,
        spacing_bot,
        spacing_top,
        len,
    )
}

/// The screen line of the first row when the cursor is kept out of the
/// padding bands, scrolling no more than needed.
pub open spec fn editor_scroll(
    cursor: int,
    text_row: int,
    rows: int,
    padding_bot: int,
    padding_top: int,
    spacing_bot: int,
    spacing_top: int,
) -> int {
    if text_row + cursor < spacing_top + padding_top {
        spacing_top + padding_top - cursor
    } else if text_row + cursor > rows - (1 + spacing_bot + padding_bot) {
        rows - (1 + spacing_bot + padding_bot + cursor)
    } else {
        text_row
    }
}

/// `x`, or the nearest bound of `i32` when it lies beyond.
pub open spec fn saturate(x: int) -> int {
    if x < i32::MIN {
        i32::MIN as int
    } else if x > i32::MAX {
        i32::MAX as int
    } else {
        x
    }
}

fn saturate_i64(x: i64) -> (r: i32)
    ensures
        r == saturate(x as int),
{
    if x < i32::MIN as i64 {
        i32::MIN
    } else if x > i32::MAX as i64 {
        i32::MAX
    } else {
        x as i32
    }
}

/// The new `text_row` that the configured policy gives: `center`,
/// `editor`, or a view fixed at line zero for any other name.
pub open spec fn scroll_for(
    config: Config,
    cursor: int,
    text_row: int,
    rows: int,
    delta: int,
    len: int,
) -> int {
    if config.behavior.scrolling@ == "center"@ {
        saturate(
            center_policy(
                cursor,
                text_row,
                rows,
                config.debug.spacing_bot as int,
                config.debug.spacing_top as int,
                delta,
                len,
            ),
        )
    } else if config.behavior.scrolling@ == "editor"@ {
        saturate(
            editor_scroll(
                cursor,
                text_row,
                rows,
                config.debug.padding_bot as int,
                config.debug.padding_top as int,
                config.debug.spacing_bot as int,
                config.debug.spacing_top as int,
            ),
        )
    } else {
        0
    }
}

/// `new` is `old` after one step of the view: the terminal's size taken,
/// the cursor moved by `delta` over `len` rows (counted up to `i32::MAX`),
/// and the view scrolled by the configured policy.
pub open spec fn pager_stepped(old: Pager, new: Pager, delta: int, len: int, cols: int, rows: int) -> bool {
    &&& new.config == old.config
    &&& new.terminal_cols == cols
    &&& new.terminal_rows == rows
    &&& new.cursor_row == wrapped_cursor(old.cursor_row as int, delta, saturate(len))
    &&& new.text_row == scroll_for(
        old.config,
        new.cursor_row as int,
        old.text_row as int,
        rows,
        delta,
        saturate(len),
    )
}

/// The first row that falls on a displayable line.
pub open spec fn first_shown(p: Pager) -> int {
    let first = p.config.debug.spacing_top - p.text_row;
    if first < 0 {
        0
    } else {
        first
    }
}

/// One past the last row that falls on a displayable line.
pub open spec fn end_shown(p: Pager, len: int) -> int {
    let first = p.config.debug.spacing_top - p.text_row;
    let displayable = p.terminal_rows - (p.config.debug.spacing_bot + p.config.debug.spacing_top);
    if first + displayable < len {
        first + displayable
    } else {
        len
    }
}

/// Cursor wraparound: a step up from the first of `n` rows lands on the
/// last, a step down from the last lands on the first.
pub proof fn lemma_cursor_wraparound(n: int)
    requires
        n >= 1,
    ensures
        wrapped_cursor(0, -1, n) == n - 1,
        wrapped_cursor(n - 1, 1, n) == 0,
{
}

/// Centered scroll boundary: when the cursor lands on the first row, by any
/// move and from any earlier offset, the centered policy puts that row on
/// the first displayable line (`text_row == spacing_top`), as long as the
/// terminal has room for at least one row.
pub proof fn lemma_center_scroll_top(config: Config, text_row: int, rows: int, delta: int, len: int)
    requires
        config.behavior.scrolling@ == "center"@,
        rows - (config.debug.spacing_bot + config.debug.spacing_top) >= 1,
    ensures
        scroll_for(config, 0, text_row, rows, delta, len) == config.debug.spacing_top,
{
    let sb = config.debug.spacing_bot as int;
    let st = config.debug.spacing_top as int;
    let raw = center_scroll(0, text_row, rows, sb, st, delta, len);
    assert(half(rows - (sb + st)) >= 0);
    assert(raw >= st);
}

fn half_i64(x: i64) -> (r: i64)
    requires
        x > i64::MIN,
    ensures
        r == half(x as int),
{
    if x >= 0 {
        x / 2
    } else {
        -((-x) / 2)
    }
}

fn overshoot_i64(under: i64, now: i64, delta: i64) -> (r: Option<i64>)
    requires
        -0x4_0000_0000 <= under <= 0x4_0000_0000,
        i32::MIN <= now <= i32::MAX,
        i32::MIN <= delta <= i32::MAX,
    ensures
        r is Some <==> overshoot_spec(under as int, now as int, delta as int) is Some,
        r is Some ==> r->0 == overshoot_spec(under as int, now as int, delta as int)->0,
{
    let before = now - delta;
    if before <= under && now >= under {
        return Some(now - under);
    }
    if before >= under && now <= under {
        return Some(now - under);
    }
    None
}

impl Pager {
    pub open spec fn center_spec(&self, delta: int, len: int) -> int {
        center_policy(
            self.cursor_row as int,
            self.text_row as int,
            self.terminal_rows as int,
            self.config.debug.spacing_bot as int,
            self.config.debug.spacing_top as int,
            delta,
            len,
        )
    }

    pub open spec fn editor_spec(&self) -> int {
        editor_scroll(
            self.cursor_row as int,
            self.text_row as int,
            self.terminal_rows as int,
            self.config.debug.padding_bot as int,
            self.config.debug.padding_top as int,
            self.config.debug.spacing_bot as int,
            self.config.debug.spacing_top as int,
        )
    }

    /// A view at the top with the cursor on the first row; the terminal's
    /// size is not known yet.
    pub fn new(config: Config) -> (r: Pager)
        ensures
            r.cursor_row == 0,
            r.terminal_cols == 0,
            r.terminal_rows == 0,
            r.text_row == 0,
            r.config == config,
    {
        Pager { config, cursor_row: 0, terminal_cols: 0, terminal_rows: 0, text_row: 0 }
    }

    /// How far the index moved past `index_under_test` when it moved by
    /// `index_delta` to `index_now`; `None` if it did not reach it.
    pub fn get_index_overshoot(index_under_test: i32, index_now: i32, index_delta: i32) -> (r:
        Option<i32>)
        ensures
            r is Some <==> overshoot_spec(
                index_under_test as int,
                index_now as int,
                index_delta as int,
            ) is Some,
            r is Some ==> r->0 == overshoot_spec(
                index_under_test as int,
                index_now as int,
                index_delta as int,
            )->0,
    {
        let under = index_under_test as i64;
        let now = index_now as i64;
        let before = now - index_delta as i64;
        if before <= under && now >= under {
            return Some((now - under) as i32);
        }
        if before >= under && now <= under {
            return Some((now - under) as i32);
        }
        None
    }

    /// The line the centered policy moves the first row to, before it is
    /// held at the ends of the text.
    fn center_move(&self, cursor_row_delta: i32, text_entries_len: i32) -> (r: i64)
        ensures
            r == center_scroll(
                self.cursor_row as int,
                self.text_row as int,
                self.terminal_rows as int,
                self.config.debug.spacing_bot as int,
                self.config.debug.spacing_top as int,
                cursor_row_delta as int,
                text_entries_len as int,
            ),
    {
        let spacing_bot = self.config.debug.spacing_bot as i64;
        let spacing_top = self.config.debug.spacing_top as i64;
        let rows = self.terminal_rows as i64;
        let text_row = self.text_row as i64;
        let cursor = self.cursor_row as i64;
        let delta = cursor_row_delta as i64;
        let len = text_entries_len as i64;

        let center = spacing_top - text_row + half_i64(rows - (spacing_bot + spacing_top));
        let last = rows - (text_row + spacing_bot);

        if delta == 0 && cursor - center > 0 && cursor - center <= len - last {
            return text_row - (cursor - center);
        }
        match overshoot_i64(center, cursor, delta) {
            Some(overshoot) => {
                if text_row >= spacing_top && delta < 0 {
                    return text_row;
                }
                if text_row + len <= rows - spacing_bot && delta > 0 {
                    return text_row;
                }
                return text_row - overshoot;
            },
            None => {},
        }
        if text_row + cursor < spacing_top {
            spacing_top - cursor
        } else if text_row + cursor > rows - (1 + spacing_bot) {
            rows - (1 + spacing_bot + cursor)
        } else {
            text_row
        }
    }

    /// The new `text_row` under the centered policy, after the cursor moved
    /// by `cursor_row_delta` over `text_entries_len` rows: the cursor kept
    /// near the middle, the view never scrolled past the first row nor,
    /// when the rows fill it, past the last. A line beyond the range of
    /// `i32` is held at its bound.
    pub fn scroll_like_center(&self, cursor_row_delta: i32, text_entries_len: i32) -> (r: i32)
        ensures
            r == saturate(self.center_spec(cursor_row_delta as int, text_entries_len as int)),
            r <= self.config.debug.spacing_top,
            text_entries_len >= self.terminal_rows - (self.config.debug.spacing_bot
                + self.config.debug.spacing_top) ==> r + text_entries_len >= self.terminal_rows
                - self.config.debug.spacing_bot,
    {
        let spacing_bot = self.config.debug.spacing_bot as i64;
        let spacing_top = self.config.debug.spacing_top as i64;
        let rows = self.terminal_rows as i64;
        let len = text_entries_len as i64;
        let moved = self.center_move(cursor_row_delta, text_entries_len);
        let top = if moved > spacing_top {
            spacing_top
        } else {
            moved
        };
        if len >= rows - (spacing_bot + spacing_top) && top + len < rows - spacing_bot {
            saturate_i64(rows - spacing_bot - len)
        } else {
            saturate_i64(top)
        }
    }

    /// The new `text_row` under the edge-following policy. A line beyond the
    /// range of `i32` is held at its bound.
    pub fn scroll_like_editor(&self) -> (r: i32)
        ensures
            r == saturate(self.editor_spec()),
    {
        let padding_bot = self.config.debug.padding_bot as i64;
        let padding_top = self.config.debug.padding_top as i64;
        let spacing_bot = self.config.debug.spacing_bot as i64;
        let spacing_top = self.config.debug.spacing_top as i64;
        let rows = self.terminal_rows as i64;
        let text_row = self.text_row as i64;
        let cursor = self.cursor_row as i64;

        if text_row + cursor < spacing_top + padding_top {
            saturate_i64(spacing_top + padding_top - cursor)
        } else if text_row + cursor > rows - (1 + spacing_bot + padding_bot) {
            saturate_i64(rows - (1 + spacing_bot + padding_bot + cursor))
        } else {
            self.text_row
        }
    }

    /// Takes the terminal's size, moves the cursor by `cursor_row_delta`
    /// over `text_entries_len` rows (counted up to `i32::MAX`), and scrolls
    /// by the configured policy.
    pub fn update(
        &mut self,
        cursor_row_delta: i32,
        text_entries_len: usize,
        terminal_cols: u16,
        terminal_rows: u16,
    )
        ensures
            pager_stepped(
                *old(self),
                *final(self),
                cursor_row_delta as int,
                text_entries_len as int,
                terminal_cols as int,
                terminal_rows as int,
            ),
    {
        self.terminal_cols = terminal_cols as i32;
        self.terminal_rows = terminal_rows as i32;
        let len: i32 = if text_entries_len > i32::MAX as usize {
            i32::MAX
        } else {
            text_entries_len as i32
        };
        self.update_cursor_row(cursor_row_delta, len);
        let center = "center".to_owned();
        let editor = "editor".to_owned();
        if self.config.behavior.scrolling == center {
            self.text_row = self.scroll_like_center(cursor_row_delta, len);
        } else if self.config.behavior.scrolling == editor {
            self.text_row = self.scroll_like_editor();
        } else {
            self.text_row = 0;
        }
    }

    /// The rows to draw for a listing of `text_entries_len` rows, top to
    /// bottom: each on the line `1 + spacing_top` plus its distance from the
    /// row drawn on the first displayable line.
    pub fn layout(&self, text_entries_len: usize) -> (r: Vec<ScreenLine>)
        requires
            text_entries_len <= i32::MAX,
        ensures
            r@.len() == if end_shown(*self, text_entries_len as int) > first_shown(*self) {
                end_shown(*self, text_entries_len as int) - first_shown(*self)
            } else {
                0
            },
            forall|k: int|
                0 <= k < r@.len() ==> (#[trigger] r@[k]).entry == first_shown(*self) + k
                    && r@[k].line == 1 + self.config.debug.spacing_top + (first_shown(*self) + k
                    - (self.config.debug.spacing_top - self.text_row)) && r@[k].emphasized == (
                first_shown(*self) + k == self.cursor_row),
    {
        let spacing_top = self.config.debug.spacing_top as i64;
        let spacing_bot = self.config.debug.spacing_bot as i64;
        let first = spacing_top - self.text_row as i64;
        let displayable = self.terminal_rows as i64 - (spacing_bot + spacing_top);
        let len = text_entries_len as i64;
        let lo: i64 = if first < 0 {
            0
        } else {
            first
        };
        let end: i64 = if first + displayable < len {
            first + displayable
        } else {
            len
        };
        let hi: i64 = if end < lo {
            lo
        } else {
            end
        };
        let mut r: Vec<ScreenLine> = Vec::new();
        let mut index: i64 = lo;
        while index < hi
            invariant
                lo == first_shown(*self),
                end == end_shown(*self, text_entries_len as int),
                hi == if end < lo {
                    lo
                } else {
                    end
                },
                0 <= lo,
                end <= text_entries_len,
                first == self.config.debug.spacing_top - self.text_row,
                spacing_top == self.config.debug.spacing_top,
                lo <= index <= hi,
                r@.len() == index - lo,
                forall|k: int|
                    0 <= k < r@.len() ==> (#[trigger] r@[k]).entry == lo + k && r@[k].line == 1
                        + spacing_top + (lo + k - first) && r@[k].emphasized == (lo + k
                        == self.cursor_row),
            decreases hi - index,
        {
            r.push(
                ScreenLine {
                    line: 1 + spacing_top + (index - first),
                    entry: index as usize,
                    emphasized: index == self.cursor_row as i64,
                },
            );
            index += 1;
        }
        r
    }

    /// Moves the cursor by `cursor_row_delta`, wrapping around the
    /// `text_entries_len` rows.
    pub fn update_cursor_row(&mut self, cursor_row_delta: i32, text_entries_len: i32)
        requires
            text_entries_len >= 0,
        ensures
            final(self).cursor_row == wrapped_cursor(
                old(self).cursor_row as int,
                cursor_row_delta as int,
                text_entries_len as int,
            ),
            final(self).config == old(self).config,
            final(self).text_row == old(self).text_row,
            final(self).terminal_rows == old(self).terminal_rows,
            final(self).terminal_cols == old(self).terminal_cols,
    {
        let moved = self.cursor_row as i64 + cursor_row_delta as i64;
        let mut a = if moved < 0 {
            text_entries_len as i64 - 1
        } else {
            moved
        };
        if a >= text_entries_len as i64 {
            a = 0;
        }
        self.cursor_row = a as i32;
    }
}

} // verus!
