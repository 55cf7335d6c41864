//! Pasted text and the mouse: scrolling, the jump-to-bottom zone, and
//! selecting transcript rows to copy.

use crate::app::{app_inv, clamped_index, out_of_history, App};
use crate::chat::suggestions_for;
use crate::text::{chars_of, join, join_chars, string_of, trim, trim_chars, vv};
use vstd::prelude::*;

verus! {

/// What the mouse did.
#[derive(Clone, Copy, Debug, PartialEq, Eq, Structural)]
pub enum MouseKind {
    ScrollUp,
    ScrollDown,
    Down,
    Drag,
    Up,
    Other,
}

/// A rectangle of the screen that jumps the transcript to its bottom.
#[derive(Clone, Copy, Debug, PartialEq, Eq, Structural)]
pub struct ClickZone {
    pub x: u16,
    pub y: u16,
    pub w: u16,
    pub h: u16,
}

/// A selection of screen rows being dragged.
#[derive(Clone, Copy, Debug, PartialEq, Eq, Structural)]
pub struct TextSelection {
    pub start_row: u16,
    pub start_col: u16,
    pub end_row: u16,
    pub end_col: u16,
    pub active: bool,
}

pub open spec fn hits(z: ClickZone, col: u16, row: u16) -> bool {
    col >= z.x && col < z.x + z.w && row >= z.y && row < z.y + z.h
}

pub open spec fn any_hit(zones: Seq<ClickZone>, col: u16, row: u16) -> bool {
    exists|i: int| 0 <= i < zones.len() && hits(#[trigger] zones[i], col, row)
}

/// The new scroll offset and selection after a mouse event, and the
/// selection to copy, if one was released after moving.  Nothing happens
/// while a menu is open.
pub open spec fn mouse_effect(
    menu_open: bool,
    scroll: usize,
    kind: MouseKind,
    col: u16,
    row: u16,
    zones: Seq<ClickZone>,
    sel: Option<TextSelection>,
) -> (usize, Option<TextSelection>, Option<TextSelection>) {
    if menu_open {
        (scroll, sel, None)
    } else {
        match kind {
            MouseKind::ScrollUp => (if scroll + 3 > usize::MAX { usize::MAX } else { (scroll + 3) as usize }, sel, None),
            MouseKind::ScrollDown => if scroll > 0 {
                (if scroll >= 3 { (scroll - 3) as usize } else { 0 }, sel, None)
            } else {
                (scroll, sel, None)
            },
            MouseKind::Down => if any_hit(zones, col, row) {
                (0, sel, None)
            } else {
                (scroll, Some(TextSelection { start_row: row, start_col: col, end_row: row, end_col: col, active: true }), None)
            },
            MouseKind::Drag => match sel {
                Some(s) => if s.active {
                    (scroll, Some(TextSelection { end_row: row, end_col: col, ..s }), None)
                } else {
                    (scroll, sel, None)
                },
                None => (scroll, sel, None),
            },
            MouseKind::Up => match sel {
                Some(s) => (scroll, None, if s.active && (s.start_row != s.end_row || s.start_col != s.end_col) {
                    Some(s)
                } else {
                    None
                }),
                None => (scroll, None, None),
            },
            MouseKind::Other => (scroll, sel, None),
        }
    }
}

fn zone_hit(zones: &Vec<ClickZone>, col: u16, row: u16) -> (r: bool)
    ensures
        r == any_hit(zones@, col, row),
{
    let mut i: usize = 0;
    while i < zones.len()
        invariant
            i <= zones.len(),
            forall|k: int| 0 <= k < i ==> !hits(#[trigger] zones@[k], col, row),
        decreases zones.len() - i,
    {
        let z = zones[i];
        if col >= z.x && (col as u32) < z.x as u32 + z.w as u32 && row >= z.y && (row as u32) < z.y as u32
            + z.h as u32 {
            assert(hits(zones@[i as int], col, row));
            return true;
        }
        i += 1;
    }
    false
}

/// The rows a selection covers, from the top of the shown rows at `origin`:
/// joined by line breaks and trimmed; none when that leaves nothing or the
/// selection starts above the shown rows.
pub open spec fn selected_text(sel: TextSelection, rows: Seq<Seq<char>>, origin: u16) -> Option<Seq<char>> {
    let top = if sel.start_row <= sel.end_row { sel.start_row } else { sel.end_row };
    let bot = if sel.start_row <= sel.end_row { sel.end_row } else { sel.start_row };
    if top < origin || bot < origin {
        None
    } else {
        let start = if top - origin < rows.len() { (top - origin) as nat } else { rows.len() };
        let end = if bot - origin + 1 < rows.len() { (bot - origin + 1) as nat } else { rows.len() };
        if start < end {
            let t = trim(join(rows.subrange(start as int, end as int), seq!['\n']));
            if t.len() > 0 {
                Some(t)
            } else {
                None
            }
        } else {
            None
        }
    }
}

pub fn selection_text(sel: TextSelection, rows: &Vec<Vec<char>>, origin: u16) -> (r: Option<String>)
    ensures
        match r {
            Some(t) => selected_text(sel, vv(rows@), origin) == Some(t@),
            None => selected_text(sel, vv(rows@), origin) is None,
        },
{
    let top = if sel.start_row <= sel.end_row {
        sel.start_row
    } else {
        sel.end_row
    };
    let bot = if sel.start_row <= sel.end_row {
        sel.end_row
    } else {
        sel.start_row
    };
    if top < origin || bot < origin {
        return None;
    }
    let n = rows.len();
    let s0 = (top - origin) as usize;
    let e0 = (bot - origin) as usize + 1;
    let start = if s0 < n {
        s0
    } else {
        n
    };
    let end = if e0 < n {
        e0
    } else {
        n
    };
    if start >= end {
        return None;
    }
    let mut picked: Vec<Vec<char>> = Vec::new();
    let mut i = start;
    while i < end
        invariant
            start <= i <= end <= n,
            n == rows.len(),
            vv(picked@) == vv(rows@).subrange(start as int, i as int),
        decreases end - i,
    {
        let mut c: Vec<char> = Vec::new();
        crate::text::extend_chars(&mut c, &rows[i]);
        let ghost p0 = vv(picked@);
        picked.push(c);
        assert(vv(picked@) =~= p0.push(vv(rows@)[i as int]));
        i += 1;
        assert(vv(picked@) =~= vv(rows@).subrange(start as int, i as int));
    }
    let mut nl: Vec<char> = Vec::new();
    nl.push('\n');
    let joined = join_chars(&picked, &nl);
    assert(nl@ =~= seq!['\n']);
    let t = trim_chars(&joined);
    if t.len() > 0 {
        Some(string_of(&t))
    } else {
        None
    }
}

impl App {
    /// Applies a mouse event to the scroll offset and the selection; returns
    /// the selection to copy (see `mouse_effect`).
    pub fn handle_mouse(
        &mut self,
        kind: MouseKind,
        col: u16,
        row: u16,
        zones: &Vec<ClickZone>,
        selection: &mut Option<TextSelection>,
    ) -> (r: Option<TextSelection>)
        ensures
            app_inv(*old(self)) ==> app_inv(*final(self)),
            (final(self).scroll_offset, *final(selection), r) == mouse_effect(
                old(self).menu is Some,
                old(self).scroll_offset,
                kind,
                col,
                row,
                zones@,
                *old(selection),
            ),
            *final(self) == (App { scroll_offset: final(self).scroll_offset, ..*old(self) }),
    {
        if self.menu.is_some() {
            return None;
        }
        match kind {
            MouseKind::ScrollUp => {
                self.scroll_offset = self.scroll_offset.saturating_add(3);
                None
            },
            MouseKind::ScrollDown => {
                if self.scroll_offset > 0 {
                    self.scroll_offset = self.scroll_offset.saturating_sub(3);
                }
                None
            },
            MouseKind::Down => {
                if zone_hit(zones, col, row) {
                    self.scroll_offset = 0;
                } else {
                    *selection = Some(
                        TextSelection { start_row: row, start_col: col, end_row: row, end_col: col, active: true },
                    );
                }
                None
            },
            MouseKind::Drag => {
                match *selection {
                    Some(s) => {
                        if s.active {
                            *selection = Some(TextSelection { end_row: row, end_col: col, ..s });
                        }
                    },
                    None => {},
                }
                None
            },
            MouseKind::Up => {
                let taken = *selection;
                *selection = None;
                match taken {
                    Some(s) => if s.active && (s.start_row != s.end_row || s.start_col != s.end_col) {
                        Some(s)
                    } else {
                        None
                    },
                    None => None,
                }
            },
            MouseKind::Other => None,
        }
    }

    /// Inserts text at the cursor (a paste), leaving history browsing.
    pub fn insert_text(&mut self, text: &str)
        requires
            old(self).input_cursor <= old(self).input@.len(),
        ensures
            app_inv(*old(self)) ==> app_inv(*final(self)),
            final(self).input@ == old(self).input@.take(old(self).input_cursor as int) + text@ + old(
                self,
            ).input@.skip(old(self).input_cursor as int),
            final(self).input_cursor == old(self).input_cursor + text@.len(),
            out_of_history(*old(self), *final(self)),
            final(self).suggestion_index == clamped_index(
                suggestions_for(final(self).input@).len(),
                old(self).suggestion_index,
            ),
            *final(self) == (App {
                input: final(self).input,
                input_cursor: final(self).input_cursor,
                history_index: None,
                draft_before_history: final(self).draft_before_history,
                suggestion_index: final(self).suggestion_index,
                ..*old(self)
            }),
    {
        self.exit_history_mode();
        let cs = chars_of(text);
        let ghost base = self.input@;
        let ghost cur0 = self.input_cursor;
        let ghost mid = *self;
        let mut i: usize = 0;
        while i < cs.len()
            invariant
                i <= cs.len(),
                cs@ == text@,
                cur0 <= base.len(),
                self.input@ == base.take(cur0 as int) + cs@.take(i as int) + base.skip(cur0 as int),
                self.input_cursor == cur0 + i,
                *self == (App { input: self.input, input_cursor: self.input_cursor, ..mid }),
            decreases cs.len() - i,
        {
            let c = cs[i];
            assert(self.input_cursor <= self.input@.len());
            self.input.insert(self.input_cursor, c);
            let n = self.input.len();
            assert(self.input_cursor < n);
            self.input_cursor = self.input_cursor + 1;
            i += 1;
            assert(self.input@ =~= base.take(cur0 as int) + cs@.take(i as int) + base.skip(cur0 as int));
        }
        assert(cs@.take(i as int) =~= cs@);
        self.clamp_suggestion_index();
    }

    /// Sets the token count from estimates of each message's text and
    /// reasoning (the count stops at the largest `usize`).
    pub fn recount_tokens(&mut self, estimates: &Vec<(usize, usize)>)
        ensures
            app_inv(*old(self)) ==> app_inv(*final(self)),
            final(self).token_count as nat == capped(estimate_total(estimates@)),
            *final(self) == (App { token_count: final(self).token_count, ..*old(self) }),
    {
        let mut total: usize = 0;
        let mut i: usize = 0;
        while i < estimates.len()
            invariant
                i <= estimates.len(),
                total as nat == capped(estimate_total(estimates@.take(i as int))),
            decreases estimates.len() - i,
        {
            assert(estimates@.take(i + 1).drop_last() =~= estimates@.take(i as int));
            let (a, b) = estimates[i];
            total = total.saturating_add(a).saturating_add(b);
            i += 1;
        }
        assert(estimates@.take(i as int) =~= estimates@);
        self.token_count = total;
    }
}

pub open spec fn estimate_total(v: Seq<(usize, usize)>) -> nat
    decreases v.len(),
{
    if v.len() == 0 {
        0
    } else {
        (estimate_total(v.drop_last()) + v.last().0 + v.last().1) as nat
    }
}

pub open spec fn capped(n: nat) -> nat {
    if n > usize::MAX {
        usize::MAX as nat
    } else {
        n
    }
}

} // verus!
