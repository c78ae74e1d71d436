//! A dialog: a bordered, titled container that owns child views and a
//! focus manager. Tab/BackTab cycle focus among its children; every other
//! event goes to the focused child only.

use vstd::prelude::*;
use crate::rect::TRect;
use crate::focus::FocusManager;
use crate::view::TView;
use crate::view::focusable;
use crate::view::view_wf;
use crate::view::sets_focus_to;
use crate::screenbuffer::ScreenBuffer;
use crate::screenbuffer::grid_write;
use crate::text::push_str_chars;
use crate::view::container_steps_to;
use crate::event::TEvent;
use crate::event::TEventQueue;
use crate::event::TKeyCode;

verus! {

pub struct TDialog {
    pub title: String,
    pub bounds: TRect,
    pub children: Vec<TView>,
    pub focus: FocusManager,
}

impl TDialog {
    /// The focus cursor stays inside the child list and every child is
    /// well formed.
    pub open spec fn wf(self) -> bool {
        &&& crate::view::cursor_ok(self.focus.index as int, self.children@.len() as int)
        &&& (forall|i: int| 0 <= i < self.children@.len() ==> view_wf(#[trigger] self.children@[i]))
    }

    pub fn new(title: &str, bounds: TRect) -> (r: Self)
        ensures
            r.title@ == title@,
            r.bounds == bounds,
            r.children@ == Seq::<TView>::empty(),
            r.focus.index == 0,
            r.wf(),
    {
        Self { title: title.to_owned(), bounds, children: Vec::new(), focus: FocusManager::new() }
    }

    /// Appends a child; the first child ever added gets focus right away if
    /// it reports itself focusable. A later child never steals focus.
    pub fn add_child(&mut self, child: TView)
        requires
            view_wf(child),
        ensures
            final(self).children@.len() == old(self).children@.len() + 1,
            forall|j: int|
                0 <= j < old(self).children@.len() ==> final(self).children@[j] == old(
                    self,
                ).children@[j],
            old(self).children@.len() == 0 && focusable(child) ==> sets_focus_to(
                child,
                final(self).children@.last(),
                true,
            ),
            !(old(self).children@.len() == 0 && focusable(child)) ==> final(self).children@.last()
                == child,
            final(self).title == old(self).title,
            final(self).bounds == old(self).bounds,
            final(self).focus == old(self).focus,
            old(self).wf() ==> final(self).wf(),
    {
        let mut child = child;
        let ghost child0 = child;
        if self.children.is_empty() && child.is_focusable() {
            child.set_focus(true);
            proof {
                crate::view::lemma_sets_focus_wf(child0, child, true);
            }
        }
        self.children.push(child);
    }


    /// A horizontal border line: a left corner, a run of dashes, a right
    /// corner.
    pub open spec fn hline(left: char, mid: char, right: char, bw: int) -> Seq<char> {
        seq![left] + Seq::new(if bw >= 2 { (bw - 2) as nat } else { 0 }, |i: int| mid) + seq![right]
    }

    /// The grid after the first `n` interior rows have their side borders,
    /// for a dialog whose top-left corner sits at `(x, y)` on the screen.
    pub open spec fn side_rows(self, grid: Seq<char>, w: int, x: int, y: int, n: int) -> Seq<char>
        decreases n,
    {
        if n <= 0 {
            grid
        } else {
            let g = self.side_rows(grid, w, x, y, n - 1);
            grid_write(
                grid_write(g, w, y + n, x, seq!['\u{2502}']),
                w,
                y + n,
                x + self.bounds.width - 1,
                seq!['\u{2502}'],
            )
        }
    }

    /// The title as shown: the text between single spaces.
    pub open spec fn title_line(self) -> Seq<char> {
        seq![' '] + self.title@ + seq![' ']
    }

    /// The column where the centered title starts, for a dialog whose left
    /// edge sits at screen column `x`.
    pub open spec fn title_x(self, x: int) -> int {
        let tl = self.title@.len() + 2;
        x + (if self.bounds.width >= tl {
            (self.bounds.width - tl) / 2
        } else {
            0int
        })
    }

    /// The grid after the border and centered title are drawn at the given
    /// offset: the top line, the two side columns, the bottom line, then
    /// the title over the top line. A dialog too small for a border (width
    /// or height under two) draws no decoration at all.
    pub open spec fn border_spec(self, grid: Seq<char>, w: int, ox: int, oy: int) -> Seq<char> {
        if self.bounds.width >= 2 && self.bounds.height >= 2 {
            let x = ox + self.bounds.x;
            let y = oy + self.bounds.y;
            let bw = self.bounds.width as int;
            let bh = self.bounds.height as int;
            let g1 = grid_write(grid, w, y, x, Self::hline('\u{250c}', '\u{2500}', '\u{2510}', bw));
            let g2 = self.side_rows(g1, w, x, y, bh - 2);
            let g3 = grid_write(g2, w, y + bh - 1, x, Self::hline('\u{2514}', '\u{2500}', '\u{2518}', bw));
            grid_write(g3, w, y, self.title_x(x), self.title_line())
        } else {
            grid
        }
    }

    /// Draws the border and the centered title at the given offset.
    pub fn draw_border(&self, buffer: &mut ScreenBuffer, offset: (u32, u32))
        requires
            old(buffer).wf(),
            offset.0 <= 0x10000,
            offset.1 <= 0x10000,
        ensures
            final(buffer).wf(),
            final(buffer).spec_width() == old(buffer).spec_width(),
            final(buffer).spec_height() == old(buffer).spec_height(),
            final(buffer).grid() == self.border_spec(
                old(buffer).grid(),
                old(buffer).spec_width() as int,
                offset.0 as int,
                offset.1 as int,
            ),
    {
        if self.bounds.width >= 2 && self.bounds.height >= 2 {
            let ghost w = old(buffer).spec_width() as int;
            let x: u32 = offset.0 + self.bounds.x as u32;
            let y: u32 = offset.1 + self.bounds.y as u32;
            let bw: u32 = self.bounds.width as u32;
            let bh: u32 = self.bounds.height as u32;
            let mut top: Vec<char> = Vec::new();
            top.push('\u{250c}');
            let mut k: u32 = 0;
            while k < bw - 2
                invariant
                    bw == self.bounds.width,
                    bw >= 2,
                    k <= bw - 2,
                    top@ == seq!['\u{250c}'] + Seq::new(k as nat, |i: int| '\u{2500}'),
                decreases bw - 2 - k,
            {
                top.push('\u{2500}');
                k = k + 1;
                assert(top@ =~= seq!['\u{250c}'] + Seq::new(k as nat, |i: int| '\u{2500}'));
            }
            top.push('\u{2510}');
            assert(top@ =~= Self::hline('\u{250c}', '\u{2500}', '\u{2510}', bw as int));
            buffer.write_chars_at(x, y, &top);
            let ghost g1 = buffer.grid();
            let mut i: u32 = 1;
            assert(buffer.grid() =~= self.side_rows(g1, w, x as int, y as int, 0));
            while i < bh - 1
                invariant
                    buffer.wf(),
                    buffer.spec_width() == old(buffer).spec_width(),
                    buffer.spec_height() == old(buffer).spec_height(),
                    w == old(buffer).spec_width() as int,
                    bw == self.bounds.width,
                    bh == self.bounds.height,
                    x == offset.0 + self.bounds.x,
                    y == offset.1 + self.bounds.y,
                    x <= 0x1ffff,
                    y <= 0x1ffff,
                    bw >= 2,
                    bh >= 2,
                    1 <= i <= bh - 1,
                    buffer.grid() == self.side_rows(g1, w, x as int, y as int, i - 1),
                decreases bh - 1 - i,
            {
                buffer.set_at(x, y + i, '\u{2502}');
                buffer.set_at(x + bw - 1, y + i, '\u{2502}');
                i = i + 1;
            }
            let mut bot: Vec<char> = Vec::new();
            bot.push('\u{2514}');
            let mut k2: u32 = 0;
            while k2 < bw - 2
                invariant
                    bw == self.bounds.width,
                    bw >= 2,
                    k2 <= bw - 2,
                    bot@ == seq!['\u{2514}'] + Seq::new(k2 as nat, |i: int| '\u{2500}'),
                decreases bw - 2 - k2,
            {
                bot.push('\u{2500}');
                k2 = k2 + 1;
                assert(bot@ =~= seq!['\u{2514}'] + Seq::new(k2 as nat, |i: int| '\u{2500}'));
            }
            bot.push('\u{2518}');
            assert(bot@ =~= Self::hline('\u{2514}', '\u{2500}', '\u{2518}', bw as int));
            buffer.write_chars_at(x, y + bh - 1, &bot);
            let mut tl: Vec<char> = Vec::new();
            tl.push(' ');
            push_str_chars(&mut tl, self.title.as_str());
            tl.push(' ');
            assert(tl@ =~= self.title_line());
            let tlen: usize = tl.len();
            let sx: u32 = if (bw as u64) >= (tlen as u64) {
                x + ((bw - (tlen as u32)) / 2)
            } else {
                x
            };
            assert(sx as int == self.title_x(x as int));
            buffer.write_chars_at(sx, y, &tl);
        }
    }


    /// Draws the dialog: its border and title at the given offset, then
    /// every child at the content origin just inside the border, in
    /// addition order (later children paint over earlier ones).
    pub fn draw(&self, buffer: &mut ScreenBuffer, offset: (u32, u32))
        requires
            self.wf(),
            old(buffer).wf(),
            offset.0 <= 0x10000,
            offset.1 <= 0x10000,
        ensures
            final(buffer).wf(),
            final(buffer).spec_width() == old(buffer).spec_width(),
            final(buffer).spec_height() == old(buffer).spec_height(),
            final(buffer).grid() == crate::view::draw_children(
                self.children@,
                self.border_spec(
                    old(buffer).grid(),
                    old(buffer).spec_width() as int,
                    offset.0 as int,
                    offset.1 as int,
                ),
                old(buffer).spec_width() as int,
                crate::view::cap_off(offset.0 + self.bounds.x + 1),
                crate::view::cap_off(offset.1 + self.bounds.y + 1),
                self.children@.len() as int,
            ),
        decreases *self,
    {
        let ghost w = old(buffer).spec_width() as int;
        self.draw_border(buffer, offset);
        let ghost g0 = buffer.grid();
        let sx: u32 = offset.0 + self.bounds.x as u32 + 1;
        let sy: u32 = offset.1 + self.bounds.y as u32 + 1;
        let cx: u32 = if sx > 0xffff {
            0x10000
        } else {
            sx
        };
        let cy: u32 = if sy > 0xffff {
            0x10000
        } else {
            sy
        };
        let mut i: usize = 0;
        while i < self.children.len()
            invariant
                self.wf(),
                buffer.wf(),
                buffer.spec_width() == old(buffer).spec_width(),
                buffer.spec_height() == old(buffer).spec_height(),
                w == old(buffer).spec_width() as int,
                i <= self.children@.len(),
                cx <= 0x10000,
                cy <= 0x10000,
                cx == crate::view::cap_off(offset.0 + self.bounds.x + 1),
                cy == crate::view::cap_off(offset.1 + self.bounds.y + 1),
                buffer.grid() == crate::view::draw_children(
                    self.children@,
                    g0,
                    w,
                    cx as int,
                    cy as int,
                    i as int,
                ),
            decreases self.children@.len() - i,
        {
            self.children[i].draw(buffer, (cx, cy));
            i = i + 1;
        }
    }

    /// Routes one event: Tab and BackTab drive the focus traversal and are
    /// consumed; every other event is forwarded verbatim to the focused
    /// child only, or silently dropped when there is none.
    pub fn handle_event(&mut self, event: &TEvent, queue: &mut TEventQueue)
        requires
            old(self).wf(),
        ensures
            final(self).wf(),
            final(self).title == old(self).title,
            final(self).bounds == old(self).bounds,
            final(queue)@.len() >= old(queue)@.len(),
            final(queue)@.take(old(queue)@.len() as int) == old(queue)@,
            container_steps_to(
                old(self).children@,
                old(self).focus,
                final(self).children@,
                final(self).focus,
                *event,
                final(queue)@.skip(old(queue)@.len() as int),
            ),
        decreases *old(self),
    {
        let ghost q0 = queue@;
        let is_tab = match event {
            TEvent::Key(k) => k.code == TKeyCode::Tab,
            _ => false,
        };
        let is_backtab = match event {
            TEvent::Key(k) => k.code == TKeyCode::BackTab,
            _ => false,
        };
        if is_tab {
            self.focus.focus_next(&mut self.children);
            proof {
                assert(queue@.skip(q0.len() as int) =~= Seq::<TEvent>::empty());
                assert(queue@.take(q0.len() as int) =~= q0);
                if old(self).children@.len() > 0 {
                    let i0 = old(self).focus.index as int;
                    let j = crate::focus::next_from(
                        old(self).children@,
                        i0,
                        old(self).children@.len(),
                    );
                    crate::focus::lemma_next_from_in_range(
                        old(self).children@,
                        i0,
                        old(self).children@.len(),
                    );
                    crate::focus::lemma_traverse_wf(old(self).children@, i0, j, self.children@);
                }
            }
        } else if is_backtab {
            self.focus.focus_prev(&mut self.children);
            proof {
                assert(queue@.skip(q0.len() as int) =~= Seq::<TEvent>::empty());
                assert(queue@.take(q0.len() as int) =~= q0);
                if old(self).children@.len() > 0 {
                    let i0 = old(self).focus.index as int;
                    let j = crate::focus::prev_from(
                        old(self).children@,
                        i0,
                        old(self).children@.len(),
                    );
                    crate::focus::lemma_prev_from_in_range(
                        old(self).children@,
                        i0,
                        old(self).children@.len(),
                    );
                    crate::focus::lemma_traverse_wf(old(self).children@, i0, j, self.children@);
                }
            }
        } else {
            let idx = self.focus.index;
            if idx < self.children.len() {
                self.children[idx].handle_event(event, queue);
            } else {
                proof {
                    assert(queue@.skip(q0.len() as int) =~= Seq::<TEvent>::empty());
                    assert(queue@.take(q0.len() as int) =~= q0);
                }
            }
        }
    }
}

} // verus!
