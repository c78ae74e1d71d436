//! A scrolling list: Up/Down move the selection one item, PageUp/PageDown
//! move it by one page, and the scroll offset follows the selection so it
//! stays visible.

use vstd::prelude::*;
use crate::rect::TRect;
use crate::event::TEvent;
use crate::event::TEventQueue;
use crate::event::TKeyCode;
use crate::screenbuffer::ScreenBuffer;
use crate::screenbuffer::grid_write;
use crate::text::fit;
use crate::text::fit_vec;
use crate::text::push_str_chars;

verus! {

pub struct TListBox {
    pub items: Vec<String>,
    pub bounds: TRect,
    pub selected_index: usize,
    pub scroll_offset: usize,
    pub focused: bool,
}

impl TListBox {
    /// The number of rows the list can show at once.
    pub open spec fn spec_visible(self) -> int {
        self.bounds.height as int
    }

    /// The scroll offset adjusted so the selection is visible: scrolled up
    /// to the selection when it lies above the window, down to put it on the
    /// last row when it lies below.
    pub open spec fn scrolled(self) -> int {
        if self.selected_index < self.scroll_offset {
            self.selected_index as int
        } else if self.selected_index >= self.scroll_offset + self.spec_visible() {
            self.selected_index - self.spec_visible() + 1
        } else {
            self.scroll_offset as int
        }
    }

    /// How one event changes the state: Up/Down move the selection by one,
    /// PageUp/PageDown by a page, each followed by the scroll adjustment;
    /// everything else changes nothing.
    pub open spec fn steps_to(self, post: TListBox, event: TEvent) -> bool {
        match event {
            TEvent::Key(k) => match k.code {
                TKeyCode::Up => post == if self.selected_index > 0 {
                    self.with_selection((self.selected_index - 1) as int)
                } else {
                    self
                },
                TKeyCode::Down => post == if self.selected_index + 1 < self.items@.len() {
                    self.with_selection(self.selected_index + 1)
                } else {
                    self
                },
                TKeyCode::PageUp => post == self.with_selection(
                    self.selected_index - if self.spec_visible() < self.selected_index {
                        self.spec_visible()
                    } else {
                        self.selected_index as int
                    },
                ),
                TKeyCode::PageDown => post == if self.items@.len() > 0 {
                    self.with_selection(
                        if self.selected_index + self.spec_visible() < self.items@.len() - 1 {
                            self.selected_index + self.spec_visible()
                        } else {
                            self.items@.len() - 1
                        },
                    )
                } else {
                    self
                },
                _ => post == self,
            },
            _ => post == self,
        }
    }

    /// The state with the selection moved to `sel` and the scroll offset
    /// adjusted to keep it visible.
    pub open spec fn with_selection(self, sel: int) -> TListBox {
        let moved = TListBox { selected_index: sel as usize, ..self };
        TListBox { scroll_offset: moved.scrolled() as usize, ..moved }
    }

    /// The rendered line of item `i`: the selection prefix and the label,
    /// fitted to the list's width.
    pub open spec fn line(self, i: int) -> Seq<char> {
        let pre = if self.focused && i == self.selected_index {
            seq!['\u{25b6}', ' ']
        } else {
            seq![' ', ' ']
        };
        fit(pre + self.items@[i]@, self.bounds.width as int)
    }

    /// How many rows the list actually draws: one per visible item.
    pub open spec fn spec_row_count(self) -> int {
        if self.scroll_offset >= self.items@.len() {
            0
        } else if self.items@.len() - self.scroll_offset < self.spec_visible() {
            self.items@.len() - self.scroll_offset
        } else {
            self.spec_visible()
        }
    }

    /// The grid after the first `n` visible rows have been drawn.
    pub open spec fn draw_rows(self, grid: Seq<char>, w: int, ox: int, oy: int, n: int) -> Seq<char>
        decreases n,
    {
        if n <= 0 {
            grid
        } else {
            let g = self.draw_rows(grid, w, ox, oy, n - 1);
            grid_write(
                g,
                w,
                oy + self.bounds.y + (n - 1),
                ox + self.bounds.x,
                self.line(self.scroll_offset + (n - 1)),
            )
        }
    }

    /// The grid after this list has drawn itself at the given offset.
    pub open spec fn draw_spec(self, grid: Seq<char>, w: int, ox: int, oy: int) -> Seq<char> {
        self.draw_rows(grid, w, ox, oy, self.spec_row_count())
    }

    pub fn new(bounds: TRect, items: Vec<&str>) -> (r: Self)
        ensures
            r.items@.len() == items@.len(),
            forall|i: int| 0 <= i < items@.len() ==> r.items@[i]@ == items@[i]@,
            r.bounds == bounds,
            r.selected_index == 0,
            r.scroll_offset == 0,
            r.focused == true,
    {
        let mut owned: Vec<String> = Vec::new();
        let mut i: usize = 0;
        while i < items.len()
            invariant
                i <= items@.len(),
                owned@.len() == i,
                forall|j: int| 0 <= j < i ==> owned@[j]@ == items@[j]@,
            decreases items@.len() - i,
        {
            owned.push(items[i].to_owned());
            i = i + 1;
        }
        Self { items: owned, bounds, selected_index: 0, scroll_offset: 0, focused: true }
    }

    /// The selected item's label, or `None` when the selection is out of
    /// range.
    pub fn selected_item(&self) -> (r: Option<&str>)
        ensures
            self.selected_index < self.items@.len() ==> (r matches Some(s)
                && s@ == self.items@[self.selected_index as int]@),
            self.selected_index >= self.items@.len() ==> r is None,
    {
        if self.selected_index < self.items.len() {
            Some(self.items[self.selected_index].as_str())
        } else {
            None
        }
    }

    /// The number of rows the list can show at once.
    pub fn visible_items(&self) -> (r: usize)
        ensures
            r == self.spec_visible(),
    {
        self.bounds.height as usize
    }

    /// Scrolls just enough to bring the selection into the window.
    pub fn ensure_visible(&mut self)
        requires
            old(self).selected_index < usize::MAX,
        ensures
            *final(self) == (TListBox { scroll_offset: old(self).scrolled() as usize, ..*old(self) }),
    {
        let visible = self.visible_items();
        if self.selected_index < self.scroll_offset {
            self.scroll_offset = self.selected_index;
        } else if self.selected_index - self.scroll_offset >= visible {
            self.scroll_offset = self.selected_index - visible + 1;
        }
    }

    pub fn handle_event(&mut self, event: &TEvent, queue: &mut TEventQueue)
        requires
            old(self).selected_index < usize::MAX,
        ensures
            old(self).steps_to(*final(self), *event),
            final(self).selected_index < usize::MAX,
            final(queue)@ == old(queue)@,
    {
        let code_opt = match event {
            TEvent::Key(k) => Some(k.code),
            _ => None,
        };
        if let Some(code) = code_opt {
            match code {
                TKeyCode::Up => {
                    if self.selected_index > 0 {
                        self.selected_index = self.selected_index - 1;
                        self.ensure_visible();
                    }
                },
                TKeyCode::Down => {
                    if self.items.len() > 0 && self.selected_index < self.items.len() - 1 {
                        self.selected_index = self.selected_index + 1;
                        self.ensure_visible();
                    }
                },
                TKeyCode::PageUp => {
                    let visible = self.visible_items();
                    let n = if visible < self.selected_index {
                        visible
                    } else {
                        self.selected_index
                    };
                    self.selected_index = self.selected_index - n;
                    self.ensure_visible();
                },
                TKeyCode::PageDown => {
                    if self.items.len() > 0 {
                        let visible = self.visible_items();
                        let cap = self.items.len() - 1;
                        let new_sel = if self.selected_index >= cap {
                            cap
                        } else if visible >= cap - self.selected_index {
                            cap
                        } else {
                            self.selected_index + visible
                        };
                        self.selected_index = new_sel;
                        self.ensure_visible();
                    }
                },
                _ => {},
            }
        }
    }

    pub fn draw(&self, buffer: &mut ScreenBuffer, offset: (u32, u32))
        requires
            old(buffer).wf(),
            offset.0 <= 0x10000,
            offset.1 <= 0x10000,
        ensures
            final(buffer).wf(),
            final(buffer).spec_width() == old(buffer).spec_width(),
            final(buffer).spec_height() == old(buffer).spec_height(),
            final(buffer).grid() == self.draw_spec(
                old(buffer).grid(),
                old(buffer).spec_width() as int,
                offset.0 as int,
                offset.1 as int,
            ),
    {
        let ghost w = old(buffer).spec_width() as int;
        let ghost ox = offset.0 as int;
        let ghost oy = offset.1 as int;
        let gx: u32 = offset.0 + self.bounds.x as u32;
        let gy: u32 = offset.1 + self.bounds.y as u32;
        let count: usize = if self.scroll_offset >= self.items.len() {
            0
        } else if self.items.len() - self.scroll_offset < self.bounds.height as usize {
            self.items.len() - self.scroll_offset
        } else {
            self.bounds.height as usize
        };
        assert(count as int == self.spec_row_count());
        let mut i: usize = 0;
        while i < count
            invariant
                old(buffer).wf(),
                buffer.wf(),
                buffer.spec_width() == old(buffer).spec_width(),
                buffer.spec_height() == old(buffer).spec_height(),
                i <= count,
                count as int == self.spec_row_count(),
                count > 0 ==> self.scroll_offset + count <= self.items@.len(),
                self.items@.len() <= usize::MAX,
                w == old(buffer).spec_width() as int,
                ox == offset.0 as int,
                oy == offset.1 as int,
                gx == ox + self.bounds.x,
                gy == oy + self.bounds.y,
                gy <= 0x1ffff,
                buffer.grid() == self.draw_rows(old(buffer).grid(), w, ox, oy, i as int),
            decreases count - i,
        {
            let idx: usize = self.scroll_offset + i;
            let mut pre: Vec<char> = Vec::new();
            if self.focused && idx == self.selected_index {
                pre.push('\u{25b6}');
                pre.push(' ');
            } else {
                pre.push(' ');
                pre.push(' ');
            }
            push_str_chars(&mut pre, self.items[idx].as_str());
            assert(pre@ =~= (if self.focused && idx as int == self.selected_index {
                seq!['\u{25b6}', ' ']
            } else {
                seq![' ', ' ']
            }) + self.items@[idx as int]@);
            let line = fit_vec(pre, self.bounds.width as usize);
            buffer.write_chars_at(gx, gy + (i as u32), &line);
            i = i + 1;
        }
    }
}

} // verus!
