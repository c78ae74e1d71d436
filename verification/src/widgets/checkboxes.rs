//! A vertical group of check boxes: Up/Down move the selection cursor,
//! Enter or space toggles the selected box.

use vstd::prelude::*;
use crate::rect::TRect;
use crate::event::TEvent;
use crate::event::TEventQueue;
use crate::event::TKeyCode;
use crate::screenbuffer::ScreenBuffer;
use crate::screenbuffer::grid_write;
use crate::text::push_str_chars;

verus! {

pub struct TCheckBoxes {
    /// Each entry pairs a label with its checked flag.
    pub items: Vec<(String, bool)>,
    pub bounds: TRect,
    pub selected: usize,
    pub focused: bool,
}

impl TCheckBoxes {
    /// How one event changes the state: Up and Down move the cursor within
    /// the item list, Enter or space toggles the selected item, everything
    /// else changes nothing.
    pub open spec fn steps_to(self, post: TCheckBoxes, event: TEvent) -> bool {
        match event {
            TEvent::Key(k) => match k.code {
                TKeyCode::Up => post == if self.selected > 0 {
                    TCheckBoxes { selected: (self.selected - 1) as usize, ..self }
                } else {
                    self
                },
                TKeyCode::Down => post == if self.selected + 1 < self.items@.len() {
                    TCheckBoxes { selected: (self.selected + 1) as usize, ..self }
                } else {
                    self
                },
                TKeyCode::Enter => self.toggles_to(post),
                TKeyCode::Char(c) => if c == ' ' {
                    self.toggles_to(post)
                } else {
                    post == self
                },
                _ => post == self,
            },
            _ => post == self,
        }
    }

    /// The selected item's checked flag is flipped when the selection is in
    /// range; nothing else moves.
    pub open spec fn toggles_to(self, post: TCheckBoxes) -> bool {
        if self.selected < self.items@.len() {
            let it = self.items@[self.selected as int];
            &&& post.items@ == self.items@.update(self.selected as int, (it.0, !it.1))
            &&& post.bounds == self.bounds
            &&& post.selected == self.selected
            &&& post.focused == self.focused
        } else {
            post == self
        }
    }

    /// The rendered line of item `i`: a selection indicator, the check mark
    /// and the label, space-separated.
    pub open spec fn line(self, i: int) -> Seq<char> {
        let ind: char = if self.focused && i == self.selected { '\u{25b6}' } else { ' ' };
        let mark = if self.items@[i].1 {
            seq!['[', 'X', ']']
        } else {
            seq!['[', ' ', ']']
        };
        seq![ind, ' '] + mark + seq![' '] + self.items@[i].0@
    }

    /// The grid after the first `n` item lines have been drawn; lines at or
    /// beyond the group's height are skipped.
    pub open spec fn draw_rows(self, grid: Seq<char>, w: int, ox: int, oy: int, n: int) -> Seq<char>
        decreases n,
    {
        if n <= 0 {
            grid
        } else {
            let g = self.draw_rows(grid, w, ox, oy, n - 1);
            if n - 1 < self.bounds.height {
                grid_write(g, w, oy + self.bounds.y + (n - 1), ox + self.bounds.x, self.line(n - 1))
            } else {
                g
            }
        }
    }

    /// The grid after this group has drawn itself at the given offset.
    pub open spec fn draw_spec(self, grid: Seq<char>, w: int, ox: int, oy: int) -> Seq<char> {
        self.draw_rows(grid, w, ox, oy, self.items@.len() as int)
    }

    pub fn new(bounds: TRect, labels: Vec<&str>) -> (r: Self)
        ensures
            r.items@.len() == labels@.len(),
            forall|i: int|
                0 <= i < labels@.len() ==> r.items@[i].0@ == labels@[i]@ && !r.items@[i].1,
            r.bounds == bounds,
            r.selected == 0,
            r.focused == true,
    {
        let mut items: Vec<(String, bool)> = Vec::new();
        let mut i: usize = 0;
        while i < labels.len()
            invariant
                i <= labels@.len(),
                items@.len() == i,
                forall|j: int| 0 <= j < i ==> items@[j].0@ == labels@[j]@ && !items@[j].1,
            decreases labels@.len() - i,
        {
            items.push((labels[i].to_owned(), false));
            i = i + 1;
        }
        Self { items, bounds, selected: 0, focused: true }
    }

    /// Whether the item at `index` is checked; out-of-range indices read as
    /// unchecked.
    pub fn is_checked(&self, index: usize) -> (r: bool)
        ensures
            r == (index < self.items@.len() && self.items@[index as int].1),
    {
        if index < self.items.len() {
            self.items[index].1
        } else {
            false
        }
    }

    pub fn handle_event(&mut self, event: &TEvent, queue: &mut TEventQueue)
        ensures
            old(self).steps_to(*final(self), *event),
            final(queue)@ == old(queue)@,
    {
        let code_opt = match event {
            TEvent::Key(k) => Some(k.code),
            _ => None,
        };
        if let Some(code) = code_opt {
            match code {
                TKeyCode::Up => {
                    if self.selected > 0 {
                        self.selected = self.selected - 1;
                    }
                },
                TKeyCode::Down => {
                    if self.items.len() > 0 && self.selected < self.items.len() - 1 {
                        self.selected = self.selected + 1;
                    }
                },
                TKeyCode::Enter => {
                    self.toggle_selected();
                },
                TKeyCode::Char(c) => {
                    if c == ' ' {
                        self.toggle_selected();
                    }
                },
                _ => {},
            }
        }
    }

    fn toggle_selected(&mut self)
        ensures
            old(self).toggles_to(*final(self)),
    {
        if self.selected < self.items.len() {
            let idx = self.selected;
            let p = &mut self.items[idx];
            p.1 = !p.1;
        }
    }

    pub fn draw(&self, buffer: &mut ScreenBuffer, offset: (u32, u32))
        requires
            old(buffer).wf(),
            offset.0 <= 0x10000,
            offset.1 <= 0x10000,
        ensures
            final(buffer).wf(),
            final(buffer).spec_width() == old(buffer).spec_width(),
            final(buffer).spec_height() == old(buffer).spec_height(),
            final(buffer).grid() == self.draw_spec(
                old(buffer).grid(),
                old(buffer).spec_width() as int,
                offset.0 as int,
                offset.1 as int,
            ),
    {
        let ghost w = old(buffer).spec_width() as int;
        let ghost ox = offset.0 as int;
        let ghost oy = offset.1 as int;
        let gx: u32 = offset.0 + self.bounds.x as u32;
        let gy: u32 = offset.1 + self.bounds.y as u32;
        let mut i: usize = 0;
        while i < self.items.len()
            invariant
                old(buffer).wf(),
                buffer.wf(),
                buffer.spec_width() == old(buffer).spec_width(),
                buffer.spec_height() == old(buffer).spec_height(),
                i <= self.items@.len(),
                w == old(buffer).spec_width() as int,
                ox == offset.0 as int,
                oy == offset.1 as int,
                gx == ox + self.bounds.x,
                gy == oy + self.bounds.y,
                gy <= 0x1ffff,
                buffer.grid() == self.draw_rows(old(buffer).grid(), w, ox, oy, i as int),
            decreases self.items@.len() - i,
        {
            if (i as u64) < (self.bounds.height as u64) {
                let mut line: Vec<char> = Vec::new();
                if self.focused && i == self.selected {
                    line.push('\u{25b6}');
                } else {
                    line.push(' ');
                }
                line.push(' ');
                if self.items[i].1 {
                    line.push('[');
                    line.push('X');
                    line.push(']');
                } else {
                    line.push('[');
                    line.push(' ');
                    line.push(']');
                }
                line.push(' ');
                push_str_chars(&mut line, self.items[i].0.as_str());
                assert(line@ =~= self.line(i as int));
                buffer.write_chars_at(gx, gy + (i as u32), &line);
            }
            i = i + 1;
        }
    }
}

} // verus!
