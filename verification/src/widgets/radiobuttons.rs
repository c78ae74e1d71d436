//! A vertical group of radio buttons: Up/Down move the focus cursor, Enter
//! or space selects the focused item; exactly one item is marked selected.

use vstd::prelude::*;
use crate::rect::TRect;
use crate::event::TEvent;
use crate::event::TEventQueue;
use crate::event::TKeyCode;
use crate::screenbuffer::ScreenBuffer;
use crate::screenbuffer::grid_write;
use crate::text::push_str_chars;

verus! {

pub struct TRadioButtons {
    pub items: Vec<String>,
    pub selected_index: usize,
    pub bounds: TRect,
    pub focus_index: usize,
    pub focused: bool,
}

impl TRadioButtons {
    /// How one event changes the state: Up and Down move the focus cursor
    /// within the item list, Enter or space makes the focused item the
    /// selected one, everything else changes nothing.
    pub open spec fn steps_to(self, post: TRadioButtons, event: TEvent) -> bool {
        match event {
            TEvent::Key(k) => match k.code {
                TKeyCode::Up => post == if self.focus_index > 0 {
                    TRadioButtons { focus_index: (self.focus_index - 1) as usize, ..self }
                } else {
                    self
                },
                TKeyCode::Down => post == if self.focus_index + 1 < self.items@.len() {
                    TRadioButtons { focus_index: (self.focus_index + 1) as usize, ..self }
                } else {
                    self
                },
                TKeyCode::Enter => post == (TRadioButtons { selected_index: self.focus_index, ..self }),
                TKeyCode::Char(c) => post == if c == ' ' {
                    TRadioButtons { selected_index: self.focus_index, ..self }
                } else {
                    self
                },
                _ => post == self,
            },
            _ => post == self,
        }
    }

    /// The rendered line of item `i`: a focus marker, the selection mark and
    /// the label, space-separated.
    pub open spec fn line(self, i: int) -> Seq<char> {
        let ind: char = if self.focused && i == self.focus_index { '\u{25b6}' } else { ' ' };
        let mark = if i == self.selected_index {
            seq!['(', '*', ')']
        } else {
            seq!['(', ' ', ')']
        };
        seq![ind, ' '] + mark + seq![' '] + self.items@[i]@
    }

    /// The grid after the first `n` item lines have been drawn; lines at or
    /// beyond the group's height are skipped.
    pub open spec fn draw_rows(self, grid: Seq<char>, w: int, ox: int, oy: int, n: int) -> Seq<char>
        decreases n,
    {
        if n <= 0 {
            grid
        } else {
            let g = self.draw_rows(grid, w, ox, oy, n - 1);
            if n - 1 < self.bounds.height {
                grid_write(g, w, oy + self.bounds.y + (n - 1), ox + self.bounds.x, self.line(n - 1))
            } else {
                g
            }
        }
    }

    /// The grid after this group has drawn itself at the given offset.
    pub open spec fn draw_spec(self, grid: Seq<char>, w: int, ox: int, oy: int) -> Seq<char> {
        self.draw_rows(grid, w, ox, oy, self.items@.len() as int)
    }

    pub fn new(bounds: TRect, labels: Vec<&str>) -> (r: Self)
        ensures
            r.items@.len() == labels@.len(),
            forall|i: int| 0 <= i < labels@.len() ==> r.items@[i]@ == labels@[i]@,
            r.bounds == bounds,
            r.selected_index == 0,
            r.focus_index == 0,
            r.focused == true,
    {
        let mut items: Vec<String> = Vec::new();
        let mut i: usize = 0;
        while i < labels.len()
            invariant
                i <= labels@.len(),
                items@.len() == i,
                forall|j: int| 0 <= j < i ==> items@[j]@ == labels@[j]@,
            decreases labels@.len() - i,
        {
            items.push(labels[i].to_owned());
            i = i + 1;
        }
        Self { items, selected_index: 0, focus_index: 0, bounds, focused: true }
    }

    /// The selected item's label, or `None` when the selection is out of
    /// range.
    pub fn selected_item(&self) -> (r: Option<&str>)
        ensures
            self.selected_index < self.items@.len() ==> (r matches Some(s)
                && s@ == self.items@[self.selected_index as int]@),
            self.selected_index >= self.items@.len() ==> r is None,
    {
        if self.selected_index < self.items.len() {
            Some(self.items[self.selected_index].as_str())
        } else {
            None
        }
    }

    pub fn handle_event(&mut self, event: &TEvent, queue: &mut TEventQueue)
        ensures
            old(self).steps_to(*final(self), *event),
            final(queue)@ == old(queue)@,
    {
        let code_opt = match event {
            TEvent::Key(k) => Some(k.code),
            _ => None,
        };
        if let Some(code) = code_opt {
            match code {
                TKeyCode::Up => {
                    if self.focus_index > 0 {
                        self.focus_index = self.focus_index - 1;
                    }
                },
                TKeyCode::Down => {
                    if self.items.len() > 0 && self.focus_index < self.items.len() - 1 {
                        self.focus_index = self.focus_index + 1;
                    }
                },
                TKeyCode::Enter => {
                    self.selected_index = self.focus_index;
                },
                TKeyCode::Char(c) => {
                    if c == ' ' {
                        self.selected_index = self.focus_index;
                    }
                },
                _ => {},
            }
        }
    }

    pub fn draw(&self, buffer: &mut ScreenBuffer, offset: (u32, u32))
        requires
            old(buffer).wf(),
            offset.0 <= 0x10000,
            offset.1 <= 0x10000,
        ensures
            final(buffer).wf(),
            final(buffer).spec_width() == old(buffer).spec_width(),
            final(buffer).spec_height() == old(buffer).spec_height(),
            final(buffer).grid() == self.draw_spec(
                old(buffer).grid(),
                old(buffer).spec_width() as int,
                offset.0 as int,
                offset.1 as int,
            ),
    {
        let ghost w = old(buffer).spec_width() as int;
        let ghost ox = offset.0 as int;
        let ghost oy = offset.1 as int;
        let gx: u32 = offset.0 + self.bounds.x as u32;
        let gy: u32 = offset.1 + self.bounds.y as u32;
        let mut i: usize = 0;
        while i < self.items.len()
            invariant
                old(buffer).wf(),
                buffer.wf(),
                buffer.spec_width() == old(buffer).spec_width(),
                buffer.spec_height() == old(buffer).spec_height(),
                i <= self.items@.len(),
                w == old(buffer).spec_width() as int,
                ox == offset.0 as int,
                oy == offset.1 as int,
                gx == ox + self.bounds.x,
                gy == oy + self.bounds.y,
                gy <= 0x1ffff,
                buffer.grid() == self.draw_rows(old(buffer).grid(), w, ox, oy, i as int),
            decreases self.items@.len() - i,
        {
            if (i as u64) < (self.bounds.height as u64) {
                let mut line: Vec<char> = Vec::new();
                if self.focused && i == self.focus_index {
                    line.push('\u{25b6}');
                } else {
                    line.push(' ');
                }
                line.push(' ');
                if i == self.selected_index {
                    line.push('(');
                    line.push('*');
                    line.push(')');
                } else {
                    line.push('(');
                    line.push(' ');
                    line.push(')');
                }
                line.push(' ');
                push_str_chars(&mut line, self.items[i].as_str());
                assert(line@ =~= self.line(i as int));
                buffer.write_chars_at(gx, gy + (i as u32), &line);
            }
            i = i + 1;
        }
    }
}

} // verus!
