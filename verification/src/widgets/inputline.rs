//! A single-line text input with a cursor: printable keys insert at the
//! cursor, Backspace/Delete remove around it, Left/Right/Home/End move it.

use vstd::prelude::*;
use crate::rect::TRect;
use crate::event::TEvent;
use crate::event::TEventQueue;
use crate::event::TKeyCode;
use crate::screenbuffer::ScreenBuffer;
use crate::screenbuffer::grid_write;
use crate::text::fit;
use crate::text::fit_vec;
use crate::text::chars_to_string;
use crate::text::str_to_chars;

verus! {

pub struct TInputLine {
    /// The edited text, one entry per character.
    pub text: Vec<char>,
    pub bounds: TRect,
    pub cursor_pos: usize,
    pub focused: bool,
}

impl TInputLine {
    /// The cursor always sits on a character boundary of the text.
    pub open spec fn wf(self) -> bool {
        self.cursor_pos <= self.text@.len()
    }

    /// How one event changes the state: insertion and deletion at the
    /// cursor, cursor movement, nothing else.
    pub open spec fn steps_to(self, post: TInputLine, event: TEvent) -> bool {
        match event {
            TEvent::Key(k) => match k.code {
                TKeyCode::Char(c) => if self.text@.len() < usize::MAX - 1 {
                    &&& post.text@ == self.text@.insert(self.cursor_pos as int, c)
                    &&& post.cursor_pos == self.cursor_pos + 1
                    &&& post.bounds == self.bounds
                    &&& post.focused == self.focused
                } else {
                    post == self
                },
                TKeyCode::Backspace => if self.cursor_pos > 0 {
                    &&& post.text@ == self.text@.remove(self.cursor_pos - 1)
                    &&& post.cursor_pos == self.cursor_pos - 1
                    &&& post.bounds == self.bounds
                    &&& post.focused == self.focused
                } else {
                    post == self
                },
                TKeyCode::Delete => if self.cursor_pos < self.text@.len() {
                    &&& post.text@ == self.text@.remove(self.cursor_pos as int)
                    &&& post.cursor_pos == self.cursor_pos
                    &&& post.bounds == self.bounds
                    &&& post.focused == self.focused
                } else {
                    post == self
                },
                TKeyCode::Left => post == if self.cursor_pos > 0 {
                    TInputLine { cursor_pos: (self.cursor_pos - 1) as usize, ..self }
                } else {
                    self
                },
                TKeyCode::Right => post == if self.cursor_pos < self.text@.len() {
                    TInputLine { cursor_pos: (self.cursor_pos + 1) as usize, ..self }
                } else {
                    self
                },
                TKeyCode::End => post == (TInputLine { cursor_pos: self.text@.len() as usize, ..self }),
                TKeyCode::Home => post == (TInputLine { cursor_pos: 0, ..self }),
                _ => post == self,
            },
            _ => post == self,
        }
    }

    /// The rendered text line: when the text overflows the width, the
    /// window of it that ends at the cursor; otherwise the text padded with
    /// spaces. An input of zero width shows nothing.
    pub open spec fn line(self) -> Seq<char> {
        let w = self.bounds.width as int;
        if w == 0 {
            Seq::empty()
        } else if self.text@.len() > w {
            let start = if self.cursor_pos > w - 1 {
                self.cursor_pos - (w - 1)
            } else {
                0int
            };
            self.text@.subrange(start, self.cursor_pos as int)
        } else {
            fit(self.text@, w)
        }
    }

    /// The grid after this input has drawn itself: the text line, then a
    /// cursor marker when focused and the cursor is inside the window.
    pub open spec fn draw_spec(self, grid: Seq<char>, w: int, ox: int, oy: int) -> Seq<char> {
        let gx = ox + self.bounds.x;
        let gy = oy + self.bounds.y;
        let g = grid_write(grid, w, gy, gx, self.line());
        if self.focused && self.cursor_pos < self.bounds.width {
            grid_write(g, w, gy, gx + self.cursor_pos, seq!['_'])
        } else {
            g
        }
    }

    pub fn new(bounds: TRect) -> (r: Self)
        ensures
            r.text@ == Seq::<char>::empty(),
            r.bounds == bounds,
            r.cursor_pos == 0,
            r.focused == true,
            r.wf(),
    {
        Self { text: Vec::new(), bounds, cursor_pos: 0, focused: true }
    }

    /// The edited text as a string.
    pub fn get_value(&self) -> (r: String)
        ensures
            r@ == self.text@,
    {
        chars_to_string(&self.text)
    }

    /// Replaces the text and puts the cursor at its end.
    pub fn set_value(&mut self, value: &str)
        ensures
            final(self).text@ == value@,
            final(self).cursor_pos == value@.len(),
            final(self).bounds == old(self).bounds,
            final(self).focused == old(self).focused,
            final(self).wf(),
    {
        self.text = str_to_chars(value);
        self.cursor_pos = self.text.len();
    }

    pub fn handle_event(&mut self, event: &TEvent, queue: &mut TEventQueue)
        requires
            old(self).wf(),
        ensures
            old(self).steps_to(*final(self), *event),
            final(self).wf(),
            final(queue)@ == old(queue)@,
    {
        let code_opt = match event {
            TEvent::Key(k) => Some(k.code),
            _ => None,
        };
        if let Some(code) = code_opt {
            match code {
                TKeyCode::Char(c) => {
                    if self.text.len() < usize::MAX - 1 {
                        self.text.insert(self.cursor_pos, c);
                        self.cursor_pos = self.cursor_pos + 1;
                    }
                },
                TKeyCode::Backspace => {
                    if self.cursor_pos > 0 {
                        self.cursor_pos = self.cursor_pos - 1;
                        self.text.remove(self.cursor_pos);
                    }
                },
                TKeyCode::Delete => {
                    if self.cursor_pos < self.text.len() {
                        self.text.remove(self.cursor_pos);
                    }
                },
                TKeyCode::Left => {
                    if self.cursor_pos > 0 {
                        self.cursor_pos = self.cursor_pos - 1;
                    }
                },
                TKeyCode::Right => {
                    if self.cursor_pos < self.text.len() {
                        self.cursor_pos = self.cursor_pos + 1;
                    }
                },
                TKeyCode::End => {
                    self.cursor_pos = self.text.len();
                },
                TKeyCode::Home => {
                    self.cursor_pos = 0;
                },
                _ => {},
            }
        }
    }

    pub fn draw(&self, buffer: &mut ScreenBuffer, offset: (u32, u32))
        requires
            old(buffer).wf(),
            offset.0 <= 0x10000,
            offset.1 <= 0x10000,
            self.wf(),
        ensures
            final(buffer).wf(),
            final(buffer).spec_width() == old(buffer).spec_width(),
            final(buffer).spec_height() == old(buffer).spec_height(),
            final(buffer).grid() == self.draw_spec(
                old(buffer).grid(),
                old(buffer).spec_width() as int,
                offset.0 as int,
                offset.1 as int,
            ),
    {
        let gx: u32 = offset.0 + self.bounds.x as u32;
        let gy: u32 = offset.1 + self.bounds.y as u32;
        let w: usize = self.bounds.width as usize;
        let mut line: Vec<char> = Vec::new();
        if w == 0 {
        } else if self.text.len() > w {
            let start: usize = if self.cursor_pos > w - 1 {
                self.cursor_pos - (w - 1)
            } else {
                0
            };
            assert(Seq::<char>::empty() =~= self.text@.subrange(start as int, start as int));
            let mut i: usize = start;
            while i < self.cursor_pos
                invariant
                    start <= i <= self.cursor_pos,
                    self.cursor_pos <= self.text@.len(),
                    line@ == self.text@.subrange(start as int, i as int),
                decreases self.cursor_pos - i,
            {
                line.push(self.text[i]);
                i = i + 1;
                assert(line@ =~= self.text@.subrange(start as int, i as int));
            }
        } else {
            let copy = self.copy_text();
            line = fit_vec(copy, w);
        }
        assert(line@ == self.line());
        buffer.write_chars_at(gx, gy, &line);
        if self.focused && self.cursor_pos < w {
            buffer.set_at(gx + self.cursor_pos as u32, gy, '_');
        }
    }

    /// A copy of the text characters.
    fn copy_text(&self) -> (r: Vec<char>)
        ensures
            r@ == self.text@,
    {
        let mut r: Vec<char> = Vec::new();
        let mut i: usize = 0;
        while i < self.text.len()
            invariant
                i <= self.text@.len(),
                r@ == self.text@.take(i as int),
            decreases self.text@.len() - i,
        {
            r.push(self.text[i]);
            i = i + 1;
            assert(r@ =~= self.text@.take(i as int));
        }
        assert(r@ =~= self.text@);
        r
    }
}

} // verus!
