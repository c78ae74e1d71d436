//! A static line of text. Never focusable; ignores every event.

use vstd::prelude::*;
use crate::rect::TRect;
use crate::event::TEvent;
use crate::event::TEventQueue;
use crate::screenbuffer::ScreenBuffer;
use crate::screenbuffer::grid_write;
use crate::text::fit;
use crate::text::fit_vec;
use crate::text::str_to_chars;

verus! {

pub struct TLabel {
    pub text: String,
    pub bounds: TRect,
}

impl TLabel {
    /// The rendered line: the text truncated to the label's width, or
    /// padded with spaces up to it.
    pub open spec fn line(self) -> Seq<char> {
        fit(self.text@, self.bounds.width as int)
    }

    /// The grid after this label has drawn itself at the given offset.
    pub open spec fn draw_spec(self, grid: Seq<char>, w: int, ox: int, oy: int) -> Seq<char> {
        grid_write(grid, w, oy + self.bounds.y, ox + self.bounds.x, self.line())
    }

    pub fn new(text: &str, bounds: TRect) -> (r: Self)
        ensures
            r.text@ == text@,
            r.bounds == bounds,
    {
        Self { text: text.to_owned(), bounds }
    }

    pub fn draw(&self, buffer: &mut ScreenBuffer, offset: (u32, u32))
        requires
            old(buffer).wf(),
            offset.0 <= 0x10000,
            offset.1 <= 0x10000,
        ensures
            final(buffer).wf(),
            final(buffer).spec_width() == old(buffer).spec_width(),
            final(buffer).spec_height() == old(buffer).spec_height(),
            final(buffer).grid() == self.draw_spec(
                old(buffer).grid(),
                old(buffer).spec_width() as int,
                offset.0 as int,
                offset.1 as int,
            ),
    {
        let gx: u32 = offset.0 + self.bounds.x as u32;
        let gy: u32 = offset.1 + self.bounds.y as u32;
        let line = fit_vec(str_to_chars(self.text.as_str()), self.bounds.width as usize);
        buffer.write_chars_at(gx, gy, &line);
    }

    /// A label ignores every event.
    pub fn handle_event(&mut self, event: &TEvent, queue: &mut TEventQueue)
        ensures
            *final(self) == *old(self),
            final(queue)@ == old(queue)@,
    {
    }
}

} // verus!
