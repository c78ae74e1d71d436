//! A push button. Pressing it (Enter or space) posts its command, if one
//! was set, into the event queue; the application loop acts on the command.

use vstd::prelude::*;
use crate::rect::TRect;
use crate::event::TEvent;
use crate::event::TEventQueue;
use crate::event::TKeyCode;
use crate::screenbuffer::ScreenBuffer;
use crate::screenbuffer::grid_write;
use crate::text::fit;
use crate::text::fit_vec;
use crate::text::push_str_chars;

verus! {

pub struct TButton {
    pub label: String,
    pub bounds: TRect,
    pub focused: bool,
    pub command: Option<u16>,
}

/// Whether a key code presses a button: Enter or the space character.
pub open spec fn is_press_key(code: TKeyCode) -> bool {
    code == TKeyCode::Enter || code == TKeyCode::Char(' ')
}

impl TButton {
    /// The rendered line: the label in brackets, truncated to the button's
    /// width or padded with spaces up to it.
    pub open spec fn line(self) -> Seq<char> {
        fit(seq!['['] + self.label@ + seq![']'], self.bounds.width as int)
    }

    /// The grid after this button has drawn itself at the given offset.
    pub open spec fn draw_spec(self, grid: Seq<char>, w: int, ox: int, oy: int) -> Seq<char> {
        grid_write(grid, w, oy + self.bounds.y, ox + self.bounds.x, self.line())
    }

    /// The events a press posts: the button's command, when one is set.
    pub open spec fn step_posts(self, event: TEvent) -> Seq<TEvent> {
        match (event, self.command) {
            (TEvent::Key(k), Some(c)) => if is_press_key(k.code) {
                seq![TEvent::Command(c)]
            } else {
                Seq::empty()
            },
            _ => Seq::empty(),
        }
    }

    pub fn new(text: &str, bounds: TRect) -> (r: Self)
        ensures
            r.label@ == text@,
            r.bounds == bounds,
            r.focused == false,
            r.command is None,
    {
        Self { label: text.to_owned(), bounds, focused: false, command: None }
    }

    /// Chooses the command a press posts.
    pub fn set_callback(&mut self, command: u16)
        ensures
            *final(self) == (TButton { command: Some(command), ..*old(self) }),
    {
        self.command = Some(command);
    }

    /// The line the button shows, as a string.
    pub fn render_label(&self) -> (r: String)
        ensures
            r@ == self.line(),
    {
        let mut cs: Vec<char> = Vec::new();
        cs.push('[');
        push_str_chars(&mut cs, self.label.as_str());
        cs.push(']');
        assert(cs@ =~= seq!['['] + self.label@ + seq![']']);
        let line = fit_vec(cs, self.bounds.width as usize);
        crate::text::chars_to_string(&line)
    }

    pub fn draw(&self, buffer: &mut ScreenBuffer, offset: (u32, u32))
        requires
            old(buffer).wf(),
            offset.0 <= 0x10000,
            offset.1 <= 0x10000,
        ensures
            final(buffer).wf(),
            final(buffer).spec_width() == old(buffer).spec_width(),
            final(buffer).spec_height() == old(buffer).spec_height(),
            final(buffer).grid() == self.draw_spec(
                old(buffer).grid(),
                old(buffer).spec_width() as int,
                offset.0 as int,
                offset.1 as int,
            ),
    {
        let gx: u32 = offset.0 + self.bounds.x as u32;
        let gy: u32 = offset.1 + self.bounds.y as u32;
        let mut cs: Vec<char> = Vec::new();
        cs.push('[');
        push_str_chars(&mut cs, self.label.as_str());
        cs.push(']');
        assert(cs@ =~= seq!['['] + self.label@ + seq![']']);
        let line = fit_vec(cs, self.bounds.width as usize);
        buffer.write_chars_at(gx, gy, &line);
    }

    /// A press posts the button's command; everything else is ignored. The
    /// button's own state never changes.
    pub fn handle_event(&mut self, event: &TEvent, queue: &mut TEventQueue)
        ensures
            *final(self) == *old(self),
            final(queue)@ == old(queue)@ + old(self).step_posts(*event),
    {
        let pressed = match event {
            TEvent::Key(k) => match k.code {
                TKeyCode::Enter => true,
                TKeyCode::Char(c) => c == ' ',
                _ => false,
            },
            _ => false,
        };
        if pressed {
            if let Some(cmd) = self.command {
                queue.put_event(TEvent::Command(cmd));
                assert(queue@ =~= old(queue)@ + old(self).step_posts(*event));
            } else {
                assert(queue@ =~= old(queue)@ + old(self).step_posts(*event));
            }
        } else {
            assert(queue@ =~= old(queue)@ + old(self).step_posts(*event));
        }
    }
}

} // verus!
