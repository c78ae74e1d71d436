//! The top menu bar: a row of entries with `&`-marked hotkeys. F10 toggles
//! it active; while active, Left/Right move the highlighted entry
//! cyclically and Esc deactivates it. It is not a focus target.

use vstd::prelude::*;
use crate::rect::TRect;
use crate::event::TEvent;
use crate::event::TEventQueue;
use crate::event::TKeyCode;
use crate::screenbuffer::ScreenBuffer;
use crate::screenbuffer::grid_write;
use crate::text::hotkey_spec;
use crate::text::strip_marked;
use crate::text::strip_marked_chars;
use crate::text::find_hotkey;
use crate::text::chars_to_string;
use crate::text::rendered_label;
use crate::text::render_label_chars;
use crate::text::spaces;

verus! {

/// One menu bar entry: the cleaned label and the hotkey parsed out of the
/// `&` marker.
#[derive(Debug, Clone)]
pub struct MenuItem {
    pub label: String,
    pub hotkey: Option<char>,
}

impl MenuItem {
    /// Parses a marked label: the character after the first `&` becomes the
    /// hotkey (lower-cased) and the markers are stripped.
    pub fn new(label: &str) -> (r: Self)
        ensures
            r.label@ == strip_marked(label@, '&'),
            r.hotkey == hotkey_spec(label@, '&'),
    {
        let hotkey = find_hotkey(label, '&');
        let cs = strip_marked_chars(label, '&');
        let clean_label = chars_to_string(&cs);
        Self { label: clean_label, hotkey }
    }
}

pub struct TMenuBar {
    pub items: Vec<MenuItem>,
    pub bounds: TRect,
    pub active_index: Option<usize>,
    pub is_active: bool,
}

impl TMenuBar {
    /// The highlighted entry, when there is one, stays inside the entry
    /// list.
    pub open spec fn wf(self) -> bool {
        self.active_index matches Some(i) ==> (i < self.items@.len() || (self.items@.len() == 0
            && i == 0))
    }

    /// The bar with the highlight moved one entry to the left, cyclically.
    pub open spec fn moved_left(self) -> TMenuBar {
        match self.active_index {
            Some(i) => if self.items@.len() > 0 {
                TMenuBar {
                    active_index: Some(
                        if i == 0 {
                            (self.items@.len() - 1) as usize
                        } else {
                            (i - 1) as usize
                        },
                    ),
                    ..self
                }
            } else {
                self
            },
            None => self,
        }
    }

    /// The bar with the highlight moved one entry to the right, cyclically.
    pub open spec fn moved_right(self) -> TMenuBar {
        match self.active_index {
            Some(i) => if self.items@.len() > 0 {
                TMenuBar {
                    active_index: Some((((i + 1) as int % (self.items@.len() as int)) as usize)),
                    ..self
                }
            } else {
                self
            },
            None => self,
        }
    }

    /// How one event changes the state: F10 toggles the bar, and while it
    /// is active Left/Right move the highlight and Esc deactivates it.
    pub open spec fn steps_to(self, post: TMenuBar, event: TEvent) -> bool {
        match event {
            TEvent::Key(k) => match k.code {
                TKeyCode::F(n) => post == if n == 10 {
                    if self.is_active {
                        TMenuBar { is_active: false, active_index: None, ..self }
                    } else {
                        TMenuBar { is_active: true, active_index: Some(0), ..self }
                    }
                } else {
                    self
                },
                TKeyCode::Left => post == if self.is_active {
                    self.moved_left()
                } else {
                    self
                },
                TKeyCode::Right => post == if self.is_active {
                    self.moved_right()
                } else {
                    self
                },
                TKeyCode::Esc => post == if self.is_active {
                    TMenuBar { is_active: false, active_index: None, ..self }
                } else {
                    self
                },
                _ => post == self,
            },
            _ => post == self,
        }
    }

    /// The cells of the bar: every entry's rendered label between single
    /// spaces, in order.
    pub open spec fn bar_cells(items: Seq<MenuItem>, n: int) -> Seq<char>
        decreases n,
    {
        if n <= 0 {
            Seq::empty()
        } else {
            Self::bar_cells(items, n - 1) + seq![' '] + rendered_label(
                items[n - 1].label@,
                items[n - 1].hotkey,
            ) + seq![' ']
        }
    }

    /// The whole rendered bar line: the entries, then spaces out to the
    /// bar's width.
    pub open spec fn line(self) -> Seq<char> {
        let cells = Self::bar_cells(self.items@, self.items@.len() as int);
        cells + spaces(self.bounds.width - cells.len())
    }

    /// The grid after the bar has drawn itself at the given offset.
    pub open spec fn draw_spec(self, grid: Seq<char>, w: int, ox: int, oy: int) -> Seq<char> {
        grid_write(grid, w, oy + self.bounds.y, ox + self.bounds.x, self.line())
    }

    pub fn new(items: Vec<MenuItem>, bounds: TRect) -> (r: Self)
        ensures
            r.items@ == items@,
            r.bounds == bounds,
            r.active_index is None,
            r.is_active == false,
            r.wf(),
    {
        Self { items, bounds, active_index: None, is_active: false }
    }

    /// Turns the bar on and highlights its first entry.
    pub fn activate(&mut self)
        ensures
            *final(self) == (TMenuBar { is_active: true, active_index: Some(0), ..*old(self) }),
            old(self).wf() ==> final(self).wf(),
    {
        self.is_active = true;
        self.active_index = Some(0);
    }

    /// Turns the bar off; no entry stays highlighted.
    pub fn deactivate(&mut self)
        ensures
            *final(self) == (TMenuBar { is_active: false, active_index: None, ..*old(self) }),
    {
        self.is_active = false;
        self.active_index = None;
    }

    fn move_left(&mut self)
        requires
            old(self).wf(),
        ensures
            *final(self) == old(self).moved_left(),
            final(self).wf(),
    {
        if let Some(idx) = self.active_index {
            if self.items.len() > 0 {
                let new_idx = if idx == 0 {
                    self.items.len() - 1
                } else {
                    idx - 1
                };
                self.active_index = Some(new_idx);
            }
        }
    }

    fn move_right(&mut self)
        requires
            old(self).wf(),
        ensures
            *final(self) == old(self).moved_right(),
            final(self).wf(),
    {
        if let Some(idx) = self.active_index {
            if self.items.len() > 0 {
                let new_idx = (idx + 1) % self.items.len();
                self.active_index = Some(new_idx);
            }
        }
    }

    pub fn handle_event(&mut self, event: &TEvent, queue: &mut TEventQueue)
        requires
            old(self).wf(),
        ensures
            old(self).steps_to(*final(self), *event),
            final(self).wf(),
            final(queue)@ == old(queue)@,
    {
        let code_opt = match event {
            TEvent::Key(k) => Some(k.code),
            _ => None,
        };
        if let Some(code) = code_opt {
            match code {
                TKeyCode::F(n) => {
                    if n == 10 {
                        if self.is_active {
                            self.deactivate();
                        } else {
                            self.activate();
                        }
                    }
                },
                TKeyCode::Left => {
                    if self.is_active {
                        self.move_left();
                    }
                },
                TKeyCode::Right => {
                    if self.is_active {
                        self.move_right();
                    }
                },
                TKeyCode::Esc => {
                    if self.is_active {
                        self.deactivate();
                    }
                },
                _ => {},
            }
        }
    }

    pub fn draw(&self, buffer: &mut ScreenBuffer, offset: (u32, u32))
        requires
            old(buffer).wf(),
            offset.0 <= 0x10000,
            offset.1 <= 0x10000,
        ensures
            final(buffer).wf(),
            final(buffer).spec_width() == old(buffer).spec_width(),
            final(buffer).spec_height() == old(buffer).spec_height(),
            final(buffer).grid() == self.draw_spec(
                old(buffer).grid(),
                old(buffer).spec_width() as int,
                offset.0 as int,
                offset.1 as int,
            ),
    {
        let gx: u32 = offset.0 + self.bounds.x as u32;
        let gy: u32 = offset.1 + self.bounds.y as u32;
        let mut cells: Vec<char> = Vec::new();
        let mut i: usize = 0;
        assert(cells@ =~= Self::bar_cells(self.items@, 0));
        while i < self.items.len()
            invariant
                i <= self.items@.len(),
                cells@ == Self::bar_cells(self.items@, i as int),
            decreases self.items@.len() - i,
        {
            cells.push(' ');
            let rendered = render_label_chars(self.items[i].label.as_str(), self.items[i].hotkey);
            let mut j: usize = 0;
            while j < rendered.len()
                invariant
                    j <= rendered@.len(),
                    cells@ == Self::bar_cells(self.items@, i as int) + seq![' ']
                        + rendered@.take(j as int),
                    rendered@ == rendered_label(self.items@[i as int].label@, self.items@[i as int].hotkey),
                    i < self.items@.len(),
                decreases rendered@.len() - j,
            {
                cells.push(rendered[j]);
                j = j + 1;
                assert(cells@ =~= Self::bar_cells(self.items@, i as int) + seq![' ']
                    + rendered@.take(j as int));
            }
            assert(rendered@.take(rendered@.len() as int) =~= rendered@);
            cells.push(' ');
            i = i + 1;
            assert(cells@ =~= Self::bar_cells(self.items@, i as int));
        }
        if cells.len() < self.bounds.width as usize {
            let pad: usize = self.bounds.width as usize - cells.len();
            crate::text::push_spaces(&mut cells, pad);
        }
        assert(cells@ =~= self.line());
        buffer.write_chars_at(gx, gy, &cells);
    }
}

} // verus!
