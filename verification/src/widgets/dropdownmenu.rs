//! An open menu panel: Up/Down move the selection over enabled items,
//! Enter posts the selected item's command into the queue, Esc posts the
//! dismiss command `0`.

use vstd::prelude::*;
use crate::rect::TRect;
use crate::event::TEvent;
use crate::event::TEventQueue;
use crate::event::TKeyCode;
use crate::screenbuffer::ScreenBuffer;
use crate::screenbuffer::grid_write;
use crate::text::strip_marked;
use crate::text::strip_marked_chars;
use crate::widgets::menu::TMenu;
use crate::widgets::menu::TMenuItem;

verus! {

pub struct TDropDownMenu {
    pub menu: TMenu,
    pub bounds: TRect,
    pub selected_index: usize,
    pub focused: bool,
}

/// The nearest enabled item strictly above `from`, scanning downward.
pub open spec fn scan_up(items: Seq<TMenuItem>, from: int) -> Option<int>
    decreases from,
{
    if from <= 0 {
        None
    } else if !items[from - 1].disabled {
        Some(from - 1)
    } else {
        scan_up(items, from - 1)
    }
}

/// The nearest enabled item strictly below `from`, scanning upward.
pub open spec fn scan_down(items: Seq<TMenuItem>, from: int) -> Option<int>
    decreases items.len() - from,
{
    if from + 1 >= items.len() {
        None
    } else if !items[from + 1].disabled {
        Some(from + 1)
    } else {
        scan_down(items, from + 1)
    }
}

impl TDropDownMenu {
    /// The selection stays inside the item list (and sits at zero when the
    /// menu is empty).
    pub open spec fn wf(self) -> bool {
        if self.menu.items@.len() == 0 {
            self.selected_index == 0
        } else {
            self.selected_index < self.menu.items@.len()
        }
    }

    /// How one event changes the state: Up and Down move the selection to
    /// the nearest enabled neighbour, everything else changes nothing.
    pub open spec fn steps_to(self, post: TDropDownMenu, event: TEvent) -> bool {
        match event {
            TEvent::Key(k) => match k.code {
                TKeyCode::Up => post == match scan_up(self.menu.items@, self.selected_index as int) {
                    Some(i) => TDropDownMenu { selected_index: i as usize, ..self },
                    None => self,
                },
                TKeyCode::Down => post == match scan_down(
                    self.menu.items@,
                    self.selected_index as int,
                ) {
                    Some(i) => TDropDownMenu { selected_index: i as usize, ..self },
                    None => self,
                },
                _ => post == self,
            },
            _ => post == self,
        }
    }

    /// The events one key posts: the selected item's command on Enter when
    /// that item exists and is enabled, and the dismiss command `0` on Esc.
    pub open spec fn step_posts(self, event: TEvent) -> Seq<TEvent> {
        match event {
            TEvent::Key(k) => match k.code {
                TKeyCode::Enter => if self.selected_index < self.menu.items@.len()
                    && !self.menu.items@[self.selected_index as int].disabled {
                    seq![TEvent::Command(self.menu.items@[self.selected_index as int].command)]
                } else {
                    Seq::empty()
                },
                TKeyCode::Esc => seq![TEvent::Command(0)],
                _ => Seq::empty(),
            },
            _ => Seq::empty(),
        }
    }

    /// The rendered line of item `i`: the selection prefix, the cleaned
    /// label and a trailing space.
    pub open spec fn line(self, i: int) -> Seq<char> {
        let pre = if i == self.selected_index {
            seq!['>', ' ']
        } else {
            seq![' ', ' ']
        };
        pre + strip_marked(self.menu.items@[i].label@, '~') + seq![' ']
    }

    /// The grid after the first `n` item lines have been drawn.
    pub open spec fn draw_rows(self, grid: Seq<char>, w: int, ox: int, oy: int, n: int) -> Seq<char>
        decreases n,
    {
        if n <= 0 {
            grid
        } else {
            let g = self.draw_rows(grid, w, ox, oy, n - 1);
            grid_write(g, w, oy + self.bounds.y + (n - 1), ox + self.bounds.x, self.line(n - 1))
        }
    }

    /// The grid after this menu has drawn itself at the given offset.
    pub open spec fn draw_spec(self, grid: Seq<char>, w: int, ox: int, oy: int) -> Seq<char> {
        self.draw_rows(grid, w, ox, oy, self.menu.items@.len() as int)
    }

    pub fn new(menu: TMenu, bounds: TRect) -> (r: Self)
        ensures
            r.menu == menu,
            r.bounds == bounds,
            r.selected_index == 0,
            r.focused == false,
            r.wf(),
    {
        Self { menu, bounds, selected_index: 0, focused: false }
    }

    fn move_up(&mut self)
        requires
            old(self).wf(),
        ensures
            *final(self) == match scan_up(old(self).menu.items@, old(self).selected_index as int) {
                Some(i) => TDropDownMenu { selected_index: i as usize, ..*old(self) },
                None => *old(self),
            },
    {
        let mut index = self.selected_index;
        while index > 0
            invariant
                old(self).wf(),
                index <= self.selected_index,
                *self == *old(self),
                scan_up(self.menu.items@, old(self).selected_index as int) == scan_up(
                    self.menu.items@,
                    index as int,
                ),
            decreases index,
        {
            index = index - 1;
            if !self.menu.items[index].disabled {
                self.selected_index = index;
                return ;
            }
        }
    }

    fn move_down(&mut self)
        requires
            old(self).wf(),
        ensures
            *final(self) == match scan_down(old(self).menu.items@, old(self).selected_index as int) {
                Some(i) => TDropDownMenu { selected_index: i as usize, ..*old(self) },
                None => *old(self),
            },
    {
        let n = self.menu.items.len();
        let mut index = self.selected_index;
        while n > 0 && index < n - 1
            invariant
                n == self.menu.items@.len(),
                self.selected_index <= index <= n,
                *self == *old(self),
                scan_down(self.menu.items@, old(self).selected_index as int) == scan_down(
                    self.menu.items@,
                    index as int,
                ),
            decreases n - index,
        {
            if !self.menu.items[index + 1].disabled {
                self.selected_index = index + 1;
                return ;
            }
            index = index + 1;
        }
    }

    /// The selected item, or `None` when the selection is out of range.
    pub fn current_item(&self) -> (r: Option<&TMenuItem>)
        ensures
            self.selected_index < self.menu.items@.len() ==> (r matches Some(it) && *it
                == self.menu.items@[self.selected_index as int]),
            self.selected_index >= self.menu.items@.len() ==> r is None,
    {
        if self.selected_index < self.menu.items.len() {
            Some(&self.menu.items[self.selected_index])
        } else {
            None
        }
    }

    pub fn handle_event(&mut self, event: &TEvent, queue: &mut TEventQueue)
        requires
            old(self).wf(),
        ensures
            old(self).steps_to(*final(self), *event),
            final(queue)@ == old(queue)@ + old(self).step_posts(*event),
            final(self).wf(),
    {
        let code_opt = match event {
            TEvent::Key(k) => Some(k.code),
            _ => None,
        };
        if let Some(code) = code_opt {
            match code {
                TKeyCode::Up => {
                    self.move_up();
                    proof {
                        lemma_scan_up_in_range(old(self).menu.items@, old(self).selected_index as int);
                        assert(queue@ =~= old(queue)@ + old(self).step_posts(*event));
                    }
                },
                TKeyCode::Down => {
                    self.move_down();
                    proof {
                        lemma_scan_down_in_range(
                            old(self).menu.items@,
                            old(self).selected_index as int,
                        );
                        assert(queue@ =~= old(queue)@ + old(self).step_posts(*event));
                    }
                },
                TKeyCode::Enter => {
                    let idx = self.selected_index;
                    if idx < self.menu.items.len() {
                        if !self.menu.items[idx].disabled {
                            let cmd = self.menu.items[idx].command;
                            queue.put_event(TEvent::Command(cmd));
                        }
                    }
                    assert(queue@ =~= old(queue)@ + old(self).step_posts(*event));
                },
                TKeyCode::Esc => {
                    queue.put_event(TEvent::Command(0));
                    assert(queue@ =~= old(queue)@ + old(self).step_posts(*event));
                },
                _ => {
                    assert(queue@ =~= old(queue)@ + old(self).step_posts(*event));
                },
            }
        } else {
            assert(queue@ =~= old(queue)@ + old(self).step_posts(*event));
        }
    }

    pub fn draw(&self, buffer: &mut ScreenBuffer, offset: (u32, u32))
        requires
            old(buffer).wf(),
            offset.0 <= 0x10000,
            offset.1 <= 0x10000,
        ensures
            final(buffer).wf(),
            final(buffer).spec_width() == old(buffer).spec_width(),
            final(buffer).spec_height() == old(buffer).spec_height(),
            final(buffer).grid() == self.draw_spec(
                old(buffer).grid(),
                old(buffer).spec_width() as int,
                offset.0 as int,
                offset.1 as int,
            ),
    {
        let ghost w = old(buffer).spec_width() as int;
        let ghost h = old(buffer).spec_height() as int;
        let ghost ox = offset.0 as int;
        let ghost oy = offset.1 as int;
        let gx: u32 = offset.0 + self.bounds.x as u32;
        let gy: u32 = offset.1 + self.bounds.y as u32;
        let mut i: usize = 0;
        while i < self.menu.items.len()
            invariant
                old(buffer).wf(),
                buffer.wf(),
                buffer.spec_width() == old(buffer).spec_width(),
                buffer.spec_height() == old(buffer).spec_height(),
                i <= self.menu.items@.len(),
                w == old(buffer).spec_width() as int,
                ox == offset.0 as int,
                oy == offset.1 as int,
                gx == ox + self.bounds.x,
                gy == oy + self.bounds.y,
                gy <= 0x1ffff,
                h == old(buffer).spec_height() as int,
                buffer.grid() == self.draw_rows(old(buffer).grid(), w, ox, oy, i as int),
            decreases self.menu.items@.len() - i,
        {
            let mut line: Vec<char> = Vec::new();
            if i == self.selected_index {
                line.push('>');
                line.push(' ');
            } else {
                line.push(' ');
                line.push(' ');
            }
            let clean = strip_marked_chars(self.menu.items[i].label.as_str(), '~');
            let mut j: usize = 0;
            while j < clean.len()
                invariant
                    j <= clean@.len(),
                    clean@ == strip_marked(self.menu.items@[i as int].label@, '~'),
                    i < self.menu.items@.len(),
                    line@ == (if i as int == self.selected_index {
                        seq!['>', ' ']
                    } else {
                        seq![' ', ' ']
                    }) + clean@.take(j as int),
                decreases clean@.len() - j,
            {
                line.push(clean[j]);
                j = j + 1;
                assert(line@ =~= (if i as int == self.selected_index {
                    seq!['>', ' ']
                } else {
                    seq![' ', ' ']
                }) + clean@.take(j as int));
            }
            assert(clean@.take(clean@.len() as int) =~= clean@);
            line.push(' ');
            assert(line@ =~= self.line(i as int));
            if i <= 0xffff {
                buffer.write_chars_at(gx, gy + (i as u32), &line);
            } else {
                proof {
                    crate::screenbuffer::lemma_grid_write_offrow(
                        buffer.grid(),
                        w,
                        h,
                        oy + self.bounds.y + i,
                        gx as int,
                        line@,
                    );
                }
            }
            i = i + 1;
        }
    }
}

/// A found enabled item lies inside the list, below the start position.
proof fn lemma_scan_up_in_range(items: Seq<TMenuItem>, from: int)
    requires
        from <= items.len(),
    ensures
        scan_up(items, from) matches Some(i) ==> 0 <= i < from && i < items.len(),
    decreases from,
{
    if from <= 0 {
    } else if !items[from - 1].disabled {
    } else {
        lemma_scan_up_in_range(items, from - 1);
    }
}

/// A found enabled item lies inside the list, above the start position.
proof fn lemma_scan_down_in_range(items: Seq<TMenuItem>, from: int)
    ensures
        scan_down(items, from) matches Some(i) ==> from < i < items.len(),
    decreases items.len() - from,
{
    if from + 1 >= items.len() {
    } else if !items[from + 1].disabled {
    } else {
        lemma_scan_down_in_range(items, from + 1);
    }
}

} // verus!
