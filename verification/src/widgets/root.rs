//! The root container: holds every top-level view, draws them in order at
//! the given offset, and routes events like every other container. It is
//! not itself a focus target of anything above it.

use vstd::prelude::*;
use crate::rect::TRect;
use crate::focus::FocusManager;
use crate::view::TView;
use crate::view::focusable;
use crate::view::view_wf;
use crate::view::sets_focus_to;
use crate::view::container_steps_to;
use crate::screenbuffer::ScreenBuffer;
use crate::event::TEvent;
use crate::event::TEventQueue;
use crate::event::TKeyCode;

verus! {

pub struct RootContainer {
    pub children: Vec<TView>,
    pub bounds: TRect,
    pub focus: FocusManager,
}

impl RootContainer {
    /// The focus cursor stays inside the child list and every child is
    /// well formed.
    pub open spec fn wf(self) -> bool {
        &&& crate::view::cursor_ok(self.focus.index as int, self.children@.len() as int)
        &&& (forall|i: int| 0 <= i < self.children@.len() ==> view_wf(#[trigger] self.children@[i]))
    }

    pub fn new(bounds: TRect) -> (r: Self)
        ensures
            r.bounds == bounds,
            r.children@ == Seq::<TView>::empty(),
            r.focus.index == 0,
            r.wf(),
    {
        Self { children: Vec::new(), bounds, focus: FocusManager::new() }
    }

    /// Appends a child; the first child ever added gets focus right away if
    /// it reports itself focusable. A later child never steals focus.
    pub fn add_child(&mut self, child: TView)
        requires
            view_wf(child),
        ensures
            final(self).children@.len() == old(self).children@.len() + 1,
            forall|j: int|
                0 <= j < old(self).children@.len() ==> final(self).children@[j] == old(
                    self,
                ).children@[j],
            old(self).children@.len() == 0 && focusable(child) ==> sets_focus_to(
                child,
                final(self).children@.last(),
                true,
            ),
            !(old(self).children@.len() == 0 && focusable(child)) ==> final(self).children@.last()
                == child,
            final(self).bounds == old(self).bounds,
            final(self).focus == old(self).focus,
            old(self).wf() ==> final(self).wf(),
    {
        let mut child = child;
        let ghost child0 = child;
        if self.children.is_empty() && child.is_focusable() {
            child.set_focus(true);
            proof {
                crate::view::lemma_sets_focus_wf(child0, child, true);
            }
        }
        self.children.push(child);
    }


    /// Draws every child in addition order at the given offset; the root
    /// itself has no decoration and adds no offset of its own.
    pub fn draw(&self, buffer: &mut ScreenBuffer, offset: (u32, u32))
        requires
            self.wf(),
            old(buffer).wf(),
            offset.0 <= 0x10000,
            offset.1 <= 0x10000,
        ensures
            final(buffer).wf(),
            final(buffer).spec_width() == old(buffer).spec_width(),
            final(buffer).spec_height() == old(buffer).spec_height(),
            final(buffer).grid() == crate::view::draw_children(
                self.children@,
                old(buffer).grid(),
                old(buffer).spec_width() as int,
                offset.0 as int,
                offset.1 as int,
                self.children@.len() as int,
            ),
        decreases *self,
    {
        let ghost w = old(buffer).spec_width() as int;
        let mut i: usize = 0;
        while i < self.children.len()
            invariant
                self.wf(),
                buffer.wf(),
                buffer.spec_width() == old(buffer).spec_width(),
                buffer.spec_height() == old(buffer).spec_height(),
                w == old(buffer).spec_width() as int,
                i <= self.children@.len(),
                offset.0 <= 0x10000,
                offset.1 <= 0x10000,
                buffer.grid() == crate::view::draw_children(
                    self.children@,
                    old(buffer).grid(),
                    w,
                    offset.0 as int,
                    offset.1 as int,
                    i as int,
                ),
            decreases self.children@.len() - i,
        {
            self.children[i].draw(buffer, (offset.0, offset.1));
            i = i + 1;
        }
    }

    /// Routes one event: Tab and BackTab drive the focus traversal and are
    /// consumed; every other event is forwarded verbatim to the focused
    /// child only, or silently dropped when there is none.
    pub fn handle_event(&mut self, event: &TEvent, queue: &mut TEventQueue)
        requires
            old(self).wf(),
        ensures
            final(self).wf(),
            final(self).bounds == old(self).bounds,
            final(queue)@.len() >= old(queue)@.len(),
            final(queue)@.take(old(queue)@.len() as int) == old(queue)@,
            container_steps_to(
                old(self).children@,
                old(self).focus,
                final(self).children@,
                final(self).focus,
                *event,
                final(queue)@.skip(old(queue)@.len() as int),
            ),
        decreases *old(self),
    {
        let ghost q0 = queue@;
        let is_tab = match event {
            TEvent::Key(k) => k.code == TKeyCode::Tab,
            _ => false,
        };
        let is_backtab = match event {
            TEvent::Key(k) => k.code == TKeyCode::BackTab,
            _ => false,
        };
        if is_tab {
            self.focus.focus_next(&mut self.children);
            proof {
                assert(queue@.skip(q0.len() as int) =~= Seq::<TEvent>::empty());
                assert(queue@.take(q0.len() as int) =~= q0);
                if old(self).children@.len() > 0 {
                    let i0 = old(self).focus.index as int;
                    let j = crate::focus::next_from(
                        old(self).children@,
                        i0,
                        old(self).children@.len(),
                    );
                    crate::focus::lemma_next_from_in_range(
                        old(self).children@,
                        i0,
                        old(self).children@.len(),
                    );
                    crate::focus::lemma_traverse_wf(old(self).children@, i0, j, self.children@);
                }
            }
        } else if is_backtab {
            self.focus.focus_prev(&mut self.children);
            proof {
                assert(queue@.skip(q0.len() as int) =~= Seq::<TEvent>::empty());
                assert(queue@.take(q0.len() as int) =~= q0);
                if old(self).children@.len() > 0 {
                    let i0 = old(self).focus.index as int;
                    let j = crate::focus::prev_from(
                        old(self).children@,
                        i0,
                        old(self).children@.len(),
                    );
                    crate::focus::lemma_prev_from_in_range(
                        old(self).children@,
                        i0,
                        old(self).children@.len(),
                    );
                    crate::focus::lemma_traverse_wf(old(self).children@, i0, j, self.children@);
                }
            }
        } else {
            let idx = self.focus.index;
            if idx < self.children.len() {
                self.children[idx].handle_event(event, queue);
            } else {
                proof {
                    assert(queue@.skip(q0.len() as int) =~= Seq::<TEvent>::empty());
                    assert(queue@.take(q0.len() as int) =~= q0);
                }
            }
        }
    }
}

} // verus!
