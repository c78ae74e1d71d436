//! The application session: the root view, the running flag, the screen
//! dimensions, and the one event queue every view posts into. The terminal
//! loop itself (raw mode, polling, printing the frame) lives outside the
//! core; it drains this queue before polling new input and feeds each
//! event back through `handle_event`.

use vstd::prelude::*;
use crate::event::TEvent;
use crate::event::TEventQueue;
use crate::view::TView;
use crate::view::view_wf;
use crate::view::view_steps_to;

verus! {

/// The command id reserved to mean "terminate the application".
pub open spec fn quit_command() -> u16 {
    9999
}

pub struct TApplication {
    pub root: TView,
    pub running: bool,
    pub width: u16,
    pub height: u16,
    pub queue: TEventQueue,
}

impl TApplication {
    pub fn new(root: TView, width: u16, height: u16) -> (r: Self)
        ensures
            r.root == root,
            r.running == true,
            r.width == width,
            r.height == height,
            r.queue@ == Seq::<TEvent>::empty(),
    {
        Self { root, running: true, width, height, queue: TEventQueue::new() }
    }

    /// Dispatches one event. A command is policy: the reserved terminate id
    /// clears the running flag, the dismiss id `0` and every other id are
    /// left to the surrounding application; none of them reaches the view
    /// tree. Every other event goes to the root view, which may post new
    /// events onto this session's queue.
    pub fn handle_event(&mut self, event: TEvent)
        requires
            view_wf(old(self).root),
        ensures
            view_wf(final(self).root),
            final(self).width == old(self).width,
            final(self).height == old(self).height,
            match event {
                TEvent::Command(cmd) => final(self).root == old(self).root && final(self).queue@
                    == old(self).queue@ && final(self).running == (old(self).running && cmd
                    != quit_command()),
                _ => final(self).running == old(self).running && final(self).queue@.len() >= old(
                    self,
                ).queue@.len() && final(self).queue@.take(old(self).queue@.len() as int) == old(
                    self,
                ).queue@ && view_steps_to(
                    old(self).root,
                    final(self).root,
                    event,
                    final(self).queue@.skip(old(self).queue@.len() as int),
                ),
            },
    {
        match event {
            TEvent::Command(cmd) => {
                if cmd == 9999 {
                    self.running = false;
                }
            },
            other => {
                self.root.handle_event(&other, &mut self.queue);
            },
        }
    }

    /// Posts an event for the loop to pick up before new terminal input.
    pub fn put_event(&mut self, event: TEvent)
        ensures
            final(self).queue@ == old(self).queue@.push(event),
            final(self).root == old(self).root,
            final(self).running == old(self).running,
            final(self).width == old(self).width,
            final(self).height == old(self).height,
    {
        self.queue.put_event(event);
    }
}

} // verus!
