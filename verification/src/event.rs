//! The closed set of input and control events, and the shared queue of
//! pending events that views post into.
//!
//! Raw key and pointer payloads arrive from the terminal driver already
//! decoded into the plain types below; the core wraps them without
//! interpreting them further. Command `0` is reserved to mean
//! "dismiss/cancel" and `9999` to mean "terminate the application"; the
//! policy for both is owned by the application loop, not the core, but the
//! reservation is preserved because widgets post these values.

use vstd::prelude::*;

verus! {

/// A key code, as decoded by the terminal driver.
#[derive(Debug, Clone, Copy, PartialEq, Eq, Structural)]
pub enum TKeyCode {
    Char(char),
    F(u8),
    Enter,
    Tab,
    BackTab,
    Backspace,
    Delete,
    Left,
    Right,
    Up,
    Down,
    Home,
    End,
    PageUp,
    PageDown,
    Esc,
    Other,
}

/// A raw key event: code plus a modifier bit set.
#[derive(Debug, Clone, Copy, PartialEq, Eq, Structural)]
pub struct TKeyEvent {
    pub code: TKeyCode,
    pub modifiers: u8,
}

/// A raw pointer event: position plus a button/action tag.
#[derive(Debug, Clone, Copy, PartialEq, Eq, Structural)]
pub struct TMouseEvent {
    pub column: u16,
    pub row: u16,
    pub kind: u8,
}

/// An input or control event.
#[derive(Debug, Clone, Copy, PartialEq, Eq, Structural)]
pub enum TEvent {
    Key(TKeyEvent),
    Mouse(TMouseEvent),
    Command(u16),
    Null,
}

/// An ordered buffer of pending events. One queue instance is owned by the
/// application loop and handed by mutable reference into every
/// `handle_event` call, so a deeply nested widget can communicate upward
/// without a direct reference to the loop. `get_event` removes the most
/// recently added entry (last in, first out); that ordering decides which
/// queued command is processed first when several are pending and is
/// preserved deliberately.
pub struct TEventQueue {
    events: Vec<TEvent>,
}

impl View for TEventQueue {
    type V = Seq<TEvent>;

    closed spec fn view(&self) -> Seq<TEvent> {
        self.events@
    }
}

impl TEventQueue {
    pub fn new() -> (q: Self)
        ensures
            q@ == Seq::<TEvent>::empty(),
    {
        Self { events: Vec::new() }
    }

    /// Appends an event; any view currently handling an event may call this.
    pub fn put_event(&mut self, event: TEvent)
        ensures
            final(self)@ == old(self)@.push(event),
    {
        self.events.push(event);
    }

    /// Removes and returns the last-appended entry, or `None` on an empty
    /// queue.
    pub fn get_event(&mut self) -> (r: Option<TEvent>)
        ensures
            old(self)@.len() == 0 ==> r is None && final(self)@ == old(self)@,
            old(self)@.len() > 0 ==> r == Some(old(self)@.last())
                && final(self)@ == old(self)@.drop_last(),
    {
        self.events.pop()
    }

    /// Reports non-emptiness without mutating.
    pub fn has_pending(&self) -> (r: bool)
        ensures
            r == (self@.len() > 0),
    {
        self.events.len() > 0
    }
}

/// Queue ordering law: posting three events and then draining returns
/// them newest first — last in, first out.
pub proof fn lemma_queue_lifo(q: Seq<TEvent>, a: TEvent, b: TEvent, c: TEvent)
    ensures
        ({
            let q3 = q.push(a).push(b).push(c);
            &&& q3.last() == c
            &&& q3.drop_last().last() == b
            &&& q3.drop_last().drop_last().last() == a
            &&& q3.drop_last().drop_last().drop_last() == q
        }),
{
    let q3 = q.push(a).push(b).push(c);
    assert(q3.drop_last() =~= q.push(a).push(b));
    assert(q.push(a).push(b).drop_last() =~= q.push(a));
    assert(q.push(a).drop_last() =~= q);
}

} // verus!
