//! The view capability, as a closed sum over the toolkit's widget and
//! container kinds: every view can draw itself into the screen buffer at an
//! offset, handle one event, carry a bounding rectangle, and accept or
//! refuse focus.

use vstd::prelude::*;
use crate::rect::TRect;
use crate::event::TEvent;
use crate::event::TEventQueue;
use crate::event::TKeyCode;
use crate::screenbuffer::ScreenBuffer;
use crate::widgets::button::TButton;
use crate::widgets::checkboxes::TCheckBoxes;
use crate::widgets::dialog::TDialog;
use crate::widgets::dropdownmenu::TDropDownMenu;
use crate::widgets::footerbar::TFooterBar;
use crate::widgets::inputline::TInputLine;
use crate::widgets::label::TLabel;
use crate::widgets::listbox::TListBox;
use crate::widgets::menubar::TMenuBar;
use crate::widgets::radiobuttons::TRadioButtons;
use crate::widgets::root::RootContainer;
use crate::widgets::statusline::TStatusLine;

verus! {

pub enum TView {
    Label(TLabel),
    Button(TButton),
    CheckBoxes(TCheckBoxes),
    RadioButtons(TRadioButtons),
    ListBox(TListBox),
    InputLine(TInputLine),
    StatusLine(TStatusLine),
    MenuBar(TMenuBar),
    DropDownMenu(TDropDownMenu),
    Dialog(TDialog),
    FooterBar(TFooterBar),
    Root(RootContainer),
}

/// Whether a view kind accepts focus. Fixed per kind: a label never does,
/// a button always does, a container is a focus target from its parent's
/// point of view.
pub open spec fn focusable(v: TView) -> bool {
    match v {
        TView::Label(_) => false,
        TView::Button(_) => true,
        TView::CheckBoxes(_) => false,
        TView::RadioButtons(_) => true,
        TView::ListBox(_) => true,
        TView::InputLine(_) => true,
        TView::StatusLine(_) => true,
        TView::MenuBar(_) => false,
        TView::DropDownMenu(_) => true,
        TView::Dialog(_) => true,
        TView::FooterBar(_) => true,
        TView::Root(_) => true,
    }
}

/// A container's focus cursor is inside its child list, and points at the
/// start while the list is empty.
pub open spec fn cursor_ok(index: int, len: int) -> bool {
    if len == 0 {
        index == 0
    } else {
        index < len
    }
}

/// Well-formedness of a whole view tree: widget-local invariants hold and
/// every container's cursor is in range.
pub open spec fn view_wf(v: TView) -> bool
    decreases v,
{
    match v {
        TView::Label(_) => true,
        TView::Button(_) => true,
        TView::CheckBoxes(_) => true,
        TView::RadioButtons(_) => true,
        TView::ListBox(w) => w.selected_index < usize::MAX,
        TView::InputLine(w) => w.wf(),
        TView::StatusLine(_) => true,
        TView::MenuBar(w) => w.wf(),
        TView::DropDownMenu(w) => w.wf(),
        TView::Dialog(d) => cursor_ok(d.focus.index as int, d.children@.len() as int) && (forall|
            i: int,
        |
            0 <= i < d.children@.len() ==> view_wf(#[trigger] d.children@[i])),
        TView::FooterBar(f) => cursor_ok(f.focus.index as int, f.children@.len() as int) && (forall|
            i: int,
        |
            0 <= i < f.children@.len() ==> view_wf(#[trigger] f.children@[i])),
        TView::Root(r) => cursor_ok(r.focus.index as int, r.children@.len() as int) && (forall|
            i: int,
        |
            0 <= i < r.children@.len() ==> view_wf(#[trigger] r.children@[i])),
    }
}

/// The view's bounding rectangle, relative to its parent's content origin.
pub open spec fn view_bounds(v: TView) -> TRect {
    match v {
        TView::Label(w) => w.bounds,
        TView::Button(w) => w.bounds,
        TView::CheckBoxes(w) => w.bounds,
        TView::RadioButtons(w) => w.bounds,
        TView::ListBox(w) => w.bounds,
        TView::InputLine(w) => w.bounds,
        TView::StatusLine(w) => w.bounds,
        TView::MenuBar(w) => w.bounds,
        TView::DropDownMenu(w) => w.bounds,
        TView::Dialog(w) => w.bounds,
        TView::FooterBar(w) => w.bounds,
        TView::Root(w) => w.bounds,
    }
}

/// The same view with its bounding rectangle replaced.
pub open spec fn with_view_bounds(v: TView, b: TRect) -> TView {
    match v {
        TView::Label(w) => TView::Label(TLabel { bounds: b, ..w }),
        TView::Button(w) => TView::Button(TButton { bounds: b, ..w }),
        TView::CheckBoxes(w) => TView::CheckBoxes(TCheckBoxes { bounds: b, ..w }),
        TView::RadioButtons(w) => TView::RadioButtons(TRadioButtons { bounds: b, ..w }),
        TView::ListBox(w) => TView::ListBox(TListBox { bounds: b, ..w }),
        TView::InputLine(w) => TView::InputLine(TInputLine { bounds: b, ..w }),
        TView::StatusLine(w) => TView::StatusLine(TStatusLine { bounds: b, ..w }),
        TView::MenuBar(w) => TView::MenuBar(TMenuBar { bounds: b, ..w }),
        TView::DropDownMenu(w) => TView::DropDownMenu(TDropDownMenu { bounds: b, ..w }),
        TView::Dialog(w) => TView::Dialog(TDialog { bounds: b, ..w }),
        TView::FooterBar(w) => TView::FooterBar(TFooterBar { bounds: b, ..w }),
        TView::Root(w) => TView::Root(RootContainer { bounds: b, ..w }),
    }
}

/// How `set_focus` changes a view. A leaf with a focus flag takes the
/// flag; a label, status line or menu bar ignores it; a container forwards
/// it to the child its cursor points at (and does nothing when the cursor
/// is out of range).
pub open spec fn sets_focus_to(pre: TView, post: TView, f: bool) -> bool
    decreases pre,
{
    match pre {
        TView::Label(_) => post == pre,
        TView::Button(w) => post == TView::Button(TButton { focused: f, ..w }),
        TView::CheckBoxes(w) => post == TView::CheckBoxes(TCheckBoxes { focused: f, ..w }),
        TView::RadioButtons(w) => post == TView::RadioButtons(TRadioButtons { focused: f, ..w }),
        TView::ListBox(w) => post == TView::ListBox(TListBox { focused: f, ..w }),
        TView::InputLine(w) => post == TView::InputLine(TInputLine { focused: f, ..w }),
        TView::StatusLine(_) => post == pre,
        TView::MenuBar(_) => post == pre,
        TView::DropDownMenu(w) => post == TView::DropDownMenu(TDropDownMenu { focused: f, ..w }),
        TView::Dialog(d) => match post {
            TView::Dialog(d2) => d2.title == d.title && d2.bounds == d.bounds && d2.focus == d.focus
                && children_set_focus(d.children@, d.focus.index as int, d2.children@, f),
            _ => false,
        },
        TView::FooterBar(b) => match post {
            TView::FooterBar(b2) => b2.bounds == b.bounds && b2.focus == b.focus
                && children_set_focus(b.children@, b.focus.index as int, b2.children@, f),
            _ => false,
        },
        TView::Root(r) => match post {
            TView::Root(r2) => r2.bounds == r.bounds && r2.focus == r.focus && children_set_focus(
                r.children@,
                r.focus.index as int,
                r2.children@,
                f,
            ),
            _ => false,
        },
    }
}

/// How a focus flag lands in a child list: the child at the cursor takes
/// it, every other child is untouched; an out-of-range cursor changes
/// nothing.
pub open spec fn children_set_focus(pre: Seq<TView>, idx: int, post: Seq<TView>, f: bool) -> bool
    decreases pre,
{
    if 0 <= idx < pre.len() {
        &&& post.len() == pre.len()
        &&& (forall|j: int| 0 <= j < pre.len() && j != idx ==> post[j] == pre[j])
        &&& sets_focus_to(pre[idx], post[idx], f)
    } else {
        post == pre
    }
}

/// Setting focus keeps a view well formed and does not change what kind of
/// view it is, so focusability is untouched.
pub proof fn lemma_sets_focus_wf(pre: TView, post: TView, f: bool)
    requires
        view_wf(pre),
        sets_focus_to(pre, post, f),
    ensures
        view_wf(post),
        focusable(post) == focusable(pre),
        view_bounds(post) == view_bounds(pre),
    decreases pre,
{
    match pre {
        TView::Dialog(d) => {
            let d2 = post->Dialog_0;
            let idx = d.focus.index as int;
            if 0 <= idx < d.children@.len() {
                lemma_sets_focus_wf(d.children@[idx], d2.children@[idx], f);
                assert forall|i: int| 0 <= i < d2.children@.len() implies view_wf(
                    #[trigger] d2.children@[i],
                ) by {
                    if i != idx {
                        assert(d2.children@[i] == d.children@[i]);
                    }
                }
            }
        },
        TView::FooterBar(b) => {
            let b2 = post->FooterBar_0;
            let idx = b.focus.index as int;
            if 0 <= idx < b.children@.len() {
                lemma_sets_focus_wf(b.children@[idx], b2.children@[idx], f);
                assert forall|i: int| 0 <= i < b2.children@.len() implies view_wf(
                    #[trigger] b2.children@[i],
                ) by {
                    if i != idx {
                        assert(b2.children@[i] == b.children@[i]);
                    }
                }
            }
        },
        TView::Root(r) => {
            let r2 = post->Root_0;
            let idx = r.focus.index as int;
            if 0 <= idx < r.children@.len() {
                lemma_sets_focus_wf(r.children@[idx], r2.children@[idx], f);
                assert forall|i: int| 0 <= i < r2.children@.len() implies view_wf(
                    #[trigger] r2.children@[i],
                ) by {
                    if i != idx {
                        assert(r2.children@[i] == r.children@[i]);
                    }
                }
            }
        },
        _ => {},
    }
}

/// An offset component clipped to just past the 16-bit coordinate range:
/// anything larger lies off screen for every buffer anyway.
pub open spec fn cap_off(a: int) -> int {
    if a > 0xffff {
        0x10000
    } else {
        a
    }
}

/// The grid after a view has drawn itself at the given offset. A leaf
/// paints its own lines; a dialog paints its border and title at the
/// offset and then its children at the content origin just inside the
/// border; a footer bar offsets its children by its bounds; the root
/// passes the offset through unchanged. Later children paint over earlier
/// ones.
pub open spec fn draw_view(v: TView, grid: Seq<char>, w: int, ox: int, oy: int) -> Seq<char>
    decreases v, 0int,
{
    match v {
        TView::Label(x) => x.draw_spec(grid, w, ox, oy),
        TView::Button(x) => x.draw_spec(grid, w, ox, oy),
        TView::CheckBoxes(x) => x.draw_spec(grid, w, ox, oy),
        TView::RadioButtons(x) => x.draw_spec(grid, w, ox, oy),
        TView::ListBox(x) => x.draw_spec(grid, w, ox, oy),
        TView::InputLine(x) => x.draw_spec(grid, w, ox, oy),
        TView::StatusLine(x) => x.draw_spec(grid, w, ox, oy),
        TView::MenuBar(x) => x.draw_spec(grid, w, ox, oy),
        TView::DropDownMenu(x) => x.draw_spec(grid, w, ox, oy),
        TView::Dialog(d) => draw_children(
            d.children@,
            d.border_spec(grid, w, ox, oy),
            w,
            cap_off(ox + d.bounds.x + 1),
            cap_off(oy + d.bounds.y + 1),
            d.children@.len() as int,
        ),
        TView::FooterBar(b) => draw_children(
            b.children@,
            grid,
            w,
            cap_off(ox + b.bounds.x),
            cap_off(oy + b.bounds.y),
            b.children@.len() as int,
        ),
        TView::Root(r) => draw_children(r.children@, grid, w, ox, oy, r.children@.len() as int),
    }
}

/// The grid after the first `n` children have drawn themselves in order.
pub open spec fn draw_children(
    children: Seq<TView>,
    grid: Seq<char>,
    w: int,
    ox: int,
    oy: int,
    n: int,
) -> Seq<char>
    decreases children, n,
{
    if n <= 0 || n > children.len() {
        grid
    } else {
        draw_view(children[n - 1], draw_children(children, grid, w, ox, oy, n - 1), w, ox, oy)
    }
}

/// Whether the event is a key press of the given code.
pub open spec fn is_key_code(e: TEvent, code: TKeyCode) -> bool {
    e matches TEvent::Key(k) && k.code == code
}

/// How `handle_event` changes a view and which events it posts into the
/// queue (`posts` is what the call appended).
pub open spec fn view_steps_to(pre: TView, post: TView, e: TEvent, posts: Seq<TEvent>) -> bool
    decreases pre,
{
    match pre {
        TView::Label(_) => post == pre && posts == Seq::<TEvent>::empty(),
        TView::StatusLine(_) => post == pre && posts == Seq::<TEvent>::empty(),
        TView::Button(w) => post == pre && posts == w.step_posts(e),
        TView::CheckBoxes(w) => (match post {
            TView::CheckBoxes(w2) => w.steps_to(w2, e),
            _ => false,
        }) && posts == Seq::<TEvent>::empty(),
        TView::RadioButtons(w) => (match post {
            TView::RadioButtons(w2) => w.steps_to(w2, e),
            _ => false,
        }) && posts == Seq::<TEvent>::empty(),
        TView::ListBox(w) => (match post {
            TView::ListBox(w2) => w.steps_to(w2, e),
            _ => false,
        }) && posts == Seq::<TEvent>::empty(),
        TView::InputLine(w) => (match post {
            TView::InputLine(w2) => w.steps_to(w2, e),
            _ => false,
        }) && posts == Seq::<TEvent>::empty(),
        TView::MenuBar(w) => (match post {
            TView::MenuBar(w2) => w.steps_to(w2, e),
            _ => false,
        }) && posts == Seq::<TEvent>::empty(),
        TView::DropDownMenu(w) => (match post {
            TView::DropDownMenu(w2) => w.steps_to(w2, e),
            _ => false,
        }) && posts == w.step_posts(e),
        TView::Dialog(d) => match post {
            TView::Dialog(d2) => d2.title == d.title && d2.bounds == d.bounds
                && container_steps_to(d.children@, d.focus, d2.children@, d2.focus, e, posts),
            _ => false,
        },
        TView::FooterBar(b) => match post {
            TView::FooterBar(b2) => b2.bounds == b.bounds && container_steps_to(
                b.children@,
                b.focus,
                b2.children@,
                b2.focus,
                e,
                posts,
            ),
            _ => false,
        },
        TView::Root(r) => match post {
            TView::Root(r2) => r2.bounds == r.bounds && container_steps_to(
                r.children@,
                r.focus,
                r2.children@,
                r2.focus,
                e,
                posts,
            ),
            _ => false,
        },
    }
}

/// How any container routes one event: Tab and BackTab drive the focus
/// traversal and are consumed, never forwarded; every other event goes
/// verbatim to the child at the focus cursor only — unfocused children
/// never see it — and is silently dropped when no child holds focus.
pub open spec fn container_steps_to(
    pre_ch: Seq<TView>,
    pre_fm: crate::focus::FocusManager,
    post_ch: Seq<TView>,
    post_fm: crate::focus::FocusManager,
    e: TEvent,
    posts: Seq<TEvent>,
) -> bool
    decreases pre_ch,
{
    if is_key_code(e, TKeyCode::Tab) {
        posts == Seq::<TEvent>::empty() && crate::focus::focus_next_rel(
            pre_ch,
            pre_fm,
            post_ch,
            post_fm,
        )
    } else if is_key_code(e, TKeyCode::BackTab) {
        posts == Seq::<TEvent>::empty() && crate::focus::focus_prev_rel(
            pre_ch,
            pre_fm,
            post_ch,
            post_fm,
        )
    } else {
        &&& post_fm == pre_fm
        &&& if (pre_fm.index as int) < pre_ch.len() {
            &&& post_ch.len() == pre_ch.len()
            &&& (forall|j: int|
                0 <= j < pre_ch.len() && j != pre_fm.index ==> post_ch[j] == pre_ch[j])
            &&& view_steps_to(pre_ch[pre_fm.index as int], post_ch[pre_fm.index as int], e, posts)
        } else {
            post_ch == pre_ch && posts == Seq::<TEvent>::empty()
        }
    }
}

/// Dispatch law: an event that is not a focus-traversal key, delivered to
/// a container whose cursor is in range, is handled by the child at the
/// cursor and observed by no other child: every other child is exactly as
/// it was, and the cursor does not move.
pub proof fn lemma_container_dispatch(
    pre_ch: Seq<TView>,
    pre_fm: crate::focus::FocusManager,
    post_ch: Seq<TView>,
    post_fm: crate::focus::FocusManager,
    e: TEvent,
    posts: Seq<TEvent>,
)
    requires
        container_steps_to(pre_ch, pre_fm, post_ch, post_fm, e, posts),
        !is_key_code(e, TKeyCode::Tab),
        !is_key_code(e, TKeyCode::BackTab),
        (pre_fm.index as int) < pre_ch.len(),
    ensures
        post_fm == pre_fm,
        post_ch.len() == pre_ch.len(),
        forall|j: int| 0 <= j < pre_ch.len() && j != pre_fm.index ==> post_ch[j] == pre_ch[j],
        view_steps_to(pre_ch[pre_fm.index as int], post_ch[pre_fm.index as int], e, posts),
{
}

impl TView {
    /// Whether this view accepts focus.
    pub fn is_focusable(&self) -> (r: bool)
        ensures
            r == focusable(*self),
    {
        match self {
            TView::Button(_) => true,
            TView::RadioButtons(_) => true,
            TView::ListBox(_) => true,
            TView::InputLine(_) => true,
            TView::StatusLine(_) => true,
            TView::DropDownMenu(_) => true,
            TView::Dialog(_) => true,
            TView::FooterBar(_) => true,
            TView::Root(_) => true,
            _ => false,
        }
    }

    /// The view's bounding rectangle.
    pub fn get_bounds(&self) -> (r: TRect)
        ensures
            r == view_bounds(*self),
    {
        match self {
            TView::Label(w) => w.bounds,
            TView::Button(w) => w.bounds,
            TView::CheckBoxes(w) => w.bounds,
            TView::RadioButtons(w) => w.bounds,
            TView::ListBox(w) => w.bounds,
            TView::InputLine(w) => w.bounds,
            TView::StatusLine(w) => w.bounds,
            TView::MenuBar(w) => w.bounds,
            TView::DropDownMenu(w) => w.bounds,
            TView::Dialog(w) => w.bounds,
            TView::FooterBar(w) => w.bounds,
            TView::Root(w) => w.bounds,
        }
    }

    /// Replaces the view's bounding rectangle.
    pub fn set_bounds(&mut self, bounds: TRect)
        ensures
            *final(self) == with_view_bounds(*old(self), bounds),
    {
        match self {
            TView::Label(w) => w.bounds = bounds,
            TView::Button(w) => w.bounds = bounds,
            TView::CheckBoxes(w) => w.bounds = bounds,
            TView::RadioButtons(w) => w.bounds = bounds,
            TView::ListBox(w) => w.bounds = bounds,
            TView::InputLine(w) => w.bounds = bounds,
            TView::StatusLine(w) => w.bounds = bounds,
            TView::MenuBar(w) => w.bounds = bounds,
            TView::DropDownMenu(w) => w.bounds = bounds,
            TView::Dialog(w) => w.bounds = bounds,
            TView::FooterBar(w) => w.bounds = bounds,
            TView::Root(w) => w.bounds = bounds,
        }
    }


    /// Draws this view into the buffer at the given offset. Offsets beyond
    /// the 16-bit coordinate range are already off screen and clip away.
    pub fn draw(&self, buffer: &mut ScreenBuffer, offset: (u32, u32))
        requires
            view_wf(*self),
            old(buffer).wf(),
            offset.0 <= 0x10000,
            offset.1 <= 0x10000,
        ensures
            final(buffer).wf(),
            final(buffer).spec_width() == old(buffer).spec_width(),
            final(buffer).spec_height() == old(buffer).spec_height(),
            final(buffer).grid() == draw_view(
                *self,
                old(buffer).grid(),
                old(buffer).spec_width() as int,
                offset.0 as int,
                offset.1 as int,
            ),
        decreases *self,
    {
        match self {
            TView::Label(x) => x.draw(buffer, offset),
            TView::Button(x) => x.draw(buffer, offset),
            TView::CheckBoxes(x) => x.draw(buffer, offset),
            TView::RadioButtons(x) => x.draw(buffer, offset),
            TView::ListBox(x) => x.draw(buffer, offset),
            TView::InputLine(x) => x.draw(buffer, offset),
            TView::StatusLine(x) => x.draw(buffer, offset),
            TView::MenuBar(x) => x.draw(buffer, offset),
            TView::DropDownMenu(x) => x.draw(buffer, offset),
            TView::Dialog(d) => d.draw(buffer, offset),
            TView::FooterBar(b) => b.draw(buffer, offset),
            TView::Root(r) => r.draw(buffer, offset),
        }
    }

    /// Handles one event: a leaf reacts as its kind prescribes; a
    /// container consumes Tab/BackTab for focus traversal and forwards
    /// everything else to its focused child only. Whatever a view posts is
    /// appended to the queue; nothing already queued is touched.
    pub fn handle_event(&mut self, event: &TEvent, queue: &mut TEventQueue)
        requires
            view_wf(*old(self)),
        ensures
            view_wf(*final(self)),
            final(queue)@.len() >= old(queue)@.len(),
            final(queue)@.take(old(queue)@.len() as int) == old(queue)@,
            view_steps_to(
                *old(self),
                *final(self),
                *event,
                final(queue)@.skip(old(queue)@.len() as int),
            ),
        decreases *old(self),
    {
        let ghost q0 = queue@;
        match self {
            TView::Label(w) => {
                w.handle_event(event, queue);
                assert(queue@.skip(q0.len() as int) =~= Seq::<TEvent>::empty());
                assert(queue@.take(q0.len() as int) =~= q0);
            },
            TView::StatusLine(w) => {
                w.handle_event(event, queue);
                assert(queue@.skip(q0.len() as int) =~= Seq::<TEvent>::empty());
                assert(queue@.take(q0.len() as int) =~= q0);
            },
            TView::Button(w) => {
                w.handle_event(event, queue);
                assert(queue@.skip(q0.len() as int) =~= old(self)->Button_0.step_posts(*event));
                assert(queue@.take(q0.len() as int) =~= q0);
            },
            TView::CheckBoxes(w) => {
                w.handle_event(event, queue);
                assert(queue@.skip(q0.len() as int) =~= Seq::<TEvent>::empty());
                assert(queue@.take(q0.len() as int) =~= q0);
            },
            TView::RadioButtons(w) => {
                w.handle_event(event, queue);
                assert(queue@.skip(q0.len() as int) =~= Seq::<TEvent>::empty());
                assert(queue@.take(q0.len() as int) =~= q0);
            },
            TView::ListBox(w) => {
                w.handle_event(event, queue);
                assert(queue@.skip(q0.len() as int) =~= Seq::<TEvent>::empty());
                assert(queue@.take(q0.len() as int) =~= q0);
            },
            TView::InputLine(w) => {
                w.handle_event(event, queue);
                assert(queue@.skip(q0.len() as int) =~= Seq::<TEvent>::empty());
                assert(queue@.take(q0.len() as int) =~= q0);
            },
            TView::MenuBar(w) => {
                w.handle_event(event, queue);
                assert(queue@.skip(q0.len() as int) =~= Seq::<TEvent>::empty());
                assert(queue@.take(q0.len() as int) =~= q0);
            },
            TView::DropDownMenu(w) => {
                w.handle_event(event, queue);
assert(queue@.skip(q0.len() as int) =~= old(self)->DropDownMenu_0.step_posts(*event));
                assert(queue@.take(q0.len() as int) =~= q0);
            },
            TView::Dialog(d) => {
                d.handle_event(event, queue);
            },
            TView::FooterBar(b) => {
                b.handle_event(event, queue);
            },
            TView::Root(r) => {
                r.handle_event(event, queue);
            },
        }
    }

    /// Gives or takes focus. A kind without a focus flag ignores the call;
    /// a container forwards it to the child its cursor points at.
    pub fn set_focus(&mut self, focused: bool)
        ensures
            sets_focus_to(*old(self), *final(self), focused),
        decreases *old(self),
    {
        match self {
            TView::Label(_) => {},
            TView::Button(w) => w.focused = focused,
            TView::CheckBoxes(w) => w.focused = focused,
            TView::RadioButtons(w) => w.focused = focused,
            TView::ListBox(w) => w.focused = focused,
            TView::InputLine(w) => w.focused = focused,
            TView::StatusLine(_) => {},
            TView::MenuBar(_) => {},
            TView::DropDownMenu(w) => w.focused = focused,
            TView::Dialog(d) => {
                let idx = d.focus.index;
                if idx < d.children.len() {
                    d.children[idx].set_focus(focused);
                }
            },
            TView::FooterBar(b) => {
                let idx = b.focus.index;
                if idx < b.children.len() {
                    b.children[idx].set_focus(focused);
                }
            },
            TView::Root(r) => {
                let idx = r.focus.index;
                if idx < r.children.len() {
                    r.children[idx].set_focus(focused);
                }
            },
        }
    }
}

} // verus!
