use rustyvision::app::TApplication;
use rustyvision::event::TEvent;
use rustyvision::event::TEventQueue;
use rustyvision::event::TKeyCode;
use rustyvision::event::TKeyEvent;
use rustyvision::focus::FocusManager;
use rustyvision::rect::TRect;
use rustyvision::screenbuffer::ScreenBuffer;
use rustyvision::view::TView;
use rustyvision::widgets::button::TButton;
use rustyvision::widgets::dialog::TDialog;
use rustyvision::widgets::footerbar::TFooterBar;
use rustyvision::widgets::label::TLabel;
use rustyvision::widgets::listbox::TListBox;
use rustyvision::widgets::root::RootContainer;

fn key(code: TKeyCode) -> TEvent {
    TEvent::Key(TKeyEvent { code, modifiers: 0 })
}

fn label(name: &str) -> TView {
    TView::Label(TLabel::new(name, TRect::new(0, 0, 5, 1)))
}

fn button(name: &str) -> TView {
    TView::Button(TButton::new(name, TRect::new(0, 0, 6, 1)))
}

fn is_focused(v: &TView) -> bool {
    match v {
        TView::Button(b) => b.focused,
        _ => false,
    }
}

#[test]
fn focus_next_skips_non_focusable_children() {
    // Five children, focusable only at indices 1 and 3, starting at 1:
    // next lands on 3, and a further next comes back to 1.
    let mut children = vec![label("a"), button("b"), label("c"), button("d"), label("e")];
    let mut fm = FocusManager::new();
    fm.set_focus(&mut children, 1);
    assert_eq!(fm.index, 1);
    fm.focus_next(&mut children);
    assert_eq!(fm.index, 3);
    assert!(is_focused(&children[3]));
    assert!(!is_focused(&children[1]));
    fm.focus_next(&mut children);
    assert_eq!(fm.index, 1);
    assert!(is_focused(&children[1]));
    assert!(!is_focused(&children[3]));
}

#[test]
fn focus_cycle_returns_after_focusable_count_steps() {
    // Two focusable children: exactly two calls bring the cursor back.
    let mut children = vec![label("a"), button("b"), label("c"), button("d"), label("e")];
    let mut fm = FocusManager::new();
    fm.set_focus(&mut children, 1);
    fm.focus_next(&mut children);
    fm.focus_next(&mut children);
    assert_eq!(fm.index, 1);
}

#[test]
fn focus_prev_walks_backwards() {
    let mut children = vec![button("a"), label("b"), button("c")];
    let mut fm = FocusManager::new();
    fm.set_focus(&mut children, 0);
    fm.focus_prev(&mut children);
    assert_eq!(fm.index, 2);
    fm.focus_prev(&mut children);
    assert_eq!(fm.index, 0);
}

#[test]
fn focus_next_on_empty_list_is_a_no_op() {
    let mut children: Vec<TView> = vec![];
    let mut fm = FocusManager::new();
    fm.focus_next(&mut children);
    assert_eq!(fm.index, 0);
    fm.focus_prev(&mut children);
    assert_eq!(fm.index, 0);
}

#[test]
fn focus_next_with_no_focusable_child_walks_all_the_way_around() {
    let mut children = vec![label("a"), label("b"), label("c")];
    let mut fm = FocusManager::new();
    fm.focus_next(&mut children);
    assert_eq!(fm.index, 0);
}

#[test]
fn set_focus_rejects_out_of_range_and_non_focusable_targets() {
    let mut children = vec![label("a"), button("b")];
    let mut fm = FocusManager::new();
    fm.set_focus(&mut children, 1);
    assert_eq!(fm.index, 1);
    // Non-focusable target: complete no-op.
    fm.set_focus(&mut children, 0);
    assert_eq!(fm.index, 1);
    assert!(is_focused(&children[1]));
    // Out-of-range target: complete no-op.
    fm.set_focus(&mut children, 9);
    assert_eq!(fm.index, 1);
    assert!(is_focused(&children[1]));
}

#[test]
fn current_returns_child_at_cursor() {
    let children = vec![label("a"), button("b")];
    let fm = FocusManager { index: 1 };
    assert!(matches!(fm.current(&children), Some(TView::Button(_))));
    let fm2 = FocusManager { index: 5 };
    assert!(fm2.current(&children).is_none());
}

#[test]
fn first_focusable_child_added_gets_focus_and_keeps_it() {
    let mut dlg = TDialog::new("T", TRect::new(0, 0, 20, 10));
    dlg.add_child(button("ok"));
    assert!(is_focused(&dlg.children[0]));
    dlg.add_child(button("no"));
    assert!(is_focused(&dlg.children[0]));
    assert!(!is_focused(&dlg.children[1]));
}

#[test]
fn non_focusable_first_child_gets_no_focus() {
    let mut dlg = TDialog::new("T", TRect::new(0, 0, 20, 10));
    dlg.add_child(label("hint"));
    dlg.add_child(button("ok"));
    assert!(!is_focused(&dlg.children[1]));
}

#[test]
fn container_forwards_events_to_focused_child_only() {
    let mut root = RootContainer::new(TRect::new(0, 0, 40, 10));
    let items = vec!["x", "y", "z"];
    root.add_child(TView::ListBox(TListBox::new(TRect::new(0, 0, 10, 3), items.clone())));
    root.add_child(TView::ListBox(TListBox::new(TRect::new(12, 0, 10, 3), items)));
    let mut q = TEventQueue::new();
    root.handle_event(&key(TKeyCode::Down), &mut q);
    match (&root.children[0], &root.children[1]) {
        (TView::ListBox(a), TView::ListBox(b)) => {
            assert_eq!(a.selected_index, 1);
            assert_eq!(b.selected_index, 0);
        },
        _ => panic!("children changed kind"),
    }
}

#[test]
fn container_consumes_tab_and_moves_focus() {
    let mut dlg = TDialog::new("T", TRect::new(0, 0, 20, 10));
    dlg.add_child(button("a"));
    dlg.add_child(label("b"));
    dlg.add_child(button("c"));
    let mut q = TEventQueue::new();
    dlg.handle_event(&key(TKeyCode::Tab), &mut q);
    assert_eq!(dlg.focus.index, 2);
    assert!(is_focused(&dlg.children[2]));
    assert!(!is_focused(&dlg.children[0]));
    dlg.handle_event(&key(TKeyCode::BackTab), &mut q);
    assert_eq!(dlg.focus.index, 0);
    assert!(is_focused(&dlg.children[0]));
    assert!(!q.has_pending());
}

#[test]
fn container_with_no_children_drops_events() {
    let mut fb = TFooterBar::new(TRect::new(0, 0, 10, 1));
    let mut q = TEventQueue::new();
    fb.handle_event(&key(TKeyCode::Enter), &mut q);
    fb.handle_event(&key(TKeyCode::Tab), &mut q);
    assert!(!q.has_pending());
    assert_eq!(fb.focus.index, 0);
}

#[test]
fn nested_button_press_reaches_the_queue() {
    let mut footer = TFooterBar::new(TRect::new(0, 9, 40, 1));
    let mut quit = TButton::new("Quit", TRect::new(30, 0, 8, 1));
    quit.set_callback(9999);
    footer.add_child(TView::Button(quit));
    let mut root = RootContainer::new(TRect::new(0, 0, 40, 10));
    root.add_child(TView::FooterBar(footer));
    let mut q = TEventQueue::new();
    root.handle_event(&key(TKeyCode::Enter), &mut q);
    assert_eq!(q.get_event(), Some(TEvent::Command(9999)));
}

#[test]
fn dialog_draws_border_title_and_children() {
    let mut dlg = TDialog::new("Hi", TRect::new(0, 0, 10, 3));
    dlg.add_child(TView::Label(TLabel::new("ab", TRect::new(0, 0, 2, 1))));
    let mut sb = ScreenBuffer::new(10, 3);
    let view = TView::Dialog(dlg);
    view.draw(&mut sb, (0, 0));
    assert_eq!(
        sb.flush_to_string(),
        "\x1B[1;1H\u{250c}\u{2500}\u{2500} Hi \u{2500}\u{2500}\u{2510}\
         \x1B[2;1H\u{2502}ab      \u{2502}\
         \x1B[3;1H\u{2514}\u{2500}\u{2500}\u{2500}\u{2500}\u{2500}\u{2500}\u{2500}\u{2500}\u{2518}"
    );
}

#[test]
fn dialog_draws_at_the_given_offset() {
    // Decoration goes to the offset position; children follow at the
    // content origin just inside the border.
    let mut dlg = TDialog::new("Hi", TRect::new(0, 0, 10, 3));
    dlg.add_child(TView::Label(TLabel::new("ab", TRect::new(0, 0, 2, 1))));
    let mut sb = ScreenBuffer::new(11, 3);
    TView::Dialog(dlg).draw(&mut sb, (1, 0));
    assert_eq!(
        sb.flush_to_string(),
        "\x1B[1;1H \u{250c}\u{2500}\u{2500} Hi \u{2500}\u{2500}\u{2510}\
         \x1B[2;1H \u{2502}ab      \u{2502}\
         \x1B[3;1H \u{2514}\u{2500}\u{2500}\u{2500}\u{2500}\u{2500}\u{2500}\u{2500}\u{2500}\u{2518}"
    );
}

#[test]
fn dialog_nested_in_footer_bar_is_offset_by_the_bar() {
    let mut dlg = TDialog::new("Hi", TRect::new(0, 0, 10, 3));
    dlg.add_child(TView::Label(TLabel::new("ab", TRect::new(0, 0, 2, 1))));
    let mut bar = TFooterBar::new(TRect::new(1, 0, 10, 3));
    bar.add_child(TView::Dialog(dlg));
    let mut sb = ScreenBuffer::new(11, 3);
    TView::FooterBar(bar).draw(&mut sb, (0, 0));
    assert_eq!(
        sb.flush_to_string(),
        "\x1B[1;1H \u{250c}\u{2500}\u{2500} Hi \u{2500}\u{2500}\u{2510}\
         \x1B[2;1H \u{2502}ab      \u{2502}\
         \x1B[3;1H \u{2514}\u{2500}\u{2500}\u{2500}\u{2500}\u{2500}\u{2500}\u{2500}\u{2500}\u{2518}"
    );
}

#[test]
fn later_children_draw_over_earlier_ones() {
    let mut root = RootContainer::new(TRect::new(0, 0, 6, 1));
    root.add_child(TView::Label(TLabel::new("aaa", TRect::new(0, 0, 3, 1))));
    root.add_child(TView::Label(TLabel::new("b", TRect::new(1, 0, 1, 1))));
    let mut sb = ScreenBuffer::new(6, 1);
    TView::Root(root).draw(&mut sb, (0, 0));
    assert_eq!(sb.flush_to_string(), "\x1B[1;1Haba   ");
}

#[test]
fn application_quit_command_clears_running() {
    let root = RootContainer::new(TRect::new(0, 0, 10, 5));
    let mut app = TApplication::new(TView::Root(root), 10, 5);
    assert!(app.running);
    app.handle_event(TEvent::Command(0));
    assert!(app.running);
    app.handle_event(TEvent::Command(7));
    assert!(app.running);
    app.handle_event(TEvent::Command(9999));
    assert!(!app.running);
}

#[test]
fn application_forwards_other_events_to_root() {
    let mut root = RootContainer::new(TRect::new(0, 0, 40, 10));
    let mut b = TButton::new("go", TRect::new(0, 0, 6, 1));
    b.set_callback(5);
    root.add_child(TView::Button(b));
    let mut app = TApplication::new(TView::Root(root), 40, 10);
    app.handle_event(key(TKeyCode::Enter));
    assert_eq!(app.queue.get_event(), Some(TEvent::Command(5)));
}

#[test]
fn application_put_event_queues_for_the_loop() {
    let root = RootContainer::new(TRect::new(0, 0, 10, 5));
    let mut app = TApplication::new(TView::Root(root), 10, 5);
    app.put_event(TEvent::Command(3));
    assert!(app.queue.has_pending());
    assert_eq!(app.queue.get_event(), Some(TEvent::Command(3)));
}

#[test]
fn view_bounds_round_trip() {
    let mut v = button("ok");
    assert_eq!(v.get_bounds(), TRect::new(0, 0, 6, 1));
    v.set_bounds(TRect::new(2, 3, 4, 5));
    assert_eq!(v.get_bounds(), TRect::new(2, 3, 4, 5));
    assert!(v.is_focusable());
    assert!(!label("x").is_focusable());
}
