use rustyvision::event::TEvent;
use rustyvision::event::TEventQueue;
use rustyvision::event::TKeyCode;
use rustyvision::event::TKeyEvent;
use rustyvision::rect::TPoint;
use rustyvision::rect::TRect;
use rustyvision::screenbuffer::ScreenBuffer;
use rustyvision::widgets::button::TButton;
use rustyvision::widgets::checkboxes::TCheckBoxes;
use rustyvision::widgets::dropdownmenu::TDropDownMenu;
use rustyvision::widgets::inputline::TInputLine;
use rustyvision::widgets::label::TLabel;
use rustyvision::widgets::listbox::TListBox;
use rustyvision::widgets::menu::TMenu;
use rustyvision::widgets::menu::TMenuItem;
use rustyvision::widgets::menubar::MenuItem;
use rustyvision::widgets::menubar::TMenuBar;
use rustyvision::widgets::radiobuttons::TRadioButtons;
use rustyvision::widgets::statusline::TStatusLine;

fn key(code: TKeyCode) -> TEvent {
    TEvent::Key(TKeyEvent { code, modifiers: 0 })
}

#[test]
fn rect_contains_points() {
    let r = TRect::new(2, 3, 4, 5);
    assert!(r.contains(TPoint { x: 2, y: 3 }));
    assert!(r.contains(TPoint { x: 5, y: 7 }));
    assert!(!r.contains(TPoint { x: 6, y: 3 }));
    assert!(!r.contains(TPoint { x: 1, y: 3 }));
    let empty = TRect::new(2, 3, 0, 5);
    assert!(!empty.contains(TPoint { x: 2, y: 3 }));
}

#[test]
fn button_renders_fitted_label() {
    let b = TButton::new("OK", TRect::new(0, 0, 8, 1));
    assert_eq!(b.render_label(), "[OK]    ");
    let long = TButton::new("Continue", TRect::new(0, 0, 5, 1));
    assert_eq!(long.render_label(), "[Cont");
}

#[test]
fn button_press_posts_its_command() {
    let mut b = TButton::new("OK", TRect::new(0, 0, 8, 1));
    let mut q = TEventQueue::new();
    b.handle_event(&key(TKeyCode::Enter), &mut q);
    assert!(!q.has_pending());
    b.set_callback(42);
    b.handle_event(&key(TKeyCode::Enter), &mut q);
    assert_eq!(q.get_event(), Some(TEvent::Command(42)));
    b.handle_event(&key(TKeyCode::Char(' ')), &mut q);
    assert_eq!(q.get_event(), Some(TEvent::Command(42)));
    b.handle_event(&key(TKeyCode::Char('x')), &mut q);
    assert!(!q.has_pending());
}

#[test]
fn checkboxes_move_and_toggle() {
    let mut cb = TCheckBoxes::new(TRect::new(0, 0, 20, 3), vec!["a", "b", "c"]);
    let mut q = TEventQueue::new();
    assert!(!cb.is_checked(0));
    cb.handle_event(&key(TKeyCode::Down), &mut q);
    cb.handle_event(&key(TKeyCode::Enter), &mut q);
    assert!(cb.is_checked(1));
    assert!(!cb.is_checked(0));
    cb.handle_event(&key(TKeyCode::Char(' ')), &mut q);
    assert!(!cb.is_checked(1));
    cb.handle_event(&key(TKeyCode::Down), &mut q);
    cb.handle_event(&key(TKeyCode::Down), &mut q);
    assert_eq!(cb.selected, 2);
    cb.handle_event(&key(TKeyCode::Up), &mut q);
    assert_eq!(cb.selected, 1);
    assert!(!cb.is_checked(7));
    assert!(!q.has_pending());
}

#[test]
fn radiobuttons_select_focused_item() {
    let mut rb = TRadioButtons::new(TRect::new(0, 0, 20, 3), vec!["one", "two", "three"]);
    let mut q = TEventQueue::new();
    assert_eq!(rb.selected_item(), Some("one"));
    rb.handle_event(&key(TKeyCode::Down), &mut q);
    assert_eq!(rb.selected_item(), Some("one"));
    rb.handle_event(&key(TKeyCode::Enter), &mut q);
    assert_eq!(rb.selected_item(), Some("two"));
    rb.handle_event(&key(TKeyCode::Up), &mut q);
    rb.handle_event(&key(TKeyCode::Char(' ')), &mut q);
    assert_eq!(rb.selected_item(), Some("one"));
}

#[test]
fn listbox_moves_and_scrolls() {
    let mut lb = TListBox::new(
        TRect::new(0, 0, 10, 2),
        vec!["alpha", "beta", "gamma", "delta", "epsilon"],
    );
    let mut q = TEventQueue::new();
    assert_eq!(lb.selected_item(), Some("alpha"));
    lb.handle_event(&key(TKeyCode::Down), &mut q);
    lb.handle_event(&key(TKeyCode::Down), &mut q);
    assert_eq!(lb.selected_item(), Some("gamma"));
    assert_eq!(lb.scroll_offset, 1);
    lb.handle_event(&key(TKeyCode::PageDown), &mut q);
    assert_eq!(lb.selected_item(), Some("epsilon"));
    lb.handle_event(&key(TKeyCode::PageDown), &mut q);
    assert_eq!(lb.selected_item(), Some("epsilon"));
    lb.handle_event(&key(TKeyCode::PageUp), &mut q);
    assert_eq!(lb.selected_item(), Some("gamma"));
    lb.handle_event(&key(TKeyCode::Up), &mut q);
    lb.handle_event(&key(TKeyCode::Up), &mut q);
    lb.handle_event(&key(TKeyCode::Up), &mut q);
    assert_eq!(lb.selected_item(), Some("alpha"));
    assert_eq!(lb.scroll_offset, 0);
}

#[test]
fn inputline_edits_at_cursor() {
    let mut il = TInputLine::new(TRect::new(0, 0, 10, 1));
    let mut q = TEventQueue::new();
    il.handle_event(&key(TKeyCode::Char('h')), &mut q);
    il.handle_event(&key(TKeyCode::Char('i')), &mut q);
    assert_eq!(il.get_value(), "hi");
    il.handle_event(&key(TKeyCode::Left), &mut q);
    il.handle_event(&key(TKeyCode::Char('e')), &mut q);
    assert_eq!(il.get_value(), "hei");
    il.handle_event(&key(TKeyCode::Backspace), &mut q);
    assert_eq!(il.get_value(), "hi");
    il.handle_event(&key(TKeyCode::Home), &mut q);
    il.handle_event(&key(TKeyCode::Delete), &mut q);
    assert_eq!(il.get_value(), "i");
    il.handle_event(&key(TKeyCode::End), &mut q);
    il.handle_event(&key(TKeyCode::Char('!')), &mut q);
    assert_eq!(il.get_value(), "i!");
}

#[test]
fn inputline_set_value_moves_cursor_to_end() {
    let mut il = TInputLine::new(TRect::new(0, 0, 10, 1));
    il.set_value("abc");
    assert_eq!(il.get_value(), "abc");
    assert_eq!(il.cursor_pos, 3);
}

#[test]
fn statusline_replaces_text() {
    let mut sl = TStatusLine::new("ready", TRect::new(0, 0, 8, 1));
    sl.set_text("busy");
    let mut sb = ScreenBuffer::new(8, 1);
    sl.draw(&mut sb, (0, 0));
    assert_eq!(sb.flush_to_string(), "\x1B[1;1Hbusy    ");
}

#[test]
fn label_draws_fitted() {
    let l = TLabel::new("Name:", TRect::new(1, 0, 3, 1));
    let mut sb = ScreenBuffer::new(6, 1);
    l.draw(&mut sb, (0, 0));
    assert_eq!(sb.flush_to_string(), "\x1B[1;1H Nam  ");
}

#[test]
fn menu_item_parses_tilde_hotkey() {
    let it = TMenuItem::new("~O~pen", 7);
    assert_eq!(it.hotkey(), Some('o'));
    assert_eq!(it.clean_label(), "Open");
    let plain = TMenuItem::new("Quit", 9);
    assert_eq!(plain.hotkey(), None);
    assert_eq!(plain.clean_label(), "Quit");
}

#[test]
fn menu_builders_compose() {
    let it = TMenuItem::new("~S~ave", 3)
        .with_keycode(TKeyCode::F(2))
        .with_help_context(11)
        .disabled(true);
    assert_eq!(it.keycode, Some(TKeyCode::F(2)));
    assert_eq!(it.help_context, Some(11));
    assert!(it.disabled);
    let mut m = TMenu::new(vec![it]);
    assert_eq!(m.len(), 1);
    assert!(!m.is_empty());
    m.add_item(TMenuItem::new("Quit", 4));
    assert_eq!(m.len(), 2);
}

#[test]
fn menubar_item_parses_ampersand_hotkey() {
    let it = MenuItem::new("&File");
    assert_eq!(it.label, "File");
    assert_eq!(it.hotkey, Some('f'));
}

#[test]
fn menubar_activates_and_cycles() {
    let items = vec![MenuItem::new("&File"), MenuItem::new("&Edit"), MenuItem::new("&Help")];
    let mut bar = TMenuBar::new(items, TRect::new(0, 0, 30, 1));
    let mut q = TEventQueue::new();
    assert!(!bar.is_active);
    bar.handle_event(&key(TKeyCode::F(10)), &mut q);
    assert!(bar.is_active);
    assert_eq!(bar.active_index, Some(0));
    bar.handle_event(&key(TKeyCode::Left), &mut q);
    assert_eq!(bar.active_index, Some(2));
    bar.handle_event(&key(TKeyCode::Right), &mut q);
    assert_eq!(bar.active_index, Some(0));
    bar.handle_event(&key(TKeyCode::Esc), &mut q);
    assert!(!bar.is_active);
    assert_eq!(bar.active_index, None);
}

#[test]
fn menubar_draws_hotkeys_upper_cased() {
    let items = vec![MenuItem::new("&File")];
    let bar = TMenuBar::new(items, TRect::new(0, 0, 8, 1));
    let mut sb = ScreenBuffer::new(8, 1);
    bar.draw(&mut sb, (0, 0));
    assert_eq!(sb.flush_to_string(), "\x1B[1;1H File   ");
}

#[test]
fn dropdown_skips_disabled_items_and_posts_commands() {
    let menu = TMenu::new(vec![
        TMenuItem::new("~N~ew", 10),
        TMenuItem::new("~O~pen", 11).disabled(true),
        TMenuItem::new("~S~ave", 12),
    ]);
    let mut dd = TDropDownMenu::new(menu, TRect::new(0, 0, 10, 3));
    let mut q = TEventQueue::new();
    dd.handle_event(&key(TKeyCode::Down), &mut q);
    assert_eq!(dd.selected_index, 2);
    dd.handle_event(&key(TKeyCode::Enter), &mut q);
    assert_eq!(q.get_event(), Some(TEvent::Command(12)));
    dd.handle_event(&key(TKeyCode::Up), &mut q);
    assert_eq!(dd.selected_index, 0);
    dd.handle_event(&key(TKeyCode::Esc), &mut q);
    assert_eq!(q.get_event(), Some(TEvent::Command(0)));
}

#[test]
fn dropdown_enter_on_disabled_posts_nothing() {
    let menu = TMenu::new(vec![TMenuItem::new("~N~ew", 10).disabled(true)]);
    let mut dd = TDropDownMenu::new(menu, TRect::new(0, 0, 10, 1));
    let mut q = TEventQueue::new();
    dd.handle_event(&key(TKeyCode::Enter), &mut q);
    assert!(!q.has_pending());
}
