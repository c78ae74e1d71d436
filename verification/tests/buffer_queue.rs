use rustyvision::screenbuffer::ScreenBuffer;
use rustyvision::event::TEvent;
use rustyvision::event::TEventQueue;
use rustyvision::event::TKeyCode;
use rustyvision::event::TKeyEvent;

fn key(code: TKeyCode) -> TEvent {
    TEvent::Key(TKeyEvent { code, modifiers: 0 })
}

#[test]
fn cleared_buffer_flushes_blank_rows() {
    let sb = ScreenBuffer::new(3, 2);
    assert_eq!(sb.flush_to_string(), "\x1B[1;1H   \x1B[2;1H   ");
}

#[test]
fn flush_addresses_rows_in_order() {
    let mut sb = ScreenBuffer::new(2, 3);
    sb.set(0, 0, 'a');
    sb.set(1, 2, 'z');
    assert_eq!(sb.flush_to_string(), "\x1B[1;1Ha \x1B[2;1H  \x1B[3;1H z");
}

#[test]
fn write_str_clips_at_right_edge_and_touches_one_row() {
    let mut sb = ScreenBuffer::new(4, 3);
    sb.write_str(2, 1, "hello");
    // Row 1 holds the first two characters, clipped at column 3.
    assert_eq!(sb.flush_to_string(), "\x1B[1;1H    \x1B[2;1H  he\x1B[3;1H    ");
}

#[test]
fn set_outside_bounds_is_a_silent_no_op() {
    let mut sb = ScreenBuffer::new(2, 2);
    sb.set(2, 0, 'x');
    sb.set(0, 2, 'y');
    sb.set(65535, 65535, 'z');
    assert_eq!(sb.flush_to_string(), "\x1B[1;1H  \x1B[2;1H  ");
}

#[test]
fn clear_resets_every_cell() {
    let mut sb = ScreenBuffer::new(2, 2);
    sb.write_str(0, 0, "ab");
    sb.write_str(0, 1, "cd");
    sb.clear();
    assert_eq!(sb.flush_to_string(), "\x1B[1;1H  \x1B[2;1H  ");
}

#[test]
fn zero_sized_buffer_flushes_prefixes_only() {
    let sb = ScreenBuffer::new(0, 2);
    assert_eq!(sb.flush_to_string(), "\x1B[1;1H\x1B[2;1H");
}

#[test]
fn flush_addresses_two_digit_rows() {
    let sb = ScreenBuffer::new(1, 11);
    let out = sb.flush_to_string();
    assert!(out.ends_with("\x1B[10;1H \x1B[11;1H "));
}

#[test]
fn queue_drains_last_in_first_out() {
    let mut q = TEventQueue::new();
    q.put_event(TEvent::Command(1));
    q.put_event(TEvent::Command(2));
    q.put_event(TEvent::Command(3));
    assert_eq!(q.get_event(), Some(TEvent::Command(3)));
    assert_eq!(q.get_event(), Some(TEvent::Command(2)));
    assert_eq!(q.get_event(), Some(TEvent::Command(1)));
    assert_eq!(q.get_event(), None);
}

#[test]
fn queue_reports_pending_without_mutating() {
    let mut q = TEventQueue::new();
    assert!(!q.has_pending());
    q.put_event(key(TKeyCode::Enter));
    assert!(q.has_pending());
    assert!(q.has_pending());
    assert_eq!(q.get_event(), Some(key(TKeyCode::Enter)));
    assert!(!q.has_pending());
}

#[test]
fn queue_mixes_event_kinds() {
    let mut q = TEventQueue::new();
    q.put_event(TEvent::Null);
    q.put_event(key(TKeyCode::Char('x')));
    assert_eq!(q.get_event(), Some(key(TKeyCode::Char('x'))));
    assert_eq!(q.get_event(), Some(TEvent::Null));
}
