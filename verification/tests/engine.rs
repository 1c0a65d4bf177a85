use termbox::{
    cell_at, change_cell, clear, color, cursor, event, feed, height, hide_cursor, init, is_active,
    key, notify_resize, peek_event, poll_event, present, print, print_ch, set_cursor, shutdown,
    style, undecoded, width, Cell, Engine, InitError, Startup, Step, Wait,
};

const GREETING: &[u8] = b"\x1b[?1049h\x1b[?25l\x1b[0;37;40m\x1b[2J";
const PARTING: &[u8] = b"\x1b[?25h\x1b[0m\x1b[2J\x1b[?1049l";
const BLANK: Cell = Cell { ch: 0x20, fg: 0x07, bg: 0x00 };

fn start(w: u16, h: u16) -> Engine {
    let mut eng = init(Startup::Ready(w, h)).unwrap();
    assert_eq!(present(&mut eng), GREETING);
    eng
}

fn find(haystack: &[u8], needle: &[u8], from: usize) -> Option<usize> {
    (from..=haystack.len().saturating_sub(needle.len())).find(|&i| haystack[i..].starts_with(needle))
}

#[test]
fn init_fails_without_a_terminal() {
    assert_eq!(init(Startup::NotATerminal).unwrap_err(), InitError::NotATerminal);
}

#[test]
fn init_fails_without_raw_mode() {
    assert_eq!(init(Startup::RawModeFailed).unwrap_err(), InitError::RawModeFailed);
}

#[test]
fn init_allocates_at_the_terminal_size() {
    let eng = init(Startup::Ready(80, 24)).unwrap();
    assert!(is_active(&eng));
    assert_eq!(width(&eng), 80);
    assert_eq!(height(&eng), 24);
    assert_eq!(cursor(&eng), None);
    assert_eq!(undecoded(&eng), 0);
    assert_eq!(cell_at(&eng, 0, 0), Some(BLANK));
    assert_eq!(cell_at(&eng, 79, 23), Some(BLANK));
    assert_eq!(cell_at(&eng, 80, 0), None);
    assert_eq!(cell_at(&eng, 0, 24), None);
}

#[test]
fn first_frame_is_the_greeting() {
    let mut eng = init(Startup::Ready(4, 2)).unwrap();
    assert_eq!(present(&mut eng), GREETING);
    assert!(present(&mut eng).is_empty());
}

#[test]
fn hello_scenario() {
    let mut eng = init(Startup::Ready(80, 24)).unwrap();
    print(&mut eng, 0, 0, style::bold, color::white, color::black, "Hi");
    let out = present(&mut eng);
    let mut expected = GREETING.to_vec();
    expected.extend_from_slice(b"\x1b[1;1H\x1b[0;1;37;40mH\x1b[1;2H\x1b[0;1;37;40mi");
    assert_eq!(out, expected);
    let at = find(&out, b"\x1b[1;1H", 0).unwrap();
    let at = find(&out, b"\x1b[0;1;37;40m", at).unwrap();
    let at = find(&out, b"H", at + 12).unwrap();
    assert!(find(&out, b"i", at).is_some());
    assert_eq!(shutdown(&mut eng), PARTING);
    assert!(!is_active(&eng));
}

#[test]
fn shutdown_twice_is_shutdown_once() {
    let mut eng = start(10, 5);
    assert_eq!(shutdown(&mut eng), PARTING);
    assert!(!is_active(&eng));
    assert!(shutdown(&mut eng).is_empty());
    assert!(!is_active(&eng));
    assert!(shutdown(&mut eng).is_empty());
    assert_eq!(undecoded(&eng), 0);
    assert_eq!(cursor(&eng), None);
}

#[test]
fn shutdown_drops_what_was_pending() {
    let mut eng = init(Startup::Ready(10, 5)).unwrap();
    feed(&mut eng, b"abc");
    set_cursor(&mut eng, 1, 1);
    assert_eq!(shutdown(&mut eng), PARTING);
    assert_eq!(undecoded(&eng), 0);
    assert_eq!(cursor(&eng), None);
}

#[test]
fn set_cell_then_present_draws_that_cell() {
    let mut eng = start(80, 24);
    change_cell(&mut eng, 5, 3, 0x58, 0x22, 0x04);
    assert_eq!(present(&mut eng), b"\x1b[4;6H\x1b[0;4;32;44mX");
    change_cell(&mut eng, 79, 23, 0x20AC, 0x07, 0x00);
    assert_eq!(present(&mut eng), b"\x1b[24;80H\x1b[0;37;40m\xe2\x82\xac");
}

#[test]
fn set_cell_to_the_same_draws_nothing() {
    let mut eng = start(8, 4);
    change_cell(&mut eng, 1, 1, 0x20, 0x07, 0x00);
    assert!(present(&mut eng).is_empty());
    change_cell(&mut eng, 1, 1, 0x41, 0x07, 0x00);
    assert_eq!(present(&mut eng), b"\x1b[2;2H\x1b[0;37;40mA");
    change_cell(&mut eng, 1, 1, 0x41, 0x07, 0x00);
    assert!(present(&mut eng).is_empty());
}

#[test]
fn present_twice_writes_nothing_the_second_time() {
    let mut eng = start(20, 10);
    print(&mut eng, 2, 2, style::normal, color::green, color::black, "hello");
    set_cursor(&mut eng, 3, 3);
    assert!(!present(&mut eng).is_empty());
    assert!(present(&mut eng).is_empty());
    assert!(present(&mut eng).is_empty());
}

#[test]
fn changed_cells_come_row_by_row() {
    let mut eng = start(4, 3);
    change_cell(&mut eng, 3, 2, 0x43, 0x07, 0x00);
    change_cell(&mut eng, 0, 1, 0x42, 0x07, 0x00);
    change_cell(&mut eng, 2, 0, 0x41, 0x07, 0x00);
    assert_eq!(
        present(&mut eng),
        b"\x1b[1;3H\x1b[0;37;40mA\x1b[2;1H\x1b[0;37;40mB\x1b[3;4H\x1b[0;37;40mC"
    );
}

#[test]
fn set_cell_outside_is_ignored() {
    let mut eng = start(4, 3);
    change_cell(&mut eng, 4, 0, 0x41, 0x01, 0x02);
    change_cell(&mut eng, 0, 3, 0x41, 0x01, 0x02);
    change_cell(&mut eng, 4, 2, 0x41, 0x01, 0x02);
    change_cell(&mut eng, usize::MAX, usize::MAX, 0x41, 0x01, 0x02);
    for y in 0..3 {
        for x in 0..4 {
            assert_eq!(cell_at(&eng, x, y), Some(BLANK));
        }
    }
    assert!(present(&mut eng).is_empty());
}

#[test]
fn set_cell_leaves_its_neighbours() {
    let mut eng = start(3, 3);
    change_cell(&mut eng, 1, 1, 0x41, 0x01, 0x02);
    for y in 0..3 {
        for x in 0..3 {
            let expected = if (x, y) == (1, 1) { Cell { ch: 0x41, fg: 0x01, bg: 0x02 } } else { BLANK };
            assert_eq!(cell_at(&eng, x, y), Some(expected));
        }
    }
}

#[test]
fn print_writes_one_cell_per_character() {
    let mut eng = start(10, 2);
    print(&mut eng, 7, 1, style::underline, color::red, color::cyan, "añb€");
    assert_eq!(cell_at(&eng, 6, 1), Some(BLANK));
    assert_eq!(cell_at(&eng, 7, 1), Some(Cell { ch: 0x61, fg: 0x21, bg: 0x06 }));
    assert_eq!(cell_at(&eng, 8, 1), Some(Cell { ch: 0xF1, fg: 0x21, bg: 0x06 }));
    assert_eq!(cell_at(&eng, 9, 1), Some(Cell { ch: 0x62, fg: 0x21, bg: 0x06 }));
    for x in 0..10 {
        assert_eq!(cell_at(&eng, x, 0), Some(BLANK));
    }
}

#[test]
fn print_ch_writes_one_cell() {
    let mut eng = start(10, 2);
    print_ch(&mut eng, 2, 1, style::bold_underline, color::yellow, color::blue, 'Z');
    assert_eq!(cell_at(&eng, 2, 1), Some(Cell { ch: 0x5A, fg: 0x33, bg: 0x04 }));
    print_ch(&mut eng, 10, 1, style::normal, color::yellow, color::blue, 'Z');
    assert_eq!(present(&mut eng), b"\x1b[2;3H\x1b[0;1;4;33;44mZ");
}

#[test]
fn clear_resets_the_back_grid() {
    let mut eng = start(3, 2);
    print(&mut eng, 0, 0, style::normal, color::white, color::black, "abc");
    clear(&mut eng, color::yellow, color::blue);
    for y in 0..2 {
        for x in 0..3 {
            assert_eq!(cell_at(&eng, x, y), Some(Cell { ch: 0x20, fg: 0x03, bg: 0x04 }));
        }
    }
    let out = present(&mut eng);
    assert!(out.starts_with(b"\x1b[1;1H\x1b[0;33;44m "));
    assert!(out.ends_with(b"\x1b[2;3H\x1b[0;33;44m "));
}

#[test]
fn cursor_is_sent_with_the_frame() {
    let mut eng = start(10, 5);
    set_cursor(&mut eng, 3, 4);
    assert_eq!(cursor(&eng), Some((3, 4)));
    assert_eq!(present(&mut eng), b"\x1b[?25h\x1b[5;4H");
    assert!(present(&mut eng).is_empty());
    set_cursor(&mut eng, 0, 0);
    assert_eq!(present(&mut eng), b"\x1b[1;1H");
    change_cell(&mut eng, 1, 1, 0x41, 0x07, 0x00);
    assert_eq!(present(&mut eng), b"\x1b[2;2H\x1b[0;37;40mA\x1b[1;1H");
    set_cursor(&mut eng, -1, -1);
    assert_eq!(cursor(&eng), None);
    assert_eq!(present(&mut eng), b"\x1b[?25l");
    assert!(present(&mut eng).is_empty());
}

#[test]
fn negative_coordinate_hides_the_cursor() {
    let mut eng = start(10, 5);
    set_cursor(&mut eng, 2, 2);
    set_cursor(&mut eng, 2, -1);
    assert_eq!(cursor(&eng), None);
    set_cursor(&mut eng, 2, 2);
    set_cursor(&mut eng, isize::MIN, 0);
    assert_eq!(cursor(&eng), None);
    set_cursor(&mut eng, isize::MAX, isize::MAX);
    assert_eq!(cursor(&eng), Some((isize::MAX as usize, isize::MAX as usize)));
    hide_cursor(&mut eng);
    assert_eq!(cursor(&eng), None);
    assert!(present(&mut eng).is_empty());
}

#[test]
fn resize_gives_new_size_and_blank_grids() {
    let mut eng = start(4, 2);
    print(&mut eng, 0, 0, style::normal, color::white, color::black, "abcd");
    present(&mut eng);
    print(&mut eng, 0, 1, style::normal, color::white, color::black, "efgh");
    notify_resize(&mut eng, 6, 3);
    assert_eq!(width(&eng), 6);
    assert_eq!(height(&eng), 3);
    for y in 0..3 {
        for x in 0..6 {
            assert_eq!(cell_at(&eng, x, y), Some(BLANK));
        }
    }
    assert_eq!(present(&mut eng), b"\x1b[0;37;40m\x1b[2J");
    assert!(present(&mut eng).is_empty());
}

#[test]
fn resize_comes_before_a_waiting_key() {
    let mut eng = start(4, 2);
    feed(&mut eng, b"q");
    notify_resize(&mut eng, 100, 40);
    assert_eq!(poll_event(&mut eng, 0), Step::Deliver(event::resize_event(100, 40)));
    assert_eq!(poll_event(&mut eng, 0), Step::Deliver(event::key_event(0, key::ctrl_tilde, 113)));
    assert_eq!(poll_event(&mut eng, 0), Step::Read(Wait::Forever));
}

#[test]
fn resize_is_delivered_by_peek_too() {
    let mut eng = start(4, 2);
    notify_resize(&mut eng, 0, 0);
    assert_eq!(peek_event(&mut eng, 0, 0), Step::Deliver(event::resize_event(0, 0)));
    assert_eq!(peek_event(&mut eng, 0, 0), Step::Deliver(event::no_event));
    assert_eq!(width(&eng), 0);
    assert_eq!(height(&eng), 0);
}

#[test]
fn poll_waits_for_ever_on_empty_input() {
    let mut eng = start(4, 2);
    assert_eq!(poll_event(&mut eng, 0), Step::Read(Wait::Forever));
    assert_eq!(poll_event(&mut eng, 1000), Step::Read(Wait::Forever));
}

#[test]
fn poll_delivers_arrow_up() {
    let mut eng = start(4, 2);
    feed(&mut eng, &[0x1B, 0x5B, 0x41]);
    assert_eq!(poll_event(&mut eng, 0), Step::Deliver(event::key_event(0, key::arrow_up, 0)));
    assert_eq!(undecoded(&eng), 0);
}

#[test]
fn poll_delivers_ctrl_c() {
    let mut eng = start(4, 2);
    feed(&mut eng, &[0x03]);
    assert_eq!(poll_event(&mut eng, 0), Step::Deliver(event::key_event(0, key::ctrl_c, 0)));
}

#[test]
fn poll_delivers_a_two_byte_character_once() {
    let mut eng = start(4, 2);
    feed(&mut eng, &[0xC3]);
    assert_eq!(poll_event(&mut eng, 0), Step::Read(Wait::AtMost(10)));
    feed(&mut eng, &[0xA9]);
    assert_eq!(poll_event(&mut eng, 0), Step::Deliver(event::key_event(0, key::ctrl_tilde, 0xE9)));
    assert_eq!(poll_event(&mut eng, 0), Step::Read(Wait::Forever));
}

#[test]
fn lone_escape_is_esc_after_the_wait() {
    let mut eng = start(4, 2);
    feed(&mut eng, &[0x1B]);
    assert_eq!(poll_event(&mut eng, 0), Step::Read(Wait::AtMost(10)));
    assert_eq!(poll_event(&mut eng, 4), Step::Read(Wait::AtMost(6)));
    assert_eq!(poll_event(&mut eng, 9), Step::Read(Wait::AtMost(1)));
    assert_eq!(undecoded(&eng), 1);
    assert_eq!(poll_event(&mut eng, 10), Step::Deliver(event::key_event(0, key::esc, 0)));
    assert_eq!(undecoded(&eng), 0);
}

#[test]
fn sequence_in_pieces() {
    let mut eng = start(4, 2);
    feed(&mut eng, &[0x1B]);
    assert_eq!(poll_event(&mut eng, 0), Step::Read(Wait::AtMost(10)));
    feed(&mut eng, &[0x5B, 0x32]);
    assert_eq!(poll_event(&mut eng, 0), Step::Read(Wait::AtMost(10)));
    feed(&mut eng, &[0x34, 0x7E, 0x61]);
    assert_eq!(poll_event(&mut eng, 0), Step::Deliver(event::key_event(0, key::f12, 0)));
    assert_eq!(poll_event(&mut eng, 0), Step::Deliver(event::key_event(0, key::ctrl_tilde, 0x61)));
}

#[test]
fn unknown_sequence_is_esc_then_its_bytes() {
    let mut eng = start(4, 2);
    feed(&mut eng, &[0x1B, 0x5B, 0x5A]);
    assert_eq!(poll_event(&mut eng, 0), Step::Deliver(event::key_event(0, key::esc, 0)));
    assert_eq!(poll_event(&mut eng, 0), Step::Deliver(event::key_event(0, key::ctrl_tilde, 0x5B)));
    assert_eq!(poll_event(&mut eng, 0), Step::Deliver(event::key_event(0, key::ctrl_tilde, 0x5A)));
    assert_eq!(poll_event(&mut eng, 0), Step::Read(Wait::Forever));
}

#[test]
fn sequence_given_up_is_not_lost() {
    let mut eng = start(4, 2);
    feed(&mut eng, &[0x1B, 0x5B]);
    assert_eq!(poll_event(&mut eng, 30), Step::Deliver(event::key_event(0, key::esc, 0)));
    assert_eq!(poll_event(&mut eng, 30), Step::Deliver(event::key_event(0, key::ctrl_tilde, 0x5B)));
}

#[test]
fn keys_come_in_the_order_they_were_typed() {
    let mut eng = start(4, 2);
    feed(&mut eng, b"a\x1b[Bb \r");
    let expected = [
        event::key_event(0, key::ctrl_tilde, 0x61),
        event::key_event(0, key::arrow_down, 0),
        event::key_event(0, key::ctrl_tilde, 0x62),
        event::key_event(0, key::space, 0),
        event::key_event(0, key::enter, 0),
    ];
    for e in expected {
        assert_eq!(poll_event(&mut eng, 0), Step::Deliver(e));
    }
    assert_eq!(poll_event(&mut eng, 0), Step::Read(Wait::Forever));
}

#[test]
fn malformed_input_is_replaced_not_refused() {
    let mut eng = start(4, 2);
    feed(&mut eng, &[0xC3, 0x41, 0xFF]);
    assert_eq!(poll_event(&mut eng, 0), Step::Deliver(event::key_event(0, key::ctrl_tilde, 0xFFFD)));
    assert_eq!(poll_event(&mut eng, 0), Step::Deliver(event::key_event(0, key::ctrl_tilde, 0x41)));
    assert_eq!(poll_event(&mut eng, 0), Step::Deliver(event::key_event(0, key::ctrl_tilde, 0xFFFD)));
}

#[test]
fn peek_gives_no_event_when_time_is_up() {
    let mut eng = start(4, 2);
    assert_eq!(peek_event(&mut eng, 0, 0), Step::Deliver(event::no_event));
    assert_eq!(peek_event(&mut eng, 100, 0), Step::Read(Wait::AtMost(100)));
    assert_eq!(peek_event(&mut eng, 100, 500), Step::Read(Wait::AtMost(100)));
}

#[test]
fn peek_delivers_what_is_ready_even_with_no_time_left() {
    let mut eng = start(4, 2);
    feed(&mut eng, &[0x1B, 0x5B, 0x41]);
    assert_eq!(peek_event(&mut eng, 0, 0), Step::Deliver(event::key_event(0, key::arrow_up, 0)));
    assert_eq!(peek_event(&mut eng, 0, 0), Step::Deliver(event::no_event));
}

#[test]
fn peek_waits_the_shorter_of_the_two_waits() {
    let mut eng = start(4, 2);
    feed(&mut eng, &[0x1B]);
    assert_eq!(peek_event(&mut eng, 100, 0), Step::Read(Wait::AtMost(10)));
    assert_eq!(peek_event(&mut eng, 100, 7), Step::Read(Wait::AtMost(3)));
    assert_eq!(peek_event(&mut eng, 2, 7), Step::Read(Wait::AtMost(2)));
    assert_eq!(peek_event(&mut eng, 10, 0), Step::Read(Wait::AtMost(10)));
    assert_eq!(peek_event(&mut eng, 0, 7), Step::Deliver(event::no_event));
    assert_eq!(undecoded(&eng), 1);
    assert_eq!(peek_event(&mut eng, 0, 10), Step::Deliver(event::key_event(0, key::esc, 0)));
}

#[test]
fn front_is_a_copy_of_back() {
    let mut eng = start(3, 1);
    change_cell(&mut eng, 0, 0, 0x41, 0x07, 0x00);
    present(&mut eng);
    change_cell(&mut eng, 0, 0, 0x42, 0x07, 0x00);
    change_cell(&mut eng, 0, 0, 0x41, 0x07, 0x00);
    assert!(present(&mut eng).is_empty());
    change_cell(&mut eng, 0, 0, 0x42, 0x07, 0x00);
    assert_eq!(present(&mut eng), b"\x1b[1;1H\x1b[0;37;40mB");
}
