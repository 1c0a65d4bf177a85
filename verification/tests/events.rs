use termbox::{event, key, nil_raw_event, raw_event, unpack_event};

#[test]
fn nil_raw_event_is_all_zero() {
    let ev = nil_raw_event();
    assert_eq!(ev, raw_event { etype: 0, emod: 0, key: 0, ch: 0, w: 0, h: 0 });
}

#[test]
fn code_zero_is_no_event() {
    let ev = raw_event { etype: 0, emod: 1, key: 3, ch: 4, w: 5, h: 6 };
    assert_eq!(unpack_event(0, &ev), event::no_event);
}

#[test]
fn code_one_is_a_key() {
    let ev = raw_event { etype: 1, emod: 0, key: 3, ch: 0, w: 0, h: 0 };
    assert_eq!(unpack_event(1, &ev), event::key_event(0, key::ctrl_c, 0));
    let up = raw_event { etype: 1, emod: 1, key: 65517, ch: 0, w: 0, h: 0 };
    assert_eq!(unpack_event(1, &up), event::key_event(1, key::arrow_up, 0));
}

#[test]
fn a_character_comes_with_key_code_zero() {
    let ev = raw_event { etype: 1, emod: 0, key: 0, ch: 113, w: 0, h: 0 };
    assert_eq!(unpack_event(1, &ev), event::key_event(0, key::ctrl_tilde, 113));
}

#[test]
fn code_two_is_a_resize() {
    let ev = raw_event { etype: 2, emod: 0, key: 0, ch: 0, w: 80, h: 24 };
    assert_eq!(unpack_event(2, &ev), event::resize_event(80, 24));
}

#[test]
fn any_other_code_is_an_error() {
    let ev = nil_raw_event();
    assert_eq!(unpack_event(-1, &ev), event::error_event);
    assert_eq!(unpack_event(3, &ev), event::error_event);
    assert_eq!(unpack_event(i32::MIN, &ev), event::error_event);
}

#[test]
fn a_key_record_without_a_key_is_an_error() {
    let ev = raw_event { etype: 1, emod: 0, key: 200, ch: 0, w: 0, h: 0 };
    assert_eq!(unpack_event(1, &ev), event::error_event);
}
