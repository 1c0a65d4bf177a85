use termbox::{color, convert_color, convert_key, convert_style, is_key_code, key, reverse_convert_key, style};

#[test]
fn colors_have_their_palette_index() {
    assert_eq!(convert_color(color::black), 0x00);
    assert_eq!(convert_color(color::red), 0x01);
    assert_eq!(convert_color(color::green), 0x02);
    assert_eq!(convert_color(color::yellow), 0x03);
    assert_eq!(convert_color(color::blue), 0x04);
    assert_eq!(convert_color(color::magenta), 0x05);
    assert_eq!(convert_color(color::cyan), 0x06);
    assert_eq!(convert_color(color::white), 0x07);
}

#[test]
fn styles_have_their_bits() {
    assert_eq!(convert_style(style::normal), 0x00);
    assert_eq!(convert_style(style::bold), 0x10);
    assert_eq!(convert_style(style::underline), 0x20);
    assert_eq!(convert_style(style::bold_underline), 0x30);
}

#[test]
fn function_and_navigation_keys_count_down_from_the_top() {
    assert_eq!(reverse_convert_key(65535), key::f1);
    assert_eq!(reverse_convert_key(65524), key::f12);
    assert_eq!(reverse_convert_key(65523), key::insert);
    assert_eq!(reverse_convert_key(65522), key::delete);
    assert_eq!(reverse_convert_key(65521), key::home);
    assert_eq!(reverse_convert_key(65520), key::end);
    assert_eq!(reverse_convert_key(65519), key::pgup);
    assert_eq!(reverse_convert_key(65518), key::pgdn);
    assert_eq!(reverse_convert_key(65517), key::arrow_up);
    assert_eq!(reverse_convert_key(65516), key::arrow_down);
    assert_eq!(reverse_convert_key(65515), key::arrow_left);
    assert_eq!(reverse_convert_key(65514), key::arrow_right);
}

#[test]
fn control_codes_name_one_key_each() {
    assert_eq!(reverse_convert_key(0), key::ctrl_tilde);
    assert_eq!(reverse_convert_key(1), key::ctrl_a);
    assert_eq!(reverse_convert_key(3), key::ctrl_c);
    assert_eq!(reverse_convert_key(8), key::backspace);
    assert_eq!(reverse_convert_key(9), key::tab);
    assert_eq!(reverse_convert_key(13), key::enter);
    assert_eq!(reverse_convert_key(26), key::ctrl_z);
    assert_eq!(reverse_convert_key(27), key::esc);
    assert_eq!(reverse_convert_key(28), key::ctrl_4);
    assert_eq!(reverse_convert_key(31), key::ctrl_7);
    assert_eq!(reverse_convert_key(32), key::space);
    assert_eq!(reverse_convert_key(127), key::backspace2);
}

#[test]
fn every_key_code_goes_to_a_key_and_back() {
    let mut seen: usize = 0;
    for code in 0..=u16::MAX {
        if is_key_code(code) {
            assert_eq!(convert_key(reverse_convert_key(code)), code);
            seen += 1;
        }
    }
    assert_eq!(seen, 56);
}

#[test]
fn codes_between_the_ranges_name_no_key() {
    assert!(!is_key_code(33));
    assert!(!is_key_code(126));
    assert!(!is_key_code(128));
    assert!(!is_key_code(65513));
    assert!(is_key_code(32));
    assert!(is_key_code(127));
    assert!(is_key_code(65514));
}
