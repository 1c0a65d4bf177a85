//! The keys a terminal can report, and their 16-bit key codes.
//!
//! Several key chords send the same byte, so a code names exactly one variant
//! of [`key`]: the chords that share it are listed on that variant.

use vstd::prelude::*;

verus! {

/// A key other than a printable character.
///
/// Function and navigation keys take the codes from `0xFFFF` downwards; the
/// control characters keep their byte value.
#[allow(non_camel_case_types)]
#[derive(Clone, Copy, Debug, PartialEq, Eq, Structural)]
pub enum key {
    f1,
    f2,
    f3,
    f4,
    f5,
    f6,
    f7,
    f8,
    f9,
    f10,
    f11,
    f12,
    insert,
    delete,
    home,
    end,
    pgup,
    pgdn,
    arrow_up,
    arrow_down,
    arrow_left,
    arrow_right,
    /// Ctrl-~, also sent by Ctrl-2.
    ctrl_tilde,
    ctrl_a,
    ctrl_b,
    ctrl_c,
    ctrl_d,
    ctrl_e,
    ctrl_f,
    ctrl_g,
    /// Backspace, also sent by Ctrl-H.
    backspace,
    /// Tab, also sent by Ctrl-I.
    tab,
    ctrl_j,
    ctrl_k,
    ctrl_l,
    /// Enter, also sent by Ctrl-M.
    enter,
    ctrl_n,
    ctrl_o,
    ctrl_p,
    ctrl_q,
    ctrl_r,
    ctrl_s,
    ctrl_t,
    ctrl_u,
    ctrl_v,
    ctrl_w,
    ctrl_x,
    ctrl_y,
    ctrl_z,
    /// Escape, also sent by Ctrl-[ and Ctrl-3.
    esc,
    /// Ctrl-4, also sent by Ctrl-\\.
    ctrl_4,
    /// Ctrl-5, also sent by Ctrl-].
    ctrl_5,
    /// Ctrl-6.
    ctrl_6,
    /// Ctrl-7, also sent by Ctrl-/ and Ctrl-_.
    ctrl_7,
    space,
    /// The second backspace code (DEL), also sent by Ctrl-8.
    backspace2,
}

/// The key code of a key.
pub open spec fn key_code(k: key) -> u16 {
    match k {
        key::f1 => 65535,
        key::f2 => 65534,
        key::f3 => 65533,
        key::f4 => 65532,
        key::f5 => 65531,
        key::f6 => 65530,
        key::f7 => 65529,
        key::f8 => 65528,
        key::f9 => 65527,
        key::f10 => 65526,
        key::f11 => 65525,
        key::f12 => 65524,
        key::insert => 65523,
        key::delete => 65522,
        key::home => 65521,
        key::end => 65520,
        key::pgup => 65519,
        key::pgdn => 65518,
        key::arrow_up => 65517,
        key::arrow_down => 65516,
        key::arrow_left => 65515,
        key::arrow_right => 65514,
        key::ctrl_tilde => 0,
        key::ctrl_a => 1,
        key::ctrl_b => 2,
        key::ctrl_c => 3,
        key::ctrl_d => 4,
        key::ctrl_e => 5,
        key::ctrl_f => 6,
        key::ctrl_g => 7,
        key::backspace => 8,
        key::tab => 9,
        key::ctrl_j => 10,
        key::ctrl_k => 11,
        key::ctrl_l => 12,
        key::enter => 13,
        key::ctrl_n => 14,
        key::ctrl_o => 15,
        key::ctrl_p => 16,
        key::ctrl_q => 17,
        key::ctrl_r => 18,
        key::ctrl_s => 19,
        key::ctrl_t => 20,
        key::ctrl_u => 21,
        key::ctrl_v => 22,
        key::ctrl_w => 23,
        key::ctrl_x => 24,
        key::ctrl_y => 25,
        key::ctrl_z => 26,
        key::esc => 27,
        key::ctrl_4 => 28,
        key::ctrl_5 => 29,
        key::ctrl_6 => 30,
        key::ctrl_7 => 31,
        key::space => 32,
        key::backspace2 => 127,
    }
}

/// Whether a 16-bit value is the code of some key.
pub open spec fn valid_key_code(code: u16) -> bool {
    code <= 32 || code == 127 || code >= 65514
}

/// The key that a valid code names.
pub open spec fn key_of_code(code: u16) -> key {
    choose|k: key| key_code(k) == code
}

/// The code of every key is valid, and no two keys share a code.
pub proof fn key_codes_distinct(a: key, b: key)
    ensures
        valid_key_code(key_code(a)),
        key_code(a) == key_code(b) ==> a == b,
{
}

/// Going from a key to its code and back gives the same key.
pub proof fn key_of_code_inverts(k: key)
    ensures
        key_of_code(key_code(k)) == k,
{
    key_codes_distinct(key_of_code(key_code(k)), k);
}

/// Tells whether a 16-bit value is the code of some key.
pub fn is_key_code(code: u16) -> (valid: bool)
    ensures
        valid == valid_key_code(code),
{
    code <= 32 || code == 127 || code >= 65514
}

/// Converts a key to its key code.
pub fn convert_key(k: key) -> (code: u16)
    ensures
        code == key_code(k),
        valid_key_code(code),
{
    match k {
        key::f1 => 65535,
        key::f2 => 65534,
        key::f3 => 65533,
        key::f4 => 65532,
        key::f5 => 65531,
        key::f6 => 65530,
        key::f7 => 65529,
        key::f8 => 65528,
        key::f9 => 65527,
        key::f10 => 65526,
        key::f11 => 65525,
        key::f12 => 65524,
        key::insert => 65523,
        key::delete => 65522,
        key::home => 65521,
        key::end => 65520,
        key::pgup => 65519,
        key::pgdn => 65518,
        key::arrow_up => 65517,
        key::arrow_down => 65516,
        key::arrow_left => 65515,
        key::arrow_right => 65514,
        key::ctrl_tilde => 0,
        key::ctrl_a => 1,
        key::ctrl_b => 2,
        key::ctrl_c => 3,
        key::ctrl_d => 4,
        key::ctrl_e => 5,
        key::ctrl_f => 6,
        key::ctrl_g => 7,
        key::backspace => 8,
        key::tab => 9,
        key::ctrl_j => 10,
        key::ctrl_k => 11,
        key::ctrl_l => 12,
        key::enter => 13,
        key::ctrl_n => 14,
        key::ctrl_o => 15,
        key::ctrl_p => 16,
        key::ctrl_q => 17,
        key::ctrl_r => 18,
        key::ctrl_s => 19,
        key::ctrl_t => 20,
        key::ctrl_u => 21,
        key::ctrl_v => 22,
        key::ctrl_w => 23,
        key::ctrl_x => 24,
        key::ctrl_y => 25,
        key::ctrl_z => 26,
        key::esc => 27,
        key::ctrl_4 => 28,
        key::ctrl_5 => 29,
        key::ctrl_6 => 30,
        key::ctrl_7 => 31,
        key::space => 32,
        key::backspace2 => 127,
    }
}

/// Converts a key code back to the key it names.
pub fn reverse_convert_key(k: u16) -> (named: key)
    requires
        valid_key_code(k),
    ensures
        key_code(named) == k,
        named == key_of_code(k),
{
    let named = match_key_code(k);
    proof {
        key_of_code_inverts(named);
    }
    named
}

/// The table behind `reverse_convert_key`.
fn match_key_code(k: u16) -> (named: key)
    requires
        valid_key_code(k),
    ensures
        key_code(named) == k,
{
    match k {
        65535 => key::f1,
        65534 => key::f2,
        65533 => key::f3,
        65532 => key::f4,
        65531 => key::f5,
        65530 => key::f6,
        65529 => key::f7,
        65528 => key::f8,
        65527 => key::f9,
        65526 => key::f10,
        65525 => key::f11,
        65524 => key::f12,
        65523 => key::insert,
        65522 => key::delete,
        65521 => key::home,
        65520 => key::end,
        65519 => key::pgup,
        65518 => key::pgdn,
        65517 => key::arrow_up,
        65516 => key::arrow_down,
        65515 => key::arrow_left,
        65514 => key::arrow_right,
        0 => key::ctrl_tilde,
        1 => key::ctrl_a,
        2 => key::ctrl_b,
        3 => key::ctrl_c,
        4 => key::ctrl_d,
        5 => key::ctrl_e,
        6 => key::ctrl_f,
        7 => key::ctrl_g,
        8 => key::backspace,
        9 => key::tab,
        10 => key::ctrl_j,
        11 => key::ctrl_k,
        12 => key::ctrl_l,
        13 => key::enter,
        14 => key::ctrl_n,
        15 => key::ctrl_o,
        16 => key::ctrl_p,
        17 => key::ctrl_q,
        18 => key::ctrl_r,
        19 => key::ctrl_s,
        20 => key::ctrl_t,
        21 => key::ctrl_u,
        22 => key::ctrl_v,
        23 => key::ctrl_w,
        24 => key::ctrl_x,
        25 => key::ctrl_y,
        26 => key::ctrl_z,
        27 => key::esc,
        28 => key::ctrl_4,
        29 => key::ctrl_5,
        30 => key::ctrl_6,
        31 => key::ctrl_7,
        32 => key::space,
        127 => key::backspace2,
        _ => vstd::pervasive::unreached(),
    }
}

} // verus!
