//! Terminal events, in their flat record form and as a tagged value.

use crate::keys::{is_key_code, key, key_code, key_of_code, reverse_convert_key, valid_key_code};
use vstd::prelude::*;

verus! {

/// Event type code: nothing happened.
pub const EVENT_NONE: libc::c_int = 0;

/// Event type code: a key was pressed.
pub const EVENT_KEY: libc::c_int = 1;

/// Event type code: the terminal changed size.
pub const EVENT_RESIZE: libc::c_int = 2;

/// Event type code: the event could not be read.
pub const EVENT_ERROR: libc::c_int = -1;

/// An event as a flat record. Which fields matter depends on the event type
/// code that accompanies it: `emod`, `key` and `ch` for a key, `w` and `h`
/// for a resize.
#[derive(Clone, Copy, Debug, PartialEq, Eq, Structural)]
pub struct raw_event {
    pub etype: u8,
    pub emod: u8,
    pub key: u16,
    pub ch: u32,
    pub w: i32,
    pub h: i32,
}

/// A terminal event.
#[derive(Clone, Copy, Debug, PartialEq, Eq, Structural)]
pub enum event {
    /// A key press: modifier bits, the key, and the code point.
    ///
    /// A printable character comes with its code point and key code 0; every
    /// other key comes with code point 0. Key code 0 is also Ctrl-~, which is
    /// therefore told from a character by its code point alone.
    key_event(u8, key, u32),
    /// The terminal now has this many columns and rows.
    resize_event(i32, i32),
    /// Nothing happened in the time allowed.
    no_event,
    /// The event could not be read or its record is not that of any event.
    error_event,
}

/// What a record with a given event type code stands for.
pub open spec fn unpacked(ev_type: int, ev: raw_event) -> event {
    if ev_type == 0 {
        event::no_event
    } else if ev_type == 1 && valid_key_code(ev.key) {
        event::key_event(ev.emod, key_of_code(ev.key), ev.ch)
    } else if ev_type == 2 {
        event::resize_event(ev.w, ev.h)
    } else {
        event::error_event
    }
}

/// The record of no event: every field is zero.
pub fn nil_raw_event() -> (ev: raw_event)
    ensures
        ev == (raw_event { etype: 0, emod: 0, key: 0, ch: 0, w: 0, h: 0 }),
{
    raw_event { etype: 0, emod: 0, key: 0, ch: 0, w: 0, h: 0 }
}

/// Turns an event type code and its record into an event.
///
/// Code 0 is no event, 1 a key, 2 a resize. Any other code, and a key record
/// whose key code names no key, gives `error_event`.
pub fn unpack_event(ev_type: libc::c_int, ev: &raw_event) -> (e: event)
    ensures
        e == unpacked(ev_type as int, *ev),
        e matches event::key_event(_, k, _) ==> key_code(k) == ev.key,
{
    if ev_type == EVENT_NONE {
        event::no_event
    } else if ev_type == EVENT_KEY {
        if is_key_code(ev.key) {
            event::key_event(ev.emod, reverse_convert_key(ev.key), ev.ch)
        } else {
            event::error_event
        }
    } else if ev_type == EVENT_RESIZE {
        event::resize_event(ev.w, ev.h)
    } else {
        event::error_event
    }
}

} // verus!
