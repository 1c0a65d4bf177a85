//! A terminal cell-buffer and input-event engine.
//!
//! The engine keeps a double-buffered grid of cells, turns the difference
//! between what was drawn and what is on screen into ANSI escape sequences,
//! and decodes the raw byte stream of a terminal into key and resize events.
//! It performs no I/O itself: every operation that has something to send hands
//! the bytes back, and input arrives as the bytes that were read.
#![allow(non_camel_case_types)]

pub mod attr;
pub mod backend;
pub mod cells;
pub mod decoder;
pub mod engine;
pub mod events;
pub mod keys;
pub mod laws;
pub mod render;
pub mod sequences;
pub mod utf8;

pub use attr::{color, convert_color, convert_style, style};
pub use cells::{Cell, CellBuffer};
pub use engine::{
    cell_at, change_cell, clear, cursor, decoder_state, feed, height, hide_cursor, init,
    is_active, notify_resize, peek_event, poll_event, present, print, print_ch, set_cursor,
    shutdown, undecoded, width, Engine, InitError, Startup, Step, Wait,
};
pub use events::{event, nil_raw_event, raw_event, unpack_event};
pub use keys::{convert_key, is_key_code, key, reverse_convert_key};
