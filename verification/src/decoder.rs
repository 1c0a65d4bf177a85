//! The input decoder: from the raw bytes of a terminal to key presses.
//!
//! Bytes arrive in pieces, so a buffer may end in the middle of an escape
//! sequence or of a UTF-8 character. Decoding then yields nothing until more
//! bytes arrive, unless the caller says that none came in time (`flush`): a
//! lone escape character is then the Esc key, and a character cut short is
//! replaced.

use crate::keys::{key, key_code, valid_key_code};
use crate::sequences::{
    any_open, any_open_means, begins_with, find_sequence, full_match, longest_match,
    longest_match_means, open_match, sequence_bytes, sequence_key, sequences_are_escapes,
    sequences_are_prefix_free, SEQUENCES,
};
use crate::utf8::REPLACEMENT;
use vstd::prelude::*;
use vstd::utf8::{
    decode_first_scalar, encode_scalar, is_continuation_byte, is_leading_byte_width_2,
    is_leading_byte_width_3, is_leading_byte_width_4, is_scalar, length_of_first_scalar,
    valid_first_scalar,
};

verus! {

/// One decoded key press: its key code, its code point, and the number of
/// bytes it took from the front of the buffer.
///
/// A printable character has key code 0 and its code point; any other key
/// has its key code and code point 0.
#[derive(Clone, Copy, Debug, PartialEq, Eq, Structural)]
pub struct Decoded {
    pub key: u16,
    pub ch: u32,
    pub used: usize,
}

/// The two states of the decoder.
#[derive(Clone, Copy, Debug, PartialEq, Eq, Structural)]
pub enum DecoderState {
    /// The next byte starts a key press.
    Idle,
    /// An escape character stands at the front of the buffer, and what
    /// follows it is being matched against the table of sequences.
    AccumulatingEscape,
}

/// The state of a decoder with the given bytes in its buffer.
pub open spec fn state_of(buf: Seq<u8>) -> DecoderState {
    if buf.len() > 0 && buf[0] == 0x1B {
        DecoderState::AccumulatingEscape
    } else {
        DecoderState::Idle
    }
}

/// The state of a decoder with the given bytes in its buffer.
pub fn state(buf: &[u8]) -> (st: DecoderState)
    ensures
        st == state_of(buf@),
{
    if buf.len() > 0 && buf[0] == 0x1B {
        DecoderState::AccumulatingEscape
    } else {
        DecoderState::Idle
    }
}

/// The number of bytes that a character with the given first byte takes.
pub open spec fn expected_len(lead: u8) -> int {
    if is_leading_byte_width_2(lead) {
        2
    } else if is_leading_byte_width_3(lead) {
        3
    } else if is_leading_byte_width_4(lead) {
        4
    } else {
        1
    }
}

/// Whether the buffer holds only the start of a character: a first byte that
/// calls for more bytes than there are, followed by continuation bytes only.
pub open spec fn cut_short(buf: Seq<u8>) -> bool {
    &&& 0 < buf.len() < expected_len(buf[0])
    &&& forall|j: int| 1 <= j < buf.len() ==> is_continuation_byte(buf[j])
}

/// What a buffer that starts with the escape character decodes to.
///
/// While more bytes could still complete a sequence of the table and the
/// caller has not given up on them, nothing. Otherwise the key of the longest
/// sequence the buffer starts with, and where it starts with none, the Esc
/// key for the escape character alone.
pub open spec fn escape_decoding(buf: Seq<u8>, flush: bool) -> Option<Decoded> {
    if !flush && any_open(buf, SEQUENCES as nat) {
        None
    } else {
        match longest_match(buf, SEQUENCES as nat) {
            Some(i) => Some(
                Decoded {
                    key: key_code(sequence_key(i)),
                    ch: 0,
                    used: sequence_bytes(i).len() as usize,
                },
            ),
            None => Some(Decoded { key: 0x1B, ch: 0, used: 1 }),
        }
    }
}

/// What a buffer that starts with neither a control byte nor a space decodes
/// to.
///
/// A well-formed UTF-8 character gives its code point. The start of a
/// character gives nothing while the caller still waits for the rest. Any
/// other first byte is dropped by itself and gives U+FFFD.
pub open spec fn text_decoding(buf: Seq<u8>, flush: bool) -> Option<Decoded> {
    if valid_first_scalar(buf) {
        Some(
            Decoded {
                key: 0,
                ch: decode_first_scalar(buf),
                used: length_of_first_scalar(buf) as usize,
            },
        )
    } else if !flush && cut_short(buf) {
        None
    } else {
        Some(Decoded { key: 0, ch: REPLACEMENT, used: 1 })
    }
}

/// What the front of a buffer decodes to, or `None` where the buffer does not
/// yet hold a whole key press.
///
/// The escape character starts an escape sequence; any other byte up to the
/// space, and DEL, is a key by itself, with the byte as its key code; every
/// other byte starts a UTF-8 character.
pub open spec fn decoding(buf: Seq<u8>, flush: bool) -> Option<Decoded> {
    if buf.len() == 0 {
        None
    } else if buf[0] == 0x1B {
        escape_decoding(buf, flush)
    } else if buf[0] <= 0x20 || buf[0] == 0x7F {
        Some(Decoded { key: buf[0] as u16, ch: 0, used: 1 })
    } else {
        text_decoding(buf, flush)
    }
}

/// A decoded key press takes at least one byte and no more than the buffer
/// holds, and its key code is that of a key. Once the caller has given up
/// waiting, every non-empty buffer decodes to something.
pub proof fn decoding_takes_bytes(buf: Seq<u8>, flush: bool)
    ensures
        decoding(buf, flush) matches Some(d) ==> 1 <= d.used <= buf.len() && d.used <= 5
            && valid_key_code(d.key) && (d.key == 0 || d.ch == 0),
        flush && buf.len() > 0 ==> decoding(buf, flush) is Some,
{
    if buf.len() > 0 && buf[0] == 0x1B {
        longest_match_means(buf, SEQUENCES as nat);
        if let Some(i) = longest_match(buf, SEQUENCES as nat) {
            sequences_are_escapes(i);
            crate::keys::key_codes_distinct(sequence_key(i), sequence_key(i));
        }
    }
}

/// Two buffers that start with the same sequences of the table have the
/// same longest match.
proof fn longest_match_agrees(a: Seq<u8>, b: Seq<u8>, n: nat)
    requires
        forall|j: int| 0 <= j < n ==> full_match(a, j) == full_match(b, j),
    ensures
        longest_match(a, n) == longest_match(b, n),
    decreases n,
{
    if n > 0 {
        longest_match_agrees(a, b, (n - 1) as nat);
    }
}

/// Decoding does not depend on how the input was cut into pieces: once a
/// buffer decodes to a key press without the caller giving up on more bytes,
/// the bytes that arrive after it change nothing of that key press.
pub proof fn decoding_is_stable(buf: Seq<u8>, rest: Seq<u8>, flush: bool)
    requires
        decoding(buf, false) is Some,
    ensures
        decoding(buf + rest, flush) == decoding(buf, false),
{
    let all = buf + rest;
    assert(all[0] == buf[0]);
    assert(forall|j: int| 0 <= j < buf.len() ==> all[j] == buf[j]);
    if buf[0] == 0x1B {
        let n = SEQUENCES as nat;
        any_open_means(buf, n);
        any_open_means(all, n);
        assert forall|j: int| 0 <= j < n implies !open_match(all, j) && full_match(all, j)
            == full_match(buf, j) by {
            if open_match(all, j) {
                assert(open_match(buf, j));
            }
            if full_match(all, j) && !full_match(buf, j) {
                assert(open_match(buf, j));
            }
        }
        longest_match_agrees(all, buf, n);
    } else if buf[0] <= 0x20 || buf[0] == 0x7F {
    } else {
        if !valid_first_scalar(buf) {
            assert(!cut_short(buf));
            if valid_first_scalar(all) || cut_short(all) {
                // The first byte asks for no more bytes than `buf` has, or some
                // byte of `buf` is no continuation byte; either way `buf` decides.
                assert(buf.len() >= expected_len(buf[0]) || exists|j: int|
                    1 <= j < buf.len() && !is_continuation_byte(buf[j]));
            }
        }
    }
}

proof fn one_byte_round_trip(c: u32)
    by (bit_vector)
    requires
        c <= 0x7F,
    ensures
        ({
            let b = (c & 0x7F) as u8;
            b == c && (b & 0x7F) as u32 == c
        }),
{
}

proof fn two_byte_round_trip(c: u32)
    by (bit_vector)
    requires
        0x80 <= c <= 0x7FF,
    ensures
        ({
            let b1 = 0xC0u8 | ((c >> 6) & 0x1F) as u8;
            let b2 = 0x80u8 | (c & 0x3F) as u8;
            &&& 0xC0 <= b1 <= 0xDF
            &&& 0x80 <= b2 <= 0xBF
            &&& (((b1 & 0x1F) as u32) << 6) | ((b2 & 0x3F) as u32) == c
        }),
{
}

proof fn three_byte_round_trip(c: u32)
    by (bit_vector)
    requires
        0x800 <= c <= 0xFFFF,
    ensures
        ({
            let b1 = 0xE0u8 | ((c >> 12) & 0x0F) as u8;
            let b2 = 0x80u8 | ((c >> 6) & 0x3F) as u8;
            let b3 = 0x80u8 | (c & 0x3F) as u8;
            &&& 0xE0 <= b1 <= 0xEF
            &&& 0x80 <= b2 <= 0xBF
            &&& 0x80 <= b3 <= 0xBF
            &&& (((b1 & 0x0F) as u32) << 12) | (((b2 & 0x3F) as u32) << 6) | ((b3 & 0x3F) as u32)
                == c
        }),
{
}

proof fn four_byte_round_trip(c: u32)
    by (bit_vector)
    requires
        0x10000 <= c <= 0x10FFFF,
    ensures
        ({
            let b1 = 0xF0u8 | ((c >> 18) & 0x7) as u8;
            let b2 = 0x80u8 | ((c >> 12) & 0x3F) as u8;
            let b3 = 0x80u8 | ((c >> 6) & 0x3F) as u8;
            let b4 = 0x80u8 | (c & 0x3F) as u8;
            &&& 0xF0 <= b1 <= 0xF7
            &&& 0x80 <= b2 <= 0xBF
            &&& 0x80 <= b3 <= 0xBF
            &&& 0x80 <= b4 <= 0xBF
            &&& (((b1 & 0x07) as u32) << 18) | (((b2 & 0x3F) as u32) << 12) | (((b3 & 0x3F) as u32)
                << 6) | ((b4 & 0x3F) as u32) == c
        }),
{
}

/// The UTF-8 encoding of a printable character decodes to one key press with
/// that character's code point, whatever follows it in the buffer and whether
/// or not the caller still waits.
pub proof fn decoding_reads_characters(c: u32, rest: Seq<u8>, flush: bool)
    requires
        is_scalar(c),
        c > 0x20,
        c != 0x7F,
    ensures
        decoding(encode_scalar(c) + rest, flush) == Some(
            Decoded { key: 0, ch: c, used: encode_scalar(c).len() as usize },
        ),
{
    let e = encode_scalar(c);
    let all = e + rest;
    assert(forall|j: int| 0 <= j < e.len() ==> all[j] == e[j]);
    if c <= 0x7F {
        one_byte_round_trip(c);
    } else if c <= 0x7FF {
        two_byte_round_trip(c);
    } else if c <= 0xFFFF {
        three_byte_round_trip(c);
    } else {
        four_byte_round_trip(c);
    }
    assert(all[0] == e[0]);
    assert(valid_first_scalar(all));
}

/// A sequence of the table decodes to its key and takes exactly its own
/// bytes, whatever follows it in the buffer and whether or not the caller
/// still waits.
pub proof fn decoding_reads_sequences(i: int, rest: Seq<u8>, flush: bool)
    requires
        0 <= i < SEQUENCES,
    ensures
        decoding(sequence_bytes(i) + rest, flush) == Some(
            Decoded {
                key: key_code(sequence_key(i)),
                ch: 0,
                used: sequence_bytes(i).len() as usize,
            },
        ),
{
    let own = sequence_bytes(i);
    let buf = own + rest;
    sequences_are_escapes(i);
    assert(forall|k: int| 0 <= k < own.len() ==> buf[k] == own[k]);
    assert(full_match(buf, i));
    any_open_means(buf, SEQUENCES as nat);
    if any_open(buf, SEQUENCES as nat) {
        let j = choose|j: int| 0 <= j < SEQUENCES && open_match(buf, j);
        assert(begins_with(sequence_bytes(j), own));
        sequences_are_prefix_free(i, j);
    }
    longest_match_means(buf, SEQUENCES as nat);
    let m = longest_match(buf, SEQUENCES as nat).unwrap();
    assert(begins_with(sequence_bytes(m), own));
    sequences_are_prefix_free(i, m);
}

/// Whether a byte continues a UTF-8 character.
fn continues(b: u8) -> (yes: bool)
    ensures
        yes == is_continuation_byte(b),
{
    0x80 <= b && b <= 0xBF
}

/// Decodes the front of a buffer that starts with neither a control byte nor
/// a space.
fn decode_text(buf: &[u8], flush: bool) -> (r: Option<Decoded>)
    requires
        buf@.len() > 0,
    ensures
        r == text_decoding(buf@, flush),
{
    let n: usize = buf.len();
    let b0: u8 = buf[0];
    let replaced = Some(Decoded { key: 0, ch: REPLACEMENT, used: 1 });
    let starved = if flush {
        replaced
    } else {
        None
    };
    if b0 <= 0x7F {
        Some(Decoded { key: 0, ch: (b0 & 0x7F) as u32, used: 1 })
    } else if 0xC0 <= b0 && b0 <= 0xDF {
        if n < 2 {
            starved
        } else if !continues(buf[1]) {
            replaced
        } else {
            let cp: u32 = (((b0 & 0x1F) as u32) << 6) | ((buf[1] & 0x3F) as u32);
            let (b0s, b1s) = (b0, buf[1]);
            assert(((((b0s & 0x1F) as u32) << 6) | ((b1s & 0x3F) as u32)) < 0xD800)
                by (bit_vector);
            if 0x80 <= cp {
                Some(Decoded { key: 0, ch: cp, used: 2 })
            } else {
                replaced
            }
        }
    } else if 0xE0 <= b0 && b0 <= 0xEF {
        if n < 2 {
            starved
        } else if !continues(buf[1]) {
            replaced
        } else if n < 3 {
            starved
        } else if !continues(buf[2]) {
            replaced
        } else {
            let cp: u32 = (((b0 & 0x0F) as u32) << 12) | (((buf[1] & 0x3F) as u32) << 6) | ((
            buf[2] & 0x3F) as u32);
            if 0x800 <= cp && !(0xD800 <= cp && cp <= 0xDFFF) {
                Some(Decoded { key: 0, ch: cp, used: 3 })
            } else {
                replaced
            }
        }
    } else if 0xF0 <= b0 && b0 <= 0xF7 {
        if n < 2 {
            starved
        } else if !continues(buf[1]) {
            replaced
        } else if n < 3 {
            starved
        } else if !continues(buf[2]) {
            replaced
        } else if n < 4 {
            starved
        } else if !continues(buf[3]) {
            replaced
        } else {
            let cp: u32 = (((b0 & 0x07) as u32) << 18) | (((buf[1] & 0x3F) as u32) << 12) | (((
            buf[2] & 0x3F) as u32) << 6) | ((buf[3] & 0x3F) as u32);
            if 0x10000 <= cp && cp <= 0x10FFFF {
                Some(Decoded { key: 0, ch: cp, used: 4 })
            } else {
                replaced
            }
        }
    } else {
        replaced
    }
}

/// Decodes the front of a buffer that starts with the escape character.
fn decode_escape(buf: &[u8], flush: bool) -> (r: Option<Decoded>)
    ensures
        r == escape_decoding(buf@, flush),
{
    let found = find_sequence(buf);
    if !flush && found.open {
        None
    } else {
        match found.longest {
            Some(s) => {
                proof {
                    longest_match_means(buf@, SEQUENCES as nat);
                    sequences_are_escapes(longest_match(buf@, SEQUENCES as nat).unwrap());
                }
                Some(Decoded { key: crate::keys::convert_key(s.key), ch: 0, used: s.len })
            },
            None => Some(Decoded { key: 0x1B, ch: 0, used: 1 }),
        }
    }
}

/// Decodes the key press at the front of a buffer.
///
/// `flush` says that the caller has waited for more bytes and none came.
pub fn decode(buf: &[u8], flush: bool) -> (r: Option<Decoded>)
    ensures
        r == decoding(buf@, flush),
        r matches Some(d) ==> 1 <= d.used <= buf@.len() && valid_key_code(d.key),
        flush && buf@.len() > 0 ==> r is Some,
{
    proof {
        decoding_takes_bytes(buf@, flush);
    }
    if buf.len() == 0 {
        None
    } else if buf[0] == 0x1B {
        decode_escape(buf, flush)
    } else if buf[0] <= 0x20 || buf[0] == 0x7F {
        Some(Decoded { key: buf[0] as u16, ch: 0, used: 1 })
    } else {
        decode_text(buf, flush)
    }
}

} // verus!
