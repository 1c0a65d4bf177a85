//! The decisions of the terminal backend: what to do after an attempt to
//! write or to read, and how to learn the size of a terminal that does not
//! tell it when asked directly.
//!
//! Such a terminal is asked where its cursor is after the cursor was sent as
//! far down and right as it goes; the position in its reply is the size.

use crate::render::{cursor_to, decimal, push_cursor_to, ESC};
use vstd::prelude::*;

verus! {

/// How one attempt to read or to write went.
#[derive(Clone, Copy, Debug, PartialEq, Eq, Structural)]
pub enum Attempt {
    /// This many bytes were read or written.
    Moved(usize),
    /// A signal interrupted the attempt before any byte moved.
    Interrupted,
    /// The attempt failed for good.
    Failed,
}

/// What to do after an attempt to write.
#[derive(Clone, Copy, Debug, PartialEq, Eq, Structural)]
pub enum WriteStep {
    /// Everything is written.
    Done,
    /// Write again, from this offset.
    Again(usize),
    /// Give up: the write failed.
    Fail,
}

/// What to do after an attempt to read.
#[derive(Clone, Copy, Debug, PartialEq, Eq, Structural)]
pub enum ReadStep {
    /// Hand this many bytes to the engine.
    Feed(usize),
    /// Nothing arrived in the time allowed.
    Quiet,
    /// Look for a change of size, then ask the engine again.
    Retry,
    /// Give up: deliver an error event.
    Fail,
}

/// What to do after an attempt to write `len` bytes from offset `from`.
///
/// A partial write is followed by a write of the rest, an interrupted one is
/// repeated, and one that moves no byte counts as failed.
pub open spec fn write_step(len: usize, from: usize, attempt: Attempt) -> WriteStep {
    match attempt {
        Attempt::Moved(n) => if n == 0 {
            WriteStep::Fail
        } else if n >= len - from {
            WriteStep::Done
        } else {
            WriteStep::Again((from + n) as usize)
        },
        Attempt::Interrupted => WriteStep::Again(from),
        Attempt::Failed => WriteStep::Fail,
    }
}

/// Decides what to do after an attempt to write `len` bytes from offset
/// `from`. An offset to write again from lies before the end, and beyond
/// `from` where bytes were written.
pub fn after_write(len: usize, from: usize, attempt: Attempt) -> (step: WriteStep)
    requires
        from < len,
    ensures
        step == write_step(len, from, attempt),
        step matches WriteStep::Again(next) ==> from <= next < len && (attempt is Moved ==> from
            < next),
{
    match attempt {
        Attempt::Moved(n) => {
            if n == 0 {
                WriteStep::Fail
            } else if n >= len - from {
                WriteStep::Done
            } else {
                WriteStep::Again(from + n)
            }
        },
        Attempt::Interrupted => WriteStep::Again(from),
        Attempt::Failed => WriteStep::Fail,
    }
}

/// What to do after an attempt to read.
pub open spec fn read_step(attempt: Attempt) -> ReadStep {
    match attempt {
        Attempt::Moved(n) => if n == 0 {
            ReadStep::Quiet
        } else {
            ReadStep::Feed(n)
        },
        Attempt::Interrupted => ReadStep::Retry,
        Attempt::Failed => ReadStep::Fail,
    }
}

/// Decides what to do after an attempt to read: an interrupted read is
/// repeated, any other failure is passed on.
pub fn after_read(attempt: Attempt) -> (step: ReadStep)
    ensures
        step == read_step(attempt),
{
    match attempt {
        Attempt::Moved(n) => {
            if n == 0 {
                ReadStep::Quiet
            } else {
                ReadStep::Feed(n)
            }
        },
        Attempt::Interrupted => ReadStep::Retry,
        Attempt::Failed => ReadStep::Fail,
    }
}

/// The bytes that ask a terminal for its size: send the cursor to the far
/// corner, then ask where it is.
pub open spec fn size_probe() -> Seq<u8> {
    cursor_to(998, 998) + seq![0x1Bu8, 0x5B, 0x36, 0x6E]
}

/// The reply of a terminal whose cursor is in the last column and row of
/// `columns` columns and `rows` rows: the row comes first.
pub open spec fn size_report(columns: u16, rows: u16) -> Seq<u8> {
    seq![0x1Bu8, 0x5B] + decimal(rows as nat) + seq![0x3Bu8] + decimal(columns as nat) + seq![
        0x52u8,
    ]
}

/// Whether a byte is an ASCII digit.
pub open spec fn is_digit(b: u8) -> bool {
    0x30 <= b <= 0x39
}

/// Whether the bytes of `s` from `start` up to `end` are the digits of `n`,
/// and no digit follows them.
pub open spec fn digits_at(s: Seq<u8>, start: int, n: nat, end: int) -> bool {
    &&& 0 <= start < end <= s.len()
    &&& s.subrange(start, end) == decimal(n)
    &&& (end == s.len() || !is_digit(s[end]))
}

/// The digits of a number are digits, at least one, and start with a zero
/// only where the number is below ten.
pub proof fn decimal_is_digits(n: nat)
    ensures
        decimal(n).len() >= 1,
        forall|i: int| 0 <= i < decimal(n).len() ==> is_digit(#[trigger] decimal(n)[i]),
        n < 10 <==> decimal(n).len() == 1,
        n >= 10 ==> decimal(n)[0] != 0x30,
        n < 10 ==> decimal(n)[0] == 0x30 + n,
        n < 100000 ==> decimal(n).len() <= 5,
    decreases n,
{
    if n >= 10 {
        decimal_is_digits(n / 10);
        let shorter = decimal(n / 10);
        assert forall|i: int| 0 <= i < decimal(n).len() implies is_digit(
            #[trigger] decimal(n)[i],
        ) by {
            if i < shorter.len() {
                assert(decimal(n)[i] == shorter[i]);
            }
        }
        assert(decimal(n)[0] == shorter[0]);
        if n < 100000 {
            reveal_with_fuel(decimal, 6);
        }
    }
}

/// Different numbers have different digits.
pub proof fn decimal_is_injective(a: nat, b: nat)
    requires
        decimal(a) == decimal(b),
    ensures
        a == b,
    decreases a,
{
    decimal_is_digits(a);
    decimal_is_digits(b);
    if a >= 10 {
        let da = decimal(a / 10).push((0x30 + a % 10) as u8);
        let db = decimal(b / 10).push((0x30 + b % 10) as u8);
        assert(da == db);
        assert(da.drop_last() =~= decimal(a / 10));
        assert(db.drop_last() =~= decimal(b / 10));
        assert(da.last() == db.last());
        decimal_is_injective(a / 10, b / 10);
    }
}

/// At one place in a byte string at most one number is written.
pub proof fn digits_at_is_unique(s: Seq<u8>, start: int, a: nat, end_a: int, b: nat, end_b: int)
    requires
        digits_at(s, start, a, end_a),
        digits_at(s, start, b, end_b),
    ensures
        a == b,
        end_a == end_b,
{
    decimal_is_digits(a);
    decimal_is_digits(b);
    if end_a < end_b {
        assert(s[end_a] == s.subrange(start, end_b)[end_a - start]);
    } else if end_b < end_a {
        assert(s[end_b] == s.subrange(start, end_a)[end_b - start]);
    } else {
        decimal_is_injective(a, b);
    }
}

/// Reads the number written at `start`: a run of at most five digits, with
/// no zero in front, that stands for a number up to 65535.
fn read_number(bytes: &[u8], start: usize) -> (read: Option<(u16, usize)>)
    ensures
        match read {
            Some((n, end)) => digits_at(bytes@, start as int, n as nat, end as int),
            None => forall|n: u16, end: int| !digits_at(bytes@, start as int, n as nat, end),
        },
{
    let len: usize = bytes.len();
    if start >= len || !(0x30 <= bytes[start] && bytes[start] <= 0x39) {
        assert forall|n: u16, end: int| !digits_at(bytes@, start as int, n as nat, end) by {
            decimal_is_digits(n as nat);
            if digits_at(bytes@, start as int, n as nat, end) {
                assert(bytes@[start as int] == bytes@.subrange(start as int, end)[0]);
            }
        }
        return None;
    }
    let mut acc: u32 = (bytes[start] - 0x30) as u32;
    let mut i: usize = start + 1;
    proof {
        decimal_is_digits(acc as nat);
        assert(bytes@.subrange(start as int, i as int) =~= decimal(acc as nat));
    }
    while i < len && 0x30 <= bytes[i] && bytes[i] <= 0x39
        invariant
            len == bytes@.len(),
            start < i <= len,
            i - start <= 5,
            bytes@.subrange(start as int, i as int) == decimal(acc as nat),
            i - start == 1 ==> acc < 10,
            i - start == 2 ==> acc < 100,
            i - start == 3 ==> acc < 1000,
            i - start == 4 ==> acc < 10000,
            i - start == 5 ==> acc < 100000,
        decreases len - i,
    {
        if acc == 0 || i - start == 5 {
            assert forall|n: u16, end: int| !digits_at(bytes@, start as int, n as nat, end) by {
                decimal_is_digits(n as nat);
                decimal_is_digits(acc as nat);
                if digits_at(bytes@, start as int, n as nat, end) {
                    let run = bytes@.subrange(start as int, end);
                    if end <= i {
                        assert(bytes@[end] == bytes@.subrange(start as int, i as int)[end - start]
                            || end == i);
                    } else {
                        assert(run[0] == bytes@.subrange(start as int, i as int)[0]);
                    }
                }
            }
            return None;
        }
        let d: u32 = (bytes[i] - 0x30) as u32;
        proof {
            let grown = (acc * 10 + d) as nat;
            assert(grown / 10 == acc && grown % 10 == d);
            assert(bytes@.subrange(start as int, i + 1) =~= decimal(acc as nat).push(bytes@[i as int]));
        }
        acc = acc * 10 + d;
        i += 1;
    }
    if acc > 65535 {
        assert forall|n: u16, end: int| !digits_at(bytes@, start as int, n as nat, end) by {
            if digits_at(bytes@, start as int, n as nat, end) {
                digits_at_is_unique(bytes@, start as int, n as nat, end, acc as nat, i as int);
            }
        }
        return None;
    }
    Some((acc as u16, i))
}

/// What the shape of a size report is: where its two numbers stand and what
/// stands around them.
pub proof fn size_report_shape(columns: u16, rows: u16)
    ensures
        ({
            let s = size_report(columns, rows);
            let mid: int = 2 + decimal(rows as nat).len() as int;
            let end: int = mid + 1 + decimal(columns as nat).len();
            &&& s.len() == end + 1
            &&& s[0] == 0x1B
            &&& s[1] == 0x5B
            &&& digits_at(s, 2, rows as nat, mid)
            &&& s[mid] == 0x3B
            &&& digits_at(s, mid + 1, columns as nat, end)
            &&& s[end] == 0x52
        }),
{
    let s = size_report(columns, rows);
    let mid: int = 2 + decimal(rows as nat).len() as int;
    let end: int = mid + 1 + decimal(columns as nat).len();
    decimal_is_digits(rows as nat);
    decimal_is_digits(columns as nat);
    assert(s.subrange(2, mid) =~= decimal(rows as nat));
    assert(s.subrange(mid + 1, end) =~= decimal(columns as nat));
}

/// Appends the bytes that ask a terminal for its size.
pub fn push_size_probe(out: &mut Vec<u8>)
    ensures
        final(out)@ == old(out)@ + size_probe(),
{
    push_cursor_to(out, 998, 998);
    out.push(ESC);
    out.push(0x5B);
    out.push(0x36);
    out.push(0x6E);
    assert(out@ =~= old(out)@ + size_probe());
}

/// Reads the size out of a terminal's reply to the size probe: the columns
/// and rows, where the bytes are exactly a size report, and `None` where
/// they are not.
pub fn parse_size_report(bytes: &[u8]) -> (size: Option<(u16, u16)>)
    ensures
        match size {
            Some((columns, rows)) => bytes@ == size_report(columns, rows),
            None => forall|columns: u16, rows: u16| bytes@ != size_report(columns, rows),
        },
{
    let len: usize = bytes.len();
    if len < 2 || bytes[0] != ESC || bytes[1] != 0x5B {
        assert forall|columns: u16, rows: u16| bytes@ != size_report(columns, rows) by {
            size_report_shape(columns, rows);
        }
        return None;
    }
    let (rows, mid) = match read_number(bytes, 2) {
        Some(read) => read,
        None => {
            assert forall|columns: u16, rows: u16| bytes@ != size_report(columns, rows) by {
                size_report_shape(columns, rows);
            }
            return None;
        },
    };
    if mid >= len || bytes[mid] != 0x3B {
        assert forall|columns: u16, r: u16| bytes@ != size_report(columns, r) by {
            size_report_shape(columns, r);
            if bytes@ == size_report(columns, r) {
                digits_at_is_unique(
                    bytes@,
                    2,
                    rows as nat,
                    mid as int,
                    r as nat,
                    2 + decimal(r as nat).len() as int,
                );
            }
        }
        return None;
    }
    let (columns, end) = match read_number(bytes, mid + 1) {
        Some(read) => read,
        None => {
            assert forall|c: u16, r: u16| bytes@ != size_report(c, r) by {
                size_report_shape(c, r);
                if bytes@ == size_report(c, r) {
                    digits_at_is_unique(
                        bytes@,
                        2,
                        rows as nat,
                        mid as int,
                        r as nat,
                        2 + decimal(r as nat).len() as int,
                    );
                }
            }
            return None;
        },
    };
    if end >= len || bytes[end] != 0x52 || end + 1 != len {
        assert forall|c: u16, r: u16| bytes@ != size_report(c, r) by {
            size_report_shape(c, r);
            if bytes@ == size_report(c, r) {
                let m: int = 2 + decimal(r as nat).len() as int;
                digits_at_is_unique(bytes@, 2, rows as nat, mid as int, r as nat, m);
                digits_at_is_unique(
                    bytes@,
                    mid + 1,
                    columns as nat,
                    end as int,
                    c as nat,
                    m + 1 + decimal(c as nat).len(),
                );
            }
        }
        return None;
    }
    proof {
        let s = size_report(columns, rows);
        size_report_shape(columns, rows);
        assert(bytes@.len() == s.len());
        assert forall|k: int| 0 <= k < s.len() implies bytes@[k] == s[k] by {
            if 2 <= k < mid {
                assert(bytes@[k] == bytes@.subrange(2, mid as int)[k - 2]);
                assert(s[k] == s.subrange(2, mid as int)[k - 2]);
            } else if mid < k < end {
                assert(bytes@[k] == bytes@.subrange(mid + 1, end as int)[k - mid - 1]);
                assert(s[k] == s.subrange(mid + 1, end as int)[k - mid - 1]);
            }
        }
        assert(bytes@ =~= s);
    }
    Some((columns, rows))
}

} // verus!
