//! The escape sequences by which a terminal reports function and navigation
//! keys, and the search for the one a buffer starts with.
//!
//! Each key has the sequence an xterm sends for it in normal mode; the arrow
//! keys, Home and End also have the one sent in application mode, and Home and
//! End the one of the VT220 keypad.

use crate::keys::key;
use vstd::prelude::*;

verus! {

/// The number of sequences in the table.
pub const SEQUENCES: usize = 30;

/// The length of the longest sequence in the table.
pub const LONGEST: usize = 5;

/// An escape sequence and the key it reports. The sequence is the first `len`
/// bytes of `bytes`.
#[derive(Clone, Copy, Debug)]
pub struct Sequence {
    pub bytes: [u8; 5],
    pub len: usize,
    pub key: key,
}

impl View for Sequence {
    type V = Seq<u8>;

    open spec fn view(&self) -> Seq<u8> {
        self.bytes@.take(self.len as int)
    }
}

/// The bytes of the sequence at index `i` of the table.
pub open spec fn sequence_bytes(i: int) -> Seq<u8> {
    if i == 0 {
        seq![0x1Bu8, 0x4F, 0x50]
    } else if i == 1 {
        seq![0x1Bu8, 0x4F, 0x51]
    } else if i == 2 {
        seq![0x1Bu8, 0x4F, 0x52]
    } else if i == 3 {
        seq![0x1Bu8, 0x4F, 0x53]
    } else if i == 4 {
        seq![0x1Bu8, 0x5B, 0x31, 0x35, 0x7E]
    } else if i == 5 {
        seq![0x1Bu8, 0x5B, 0x31, 0x37, 0x7E]
    } else if i == 6 {
        seq![0x1Bu8, 0x5B, 0x31, 0x38, 0x7E]
    } else if i == 7 {
        seq![0x1Bu8, 0x5B, 0x31, 0x39, 0x7E]
    } else if i == 8 {
        seq![0x1Bu8, 0x5B, 0x32, 0x30, 0x7E]
    } else if i == 9 {
        seq![0x1Bu8, 0x5B, 0x32, 0x31, 0x7E]
    } else if i == 10 {
        seq![0x1Bu8, 0x5B, 0x32, 0x33, 0x7E]
    } else if i == 11 {
        seq![0x1Bu8, 0x5B, 0x32, 0x34, 0x7E]
    } else if i == 12 {
        seq![0x1Bu8, 0x5B, 0x32, 0x7E]
    } else if i == 13 {
        seq![0x1Bu8, 0x5B, 0x33, 0x7E]
    } else if i == 14 {
        seq![0x1Bu8, 0x5B, 0x48]
    } else if i == 15 {
        seq![0x1Bu8, 0x5B, 0x46]
    } else if i == 16 {
        seq![0x1Bu8, 0x5B, 0x35, 0x7E]
    } else if i == 17 {
        seq![0x1Bu8, 0x5B, 0x36, 0x7E]
    } else if i == 18 {
        seq![0x1Bu8, 0x5B, 0x41]
    } else if i == 19 {
        seq![0x1Bu8, 0x5B, 0x42]
    } else if i == 20 {
        seq![0x1Bu8, 0x5B, 0x44]
    } else if i == 21 {
        seq![0x1Bu8, 0x5B, 0x43]
    } else if i == 22 {
        seq![0x1Bu8, 0x5B, 0x31, 0x7E]
    } else if i == 23 {
        seq![0x1Bu8, 0x5B, 0x34, 0x7E]
    } else if i == 24 {
        seq![0x1Bu8, 0x4F, 0x48]
    } else if i == 25 {
        seq![0x1Bu8, 0x4F, 0x46]
    } else if i == 26 {
        seq![0x1Bu8, 0x4F, 0x41]
    } else if i == 27 {
        seq![0x1Bu8, 0x4F, 0x42]
    } else if i == 28 {
        seq![0x1Bu8, 0x4F, 0x44]
    } else {
        seq![0x1Bu8, 0x4F, 0x43]
    }
}

/// The key that the sequence at index `i` of the table reports.
pub open spec fn sequence_key(i: int) -> key {
    if i == 0 {
        key::f1
    } else if i == 1 {
        key::f2
    } else if i == 2 {
        key::f3
    } else if i == 3 {
        key::f4
    } else if i == 4 {
        key::f5
    } else if i == 5 {
        key::f6
    } else if i == 6 {
        key::f7
    } else if i == 7 {
        key::f8
    } else if i == 8 {
        key::f9
    } else if i == 9 {
        key::f10
    } else if i == 10 {
        key::f11
    } else if i == 11 {
        key::f12
    } else if i == 12 {
        key::insert
    } else if i == 13 {
        key::delete
    } else if i == 14 {
        key::home
    } else if i == 15 {
        key::end
    } else if i == 16 {
        key::pgup
    } else if i == 17 {
        key::pgdn
    } else if i == 18 {
        key::arrow_up
    } else if i == 19 {
        key::arrow_down
    } else if i == 20 {
        key::arrow_left
    } else if i == 21 {
        key::arrow_right
    } else if i == 22 {
        key::home
    } else if i == 23 {
        key::end
    } else if i == 24 {
        key::home
    } else if i == 25 {
        key::end
    } else if i == 26 {
        key::arrow_up
    } else if i == 27 {
        key::arrow_down
    } else if i == 28 {
        key::arrow_left
    } else {
        key::arrow_right
    }
}

/// Whether `s` starts with `p`.
pub open spec fn begins_with(s: Seq<u8>, p: Seq<u8>) -> bool {
    p.len() <= s.len() && forall|k: int| 0 <= k < p.len() ==> s[k] == p[k]
}

/// Whether the buffer starts with the whole of sequence `i`.
pub open spec fn full_match(buf: Seq<u8>, i: int) -> bool {
    begins_with(buf, sequence_bytes(i))
}

/// Whether the buffer is the start of sequence `i` and shorter than it, so
/// that more bytes could complete the sequence.
pub open spec fn open_match(buf: Seq<u8>, i: int) -> bool {
    buf.len() < sequence_bytes(i).len() && begins_with(sequence_bytes(i), buf)
}

/// Whether more bytes could complete one of the first `n` sequences.
pub open spec fn any_open(buf: Seq<u8>, n: nat) -> bool
    decreases n,
{
    n > 0 && (open_match(buf, n - 1) || any_open(buf, (n - 1) as nat))
}

/// The longest of the first `n` sequences that the buffer starts with, by its
/// index, and the first such where several are equally long.
pub open spec fn longest_match(buf: Seq<u8>, n: nat) -> Option<int>
    decreases n,
{
    if n == 0 {
        None
    } else {
        let before = longest_match(buf, (n - 1) as nat);
        if full_match(buf, n - 1) && (before matches Some(j) ==> sequence_bytes(j).len()
            < sequence_bytes(n - 1).len()) {
            Some(n - 1)
        } else {
            before
        }
    }
}

/// Every sequence starts with the escape character and is between three and
/// `LONGEST` bytes long.
pub proof fn sequences_are_escapes(i: int)
    requires
        0 <= i < SEQUENCES,
    ensures
        3 <= sequence_bytes(i).len() <= LONGEST,
        sequence_bytes(i)[0] == 0x1B,
        sequence_key(i) != key::esc,
{
}

/// No sequence of the table is the start of another: a buffer starts with
/// at most one of them.
pub proof fn sequences_are_prefix_free(i: int, j: int)
    requires
        0 <= i < SEQUENCES,
        0 <= j < SEQUENCES,
        begins_with(sequence_bytes(j), sequence_bytes(i)),
    ensures
        i == j,
{
    let a = sequence_bytes(i);
    let b = sequence_bytes(j);
    assert(a[1] == b[1]);
    assert(a[2] == b[2]);
    if a.len() >= 4 {
        assert(a[3] == b[3]);
    }
    if a.len() >= 5 {
        assert(a[4] == b[4]);
    }
}

/// `any_open` holds exactly when one of the first `n` sequences is an open
/// match.
pub proof fn any_open_means(buf: Seq<u8>, n: nat)
    ensures
        any_open(buf, n) <==> exists|i: int| 0 <= i < n && open_match(buf, i),
    decreases n,
{
    if n > 0 {
        any_open_means(buf, (n - 1) as nat);
        if any_open(buf, n) {
            if open_match(buf, n - 1) {
            } else {
                let i = choose|i: int| 0 <= i < n - 1 && open_match(buf, i);
                assert(0 <= i < n && open_match(buf, i));
            }
        }
    }
}

/// The longest match is a full match that no other full match among the
/// first `n` sequences exceeds in length; there is none exactly when the
/// buffer starts with none of them.
pub proof fn longest_match_means(buf: Seq<u8>, n: nat)
    ensures
        match longest_match(buf, n) {
            Some(i) => {
                &&& 0 <= i < n
                &&& full_match(buf, i)
                &&& forall|j: int|
                    0 <= j < n && full_match(buf, j) ==> sequence_bytes(j).len()
                        <= sequence_bytes(i).len()
            },
            None => forall|j: int| 0 <= j < n ==> !full_match(buf, j),
        },
    decreases n,
{
    if n > 0 {
        longest_match_means(buf, (n - 1) as nat);
    }
}

/// The sequence at index `i` of the table.
pub fn sequence(i: usize) -> (s: Sequence)
    requires
        i < SEQUENCES,
    ensures
        s@ == sequence_bytes(i as int),
        s.key == sequence_key(i as int),
        s.len == sequence_bytes(i as int).len(),
        3 <= s.len <= LONGEST,
{
    let s = match i {
        0 => Sequence { bytes: [0x1B, 0x4F, 0x50, 0x00, 0x00], len: 3, key: key::f1 },
        1 => Sequence { bytes: [0x1B, 0x4F, 0x51, 0x00, 0x00], len: 3, key: key::f2 },
        2 => Sequence { bytes: [0x1B, 0x4F, 0x52, 0x00, 0x00], len: 3, key: key::f3 },
        3 => Sequence { bytes: [0x1B, 0x4F, 0x53, 0x00, 0x00], len: 3, key: key::f4 },
        4 => Sequence { bytes: [0x1B, 0x5B, 0x31, 0x35, 0x7E], len: 5, key: key::f5 },
        5 => Sequence { bytes: [0x1B, 0x5B, 0x31, 0x37, 0x7E], len: 5, key: key::f6 },
        6 => Sequence { bytes: [0x1B, 0x5B, 0x31, 0x38, 0x7E], len: 5, key: key::f7 },
        7 => Sequence { bytes: [0x1B, 0x5B, 0x31, 0x39, 0x7E], len: 5, key: key::f8 },
        8 => Sequence { bytes: [0x1B, 0x5B, 0x32, 0x30, 0x7E], len: 5, key: key::f9 },
        9 => Sequence { bytes: [0x1B, 0x5B, 0x32, 0x31, 0x7E], len: 5, key: key::f10 },
        10 => Sequence { bytes: [0x1B, 0x5B, 0x32, 0x33, 0x7E], len: 5, key: key::f11 },
        11 => Sequence { bytes: [0x1B, 0x5B, 0x32, 0x34, 0x7E], len: 5, key: key::f12 },
        12 => Sequence { bytes: [0x1B, 0x5B, 0x32, 0x7E, 0x00], len: 4, key: key::insert },
        13 => Sequence { bytes: [0x1B, 0x5B, 0x33, 0x7E, 0x00], len: 4, key: key::delete },
        14 => Sequence { bytes: [0x1B, 0x5B, 0x48, 0x00, 0x00], len: 3, key: key::home },
        15 => Sequence { bytes: [0x1B, 0x5B, 0x46, 0x00, 0x00], len: 3, key: key::end },
        16 => Sequence { bytes: [0x1B, 0x5B, 0x35, 0x7E, 0x00], len: 4, key: key::pgup },
        17 => Sequence { bytes: [0x1B, 0x5B, 0x36, 0x7E, 0x00], len: 4, key: key::pgdn },
        18 => Sequence { bytes: [0x1B, 0x5B, 0x41, 0x00, 0x00], len: 3, key: key::arrow_up },
        19 => Sequence { bytes: [0x1B, 0x5B, 0x42, 0x00, 0x00], len: 3, key: key::arrow_down },
        20 => Sequence { bytes: [0x1B, 0x5B, 0x44, 0x00, 0x00], len: 3, key: key::arrow_left },
        21 => Sequence { bytes: [0x1B, 0x5B, 0x43, 0x00, 0x00], len: 3, key: key::arrow_right },
        22 => Sequence { bytes: [0x1B, 0x5B, 0x31, 0x7E, 0x00], len: 4, key: key::home },
        23 => Sequence { bytes: [0x1B, 0x5B, 0x34, 0x7E, 0x00], len: 4, key: key::end },
        24 => Sequence { bytes: [0x1B, 0x4F, 0x48, 0x00, 0x00], len: 3, key: key::home },
        25 => Sequence { bytes: [0x1B, 0x4F, 0x46, 0x00, 0x00], len: 3, key: key::end },
        26 => Sequence { bytes: [0x1B, 0x4F, 0x41, 0x00, 0x00], len: 3, key: key::arrow_up },
        27 => Sequence { bytes: [0x1B, 0x4F, 0x42, 0x00, 0x00], len: 3, key: key::arrow_down },
        28 => Sequence { bytes: [0x1B, 0x4F, 0x44, 0x00, 0x00], len: 3, key: key::arrow_left },
        _ => Sequence { bytes: [0x1B, 0x4F, 0x43, 0x00, 0x00], len: 3, key: key::arrow_right },
    };
    assert(s@ =~= sequence_bytes(i as int));
    s
}

/// Whether two byte strings agree in their first `n` bytes.
fn agree(a: &[u8], b: &[u8; 5], n: usize) -> (same: bool)
    requires
        n <= a@.len(),
        n <= 5,
    ensures
        same == (forall|k: int| 0 <= k < n ==> a@[k] == b@[k]),
{
    let mut j: usize = 0;
    while j < n
        invariant
            j <= n,
            n <= a@.len(),
            n <= 5,
            forall|k: int| 0 <= k < j ==> a@[k] == b@[k],
        decreases n - j,
    {
        if a[j] != b[j] {
            return false;
        }
        j += 1;
    }
    true
}

/// What a search of the table found: the longest sequence the buffer starts
/// with, and whether more bytes could still complete some sequence.
#[derive(Clone, Copy, Debug)]
pub struct Found {
    pub longest: Option<Sequence>,
    pub open: bool,
}

/// Searches the table for the sequences that the buffer starts with or could
/// grow into.
pub fn find_sequence(buf: &[u8]) -> (found: Found)
    ensures
        found.open == any_open(buf@, SEQUENCES as nat),
        match longest_match(buf@, SEQUENCES as nat) {
            Some(i) => found.longest matches Some(s) && s@ == sequence_bytes(i) && s.key
                == sequence_key(i) && s.len == sequence_bytes(i).len(),
            None => found.longest is None,
        },
{
    let mut longest: Option<Sequence> = None;
    let mut open: bool = false;
    let mut i: usize = 0;
    while i < SEQUENCES
        invariant
            i <= SEQUENCES,
            open == any_open(buf@, i as nat),
            match longest_match(buf@, i as nat) {
                Some(j) => longest matches Some(s) && s@ == sequence_bytes(j) && s.key
                    == sequence_key(j) && s.len == sequence_bytes(j).len(),
                None => longest is None,
            },
        decreases SEQUENCES - i,
    {
        let s = sequence(i);
        if s.len <= buf.len() {
            let full = agree(buf, &s.bytes, s.len);
            assert(full == full_match(buf@, i as int));
            if full {
                let longer = match longest {
                    Some(t) => t.len < s.len,
                    None => true,
                };
                if longer {
                    longest = Some(s);
                }
            }
            assert(!open_match(buf@, i as int));
        } else {
            let partial = agree(buf, &s.bytes, buf.len());
            assert(partial == open_match(buf@, i as int));
            assert(!full_match(buf@, i as int));
            if partial {
                open = true;
            }
        }
        i += 1;
    }
    Found { longest, open }
}

} // verus!
