//! The escape sequences that draw cells and steer the cursor.

use crate::cells::{position_in_grid, Cell, CellBuffer, Grid};
use crate::utf8::{glyph, push_glyph};
use vstd::arithmetic::div_mod::lemma_fundamental_div_mod_converse;
use vstd::prelude::*;

verus! {

/// The escape character.
pub const ESC: u8 = 0x1B;

/// The decimal digits of a number, as ASCII.
pub open spec fn decimal(n: nat) -> Seq<u8>
    decreases n,
{
    if n < 10 {
        seq![(0x30 + n) as u8]
    } else {
        decimal(n / 10).push((0x30 + n % 10) as u8)
    }
}

/// The sequence that moves the cursor to column `x`, row `y`, both counted
/// from zero; the terminal counts from one and takes the row first.
pub open spec fn cursor_to(x: nat, y: nat) -> Seq<u8> {
    seq![0x1Bu8, 0x5B] + decimal(y + 1) + seq![0x3Bu8] + decimal(x + 1) + seq![0x48u8]
}

/// The digit of the palette color that an attribute selects.
pub open spec fn color_digit(attr: u16) -> u8 {
    (0x30 + (attr & 0x07)) as u8
}

/// The sequence that sets the rendition for a foreground and a background
/// attribute: reset, then bold and underline where the foreground asks for
/// them, then the two colors.
pub open spec fn rendition(fg: u16, bg: u16) -> Seq<u8> {
    seq![0x1Bu8, 0x5B, 0x30] + (if fg & 0x10 != 0 {
        seq![0x3Bu8, 0x31]
    } else {
        Seq::<u8>::empty()
    }) + (if fg & 0x20 != 0 {
        seq![0x3Bu8, 0x34]
    } else {
        Seq::<u8>::empty()
    }) + seq![0x3Bu8, 0x33, color_digit(fg), 0x3B, 0x34, color_digit(bg), 0x6D]
}

/// The sequence that shows the cursor.
pub open spec fn cursor_shown() -> Seq<u8> {
    seq![0x1Bu8, 0x5B, 0x3F, 0x32, 0x35, 0x68]
}

/// The sequence that hides the cursor.
pub open spec fn cursor_hidden() -> Seq<u8> {
    seq![0x1Bu8, 0x5B, 0x3F, 0x32, 0x35, 0x6C]
}

/// The sequence that switches to the alternate screen.
pub open spec fn screen_entered() -> Seq<u8> {
    seq![0x1Bu8, 0x5B, 0x3F, 0x31, 0x30, 0x34, 0x39, 0x68]
}

/// The sequence that switches back from the alternate screen.
pub open spec fn screen_left() -> Seq<u8> {
    seq![0x1Bu8, 0x5B, 0x3F, 0x31, 0x30, 0x34, 0x39, 0x6C]
}

/// The sequence that resets the rendition.
pub open spec fn rendition_reset() -> Seq<u8> {
    seq![0x1Bu8, 0x5B, 0x30, 0x6D]
}

/// The sequence that erases the whole screen.
pub open spec fn screen_erased() -> Seq<u8> {
    seq![0x1Bu8, 0x5B, 0x32, 0x4A]
}

/// The bytes that leave the screen blank, white on black: what a grid of
/// blank cells looks like.
pub open spec fn wiped() -> Seq<u8> {
    rendition(0x07, 0x00) + screen_erased()
}

/// The bytes sent when the engine takes over the terminal: enter the
/// alternate screen, hide the cursor, wipe the screen.
pub open spec fn greeting() -> Seq<u8> {
    screen_entered() + cursor_hidden() + wiped()
}

/// The bytes sent when the engine gives the terminal back: show the cursor,
/// reset the rendition, erase the screen, leave the alternate screen.
pub open spec fn parting() -> Seq<u8> {
    cursor_shown() + rendition_reset() + screen_erased() + screen_left()
}

/// The bytes that bring the cursor from the state `shown` to the state
/// `wanted`, where `None` is a hidden cursor and `drawn` says that cells were
/// drawn since, which moves a visible cursor away from its place.
pub open spec fn cursor_bytes(
    shown: Option<(usize, usize)>,
    wanted: Option<(usize, usize)>,
    drawn: bool,
) -> Seq<u8> {
    match wanted {
        None => if shown is Some {
            cursor_hidden()
        } else {
            Seq::<u8>::empty()
        },
        Some((x, y)) => (if shown is None {
            cursor_shown()
        } else {
            Seq::<u8>::empty()
        }) + (if drawn || shown != wanted {
            cursor_to(x as nat, y as nat)
        } else {
            Seq::<u8>::empty()
        }),
    }
}

/// The bytes that draw cell `c` at column `x`, row `y`: the cursor move, the
/// rendition, and the glyph.
pub open spec fn cell_bytes(x: nat, y: nat, c: Cell) -> Seq<u8> {
    cursor_to(x, y) + rendition(c.fg, c.bg) + glyph(c.ch)
}

/// The bytes that draw the cell at index `i` where the two grids differ
/// there, and nothing where they agree.
pub open spec fn change_at(front: Grid, back: Grid, i: int) -> Seq<u8> {
    if front.cells[i] != back.cells[i] {
        cell_bytes((i % (back.width as int)) as nat, (i / (back.width as int)) as nat, back.cells[i])
    } else {
        Seq::<u8>::empty()
    }
}

/// The bytes that bring a screen showing the first `n` cells of `front` to
/// show those of `back`: the changed cells, row by row and left to right.
pub open spec fn changes(front: Grid, back: Grid, n: nat) -> Seq<u8>
    decreases n,
{
    if n == 0 {
        Seq::<u8>::empty()
    } else {
        changes(front, back, (n - 1) as nat) + change_at(front, back, n - 1)
    }
}

/// Where two grids agree on their first `n` cells, nothing is drawn for them.
pub proof fn changes_of_equal(front: Grid, back: Grid, n: nat)
    requires
        forall|i: int| 0 <= i < n ==> front.cells[i] == back.cells[i],
    ensures
        changes(front, back, n) == Seq::<u8>::empty(),
    decreases n,
{
    if n > 0 {
        changes_of_equal(front, back, (n - 1) as nat);
    }
}

/// Where two grids differ in the cell at index `i` alone, that cell alone is
/// drawn.
pub proof fn changes_of_one(front: Grid, back: Grid, i: int, n: nat)
    requires
        0 <= i,
        forall|j: int| 0 <= j < n && j != i ==> front.cells[j] == back.cells[j],
    ensures
        changes(front, back, n) == (if i < n {
            change_at(front, back, i)
        } else {
            Seq::<u8>::empty()
        }),
    decreases n,
{
    if n > 0 {
        changes_of_one(front, back, i, (n - 1) as nat);
        if i < n - 1 {
            assert(changes(front, back, n) =~= change_at(front, back, i));
        } else if i == n - 1 {
            assert(changes(front, back, n) =~= change_at(front, back, i));
        }
    }
}

/// Appends the decimal digits of `n`.
pub fn push_decimal(out: &mut Vec<u8>, n: usize)
    ensures
        final(out)@ == old(out)@ + decimal(n as nat),
    decreases n,
{
    if n < 10 {
        out.push(0x30 + n as u8);
        assert(out@ =~= old(out)@ + decimal(n as nat));
    } else {
        push_decimal(out, n / 10);
        out.push(0x30 + (n % 10) as u8);
        assert(out@ =~= old(out)@ + decimal(n as nat));
    }
}

/// Appends the sequence that moves the cursor to column `x`, row `y`.
pub fn push_cursor_to(out: &mut Vec<u8>, x: usize, y: usize)
    requires
        x < usize::MAX,
        y < usize::MAX,
    ensures
        final(out)@ == old(out)@ + cursor_to(x as nat, y as nat),
{
    out.push(ESC);
    out.push(0x5B);
    push_decimal(out, y + 1);
    out.push(0x3B);
    push_decimal(out, x + 1);
    out.push(0x48);
    assert(out@ =~= old(out)@ + cursor_to(x as nat, y as nat));
}

/// Appends the sequence that sets the rendition for two attributes.
pub fn push_rendition(out: &mut Vec<u8>, fg: u16, bg: u16)
    ensures
        final(out)@ == old(out)@ + rendition(fg, bg),
{
    out.push(ESC);
    out.push(0x5B);
    out.push(0x30);
    if fg & 0x10 != 0 {
        out.push(0x3B);
        out.push(0x31);
    }
    if fg & 0x20 != 0 {
        out.push(0x3B);
        out.push(0x34);
    }
    assert(fg & 0x07 <= 7) by (bit_vector);
    assert(bg & 0x07 <= 7) by (bit_vector);
    out.push(0x3B);
    out.push(0x33);
    out.push(0x30 + (fg & 0x07) as u8);
    out.push(0x3B);
    out.push(0x34);
    out.push(0x30 + (bg & 0x07) as u8);
    out.push(0x6D);
    assert(out@ =~= old(out)@ + rendition(fg, bg));
}

/// Appends the bytes that draw cell `c` at column `x`, row `y`.
pub fn push_cell(out: &mut Vec<u8>, x: usize, y: usize, c: Cell)
    requires
        x < usize::MAX,
        y < usize::MAX,
    ensures
        final(out)@ == old(out)@ + cell_bytes(x as nat, y as nat, c),
{
    push_cursor_to(out, x, y);
    push_rendition(out, c.fg, c.bg);
    push_glyph(out, c.ch);
    assert(out@ =~= old(out)@ + cell_bytes(x as nat, y as nat, c));
}

/// Appends the bytes that bring a screen showing `front` to show `back`, and
/// makes `front` a copy of `back`.
pub fn draw_changes(out: &mut Vec<u8>, front: &mut CellBuffer, back: &CellBuffer)
    requires
        old(front)@.wf(),
        back@.wf(),
        old(front)@.width == back@.width,
        old(front)@.height == back@.height,
    ensures
        final(out)@ == old(out)@ + changes(old(front)@, back@, back@.cells.len()),
        final(front)@ == back@,
{
    let (w, h) = back.get_size();
    let n: usize = back.len();
    let mut i: usize = 0;
    let mut x: usize = 0;
    let mut y: usize = 0;
    proof {
        if n > 0 {
            position_in_grid(back@, 0);
        }
    }
    while i < n
        invariant
            back@.wf(),
            old(front)@.cells.len() == n,
            back@.width == w,
            back@.height == h,
            back@.cells.len() == n,
            front@.width == w,
            front@.height == h,
            front@.cells.len() == n,
            i <= n,
            i == y * w + x,
            i < n ==> x < w,
            forall|j: int| 0 <= j < i ==> front@.cells[j] == back@.cells[j],
            forall|j: int| i <= j < n ==> front@.cells[j] == old(front)@.cells[j],
            out@ == old(out)@ + changes(old(front)@, back@, i as nat),
        decreases n - i,
    {
        proof {
            position_in_grid(back@, i as int);
            lemma_fundamental_div_mod_converse(i as int, w as int, y as int, x as int);
        }
        let b = back.cell(i);
        let f = front.cell(i);
        let ghost before = out@;
        if f != b {
            push_cell(out, x, y, b);
            front.put(i, b);
        }
        assert(out@ =~= old(out)@ + changes(old(front)@, back@, (i + 1) as nat)) by {
            assert(out@ == before + change_at(old(front)@, back@, i as int));
        }
        i += 1;
        x += 1;
        if x == w {
            x = 0;
            y += 1;
            assert(i == y * w + x) by (nonlinear_arith)
                requires
                    i == (y - 1) * w + w,
                    x == 0,
            ;
        }
        proof {
            if i < n {
                position_in_grid(back@, i as int);
            }
        }
    }
    assert(front@.cells =~= back@.cells);
}

/// Appends the sequence that shows or hides the cursor.
pub fn push_cursor_visible(out: &mut Vec<u8>, visible: bool)
    ensures
        final(out)@ == old(out)@ + (if visible {
            cursor_shown()
        } else {
            cursor_hidden()
        }),
{
    out.push(ESC);
    out.push(0x5B);
    out.push(0x3F);
    out.push(0x32);
    out.push(0x35);
    out.push(if visible {
        0x68
    } else {
        0x6C
    });
    assert(out@ =~= old(out)@ + (if visible {
        cursor_shown()
    } else {
        cursor_hidden()
    }));
}

/// Appends the sequence that enters or leaves the alternate screen.
pub fn push_screen(out: &mut Vec<u8>, enter: bool)
    ensures
        final(out)@ == old(out)@ + (if enter {
            screen_entered()
        } else {
            screen_left()
        }),
{
    out.push(ESC);
    out.push(0x5B);
    out.push(0x3F);
    out.push(0x31);
    out.push(0x30);
    out.push(0x34);
    out.push(0x39);
    out.push(if enter {
        0x68
    } else {
        0x6C
    });
    assert(out@ =~= old(out)@ + (if enter {
        screen_entered()
    } else {
        screen_left()
    }));
}

/// Appends the sequence that resets the rendition.
pub fn push_rendition_reset(out: &mut Vec<u8>)
    ensures
        final(out)@ == old(out)@ + rendition_reset(),
{
    out.push(ESC);
    out.push(0x5B);
    out.push(0x30);
    out.push(0x6D);
    assert(out@ =~= old(out)@ + rendition_reset());
}

/// Appends the sequence that erases the screen.
pub fn push_screen_erased(out: &mut Vec<u8>)
    ensures
        final(out)@ == old(out)@ + screen_erased(),
{
    out.push(ESC);
    out.push(0x5B);
    out.push(0x32);
    out.push(0x4A);
    assert(out@ =~= old(out)@ + screen_erased());
}

/// Appends the bytes that wipe the screen.
pub fn push_wiped(out: &mut Vec<u8>)
    ensures
        final(out)@ == old(out)@ + wiped(),
{
    push_rendition(out, 0x07, 0x00);
    push_screen_erased(out);
    assert(out@ =~= old(out)@ + wiped());
}

/// Appends the bytes that bring the cursor from one state to another.
pub fn push_cursor(
    out: &mut Vec<u8>,
    shown: Option<(usize, usize)>,
    wanted: Option<(usize, usize)>,
    drawn: bool,
)
    requires
        wanted matches Some((x, y)) ==> x < usize::MAX && y < usize::MAX,
    ensures
        final(out)@ == old(out)@ + cursor_bytes(shown, wanted, drawn),
{
    match wanted {
        None => {
            if shown.is_some() {
                push_cursor_visible(out, false);
            }
        },
        Some((x, y)) => {
            if shown.is_none() {
                push_cursor_visible(out, true);
            }
            let moved = match shown {
                Some((sx, sy)) => sx != x || sy != y,
                None => true,
            };
            if drawn || moved {
                push_cursor_to(out, x, y);
            }
        },
    }
    assert(out@ =~= old(out)@ + cursor_bytes(shown, wanted, drawn));
}

/// Appends a run of bytes.
pub fn push_bytes(out: &mut Vec<u8>, bytes: &[u8])
    ensures
        final(out)@ == old(out)@ + bytes@,
{
    let mut i: usize = 0;
    while i < bytes.len()
        invariant
            i <= bytes.len(),
            out@ == old(out)@ + bytes@.take(i as int),
        decreases bytes.len() - i,
    {
        out.push(bytes[i]);
        assert(out@ =~= old(out)@ + bytes@.take(i + 1));
        i += 1;
    }
    assert(bytes@.take(i as int) =~= bytes@);
}

} // verus!
