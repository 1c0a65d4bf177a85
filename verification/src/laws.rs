//! What holds of the engine across calls, stated over its states.

use crate::cells::{blank_cell, index_in_grid, with_cell_touches_one, Cell, Grid};
use crate::decoder::decoding_takes_bytes;
use crate::engine::{EngineState, Step, Wait, ESCAPE_WAIT};
use crate::events::event;
use crate::render::{cell_bytes, change_at, changes_of_equal, changes_of_one, cursor_to};
use vstd::prelude::*;

verus! {

/// Shutting down twice is shutting down once: the state after the first
/// shutdown is well formed and holds nothing, and a second shutdown sends
/// nothing and leaves that state as it is.
pub proof fn shutdown_twice(s: EngineState)
    requires
        s.wf(),
    ensures
        s.shut_down().wf(),
        !s.shut_down().active,
        s.shut_down().back.cells.len() == 0,
        s.shut_down().front.cells.len() == 0,
        s.shut_down().farewell() == Seq::<u8>::empty(),
        s.shut_down().shut_down() == s.shut_down(),
        !s.active ==> s.shut_down() == s,
{
}

/// A frame sent right after another is empty: with nothing changed in
/// between there is nothing to write, and the state stays as it is.
pub proof fn present_twice(s: EngineState)
    requires
        s.wf(),
        s.active,
    ensures
        s.presented().wf(),
        s.presented().frame() == Seq::<u8>::empty(),
        s.presented().presented() == s.presented(),
{
    let p = s.presented();
    changes_of_equal(p.front, p.back, p.back.cells.len());
    assert(p.frame() =~= Seq::<u8>::empty());
}

/// Set one cell on a screen that is up to date, and the next frame is
/// exactly the bytes of that cell: the move to its position, its rendition,
/// its glyph; followed by the move back to the cursor where one is shown.
/// Setting a cell to what it holds already gives an empty frame.
pub proof fn present_after_change(s: EngineState, x: int, y: int, c: Cell)
    requires
        s.wf(),
        s.active,
        s.back.holds(x, y),
    ensures
        s.presented().with_cell(x, y, c).frame() == (if c == s.back.at(x, y) {
            Seq::<u8>::empty()
        } else {
            cell_bytes(x as nat, y as nat, c) + (match s.cursor {
                Some((cx, cy)) => cursor_to(cx as nat, cy as nat),
                None => Seq::<u8>::empty(),
            })
        }),
{
    let p = s.presented();
    let t = p.with_cell(x, y, c);
    let n = p.back.cells.len();
    let i = y * p.back.width + x;
    index_in_grid(p.back, x, y);
    changes_of_one(t.front, t.back, i, n);
    if c == p.back.at(x, y) {
        assert(t.back.cells =~= p.back.cells);
        assert(t.frame() =~= Seq::<u8>::empty());
    } else {
        assert(change_at(t.front, t.back, i) == cell_bytes(x as nat, y as nat, c));
        assert(cell_bytes(x as nat, y as nat, c).len() > 0);
        assert(t.frame() =~= cell_bytes(x as nat, y as nat, c) + (match s.cursor {
            Some((cx, cy)) => cursor_to(cx as nat, cy as nat),
            None => Seq::<u8>::empty(),
        }));
    }
}

/// Setting a cell outside the grid changes nothing; setting one inside it
/// changes that cell of the back grid and nothing else.
pub proof fn change_cell_stays_in_bounds(s: EngineState, x: int, y: int, c: Cell, ox: int, oy: int)
    requires
        s.wf(),
        s.back.holds(ox, oy),
    ensures
        !s.back.holds(x, y) ==> s.with_cell(x, y, c) == s,
        s.with_cell(x, y, c).wf(),
        s.with_cell(x, y, c).front == s.front,
        s.with_cell(x, y, c).back.at(ox, oy) == (if ox == x && oy == y {
            c
        } else {
            s.back.at(ox, oy)
        }),
{
    with_cell_touches_one(s.back, x, y, c, ox, oy);
}

/// Printing a text sets one cell per character, from column `x` rightwards
/// in row `y`, and no other cell: a text that reaches the right edge is cut
/// off there and does not go on in the next row.
pub proof fn print_stays_in_its_row(
    s: EngineState,
    x: int,
    y: int,
    fg: u16,
    bg: u16,
    text: Seq<char>,
    ox: int,
    oy: int,
)
    requires
        s.wf(),
        0 <= x,
        s.back.holds(ox, oy),
    ensures
        s.with_text(x, y, fg, bg, text).wf(),
        s.with_text(x, y, fg, bg, text).front == s.front,
        s.with_text(x, y, fg, bg, text).back.at(ox, oy) == (if oy == y && x <= ox < x + text.len() {
            Cell { ch: text[ox - x] as u32, fg, bg }
        } else {
            s.back.at(ox, oy)
        }),
{
    index_in_grid(s.back, ox, oy);
}

/// After the terminal changed size, the engine has the new size, every cell
/// of both grids is blank, and the resize is the next event, ahead of any
/// key that waits in the input.
pub proof fn resize_clears(s: EngineState, width: u16, height: u16, quiet: usize)
    requires
        s.wf(),
        s.active,
    ensures
        s.resized_to(width, height).wf(),
        s.resized_to(width, height).back == Grid::filled(width as nat, height as nat, blank_cell()),
        s.resized_to(width, height).front == s.resized_to(width, height).back,
        s.resized_to(width, height).back.width == width,
        s.resized_to(width, height).back.height == height,
        forall|i: int|
            0 <= i < s.resized_to(width, height).back.cells.len() ==> s.resized_to(
                width,
                height,
            ).back.cells[i] == blank_cell(),
        s.resized_to(width, height).next_event(quiet) matches Some((e, after)) && e
            == event::resize_event(width as i32, height as i32) && after.input == s.input,
{
    assert(width * height <= 0xFFFF * 0xFFFF) by (nonlinear_arith)
        requires
            0 <= width <= 0xFFFF,
            0 <= height <= 0xFFFF,
    ;
}

/// Waiting without a limit waits for ever only while no input is pending,
/// and otherwise for no longer than `ESCAPE_WAIT`; it never asks for a wait
/// of no time at all.
pub proof fn poll_waits_for_input(s: EngineState, quiet: usize)
    requires
        s.wf(),
        s.active,
    ensures
        match s.polled(quiet).0 {
            Step::Deliver(e) => e != event::no_event && e != event::error_event,
            Step::Read(Wait::Forever) => s.input.len() == 0 && !s.resized,
            Step::Read(Wait::AtMost(ms)) => s.input.len() > 0 && 0 < ms <= ESCAPE_WAIT,
        },
{
    decoding_takes_bytes(s.input, quiet >= ESCAPE_WAIT);
}

/// Waiting with a limit never asks to wait beyond that limit, nor for ever,
/// nor for no time at all; and with no time left it gives an answer at once.
pub proof fn peek_keeps_to_its_time(s: EngineState, timeout: usize, quiet: usize)
    requires
        s.wf(),
        s.active,
    ensures
        match s.peeked(timeout, quiet).0 {
            Step::Deliver(e) => e != event::error_event,
            Step::Read(Wait::Forever) => false,
            Step::Read(Wait::AtMost(ms)) => 0 < ms <= timeout,
        },
        timeout == 0 ==> s.peeked(timeout, quiet).0 is Deliver,
{
    decoding_takes_bytes(s.input, quiet >= ESCAPE_WAIT);
}

} // verus!
