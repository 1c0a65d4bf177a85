//! The engine: one screen, drawn through a back buffer, and one input
//! decoder.
//!
//! The engine never touches the terminal. Whoever owns the terminal puts it
//! in raw mode and reports how that went to `init`; writes out what
//! `present` and `shutdown` return; and, to get an event, calls `poll_event`
//! or `peek_event`, reads from the terminal for as long as the answer says,
//! hands what arrived to `feed`, and asks again.

use crate::attr::{color, color_code, convert_color, convert_style, style, style_bits};
use crate::cells::{blank_cell, Cell, CellBuffer, Grid};
use crate::decoder::{decode, decoding, decoding_takes_bytes, state, state_of, DecoderState};
use crate::events::{event, raw_event, unpack_event, EVENT_KEY, EVENT_RESIZE};
use crate::keys::key_of_code;
use crate::render::{
    changes, cursor_bytes, draw_changes, greeting, parting, push_bytes, push_cursor,
    push_cursor_visible, push_rendition_reset, push_screen, push_screen_erased, push_wiped, wiped,
};
use vstd::prelude::*;

verus! {

/// How long, in milliseconds, the decoder waits for the rest of an escape
/// sequence or of a character before it takes what it has as it is.
pub const ESCAPE_WAIT: usize = 10;

/// Why the engine could not start.
#[derive(Clone, Copy, Debug, PartialEq, Eq, Structural)]
pub enum InitError {
    /// The device is not a terminal, or could not be opened.
    NotATerminal,
    /// The terminal refused to enter raw mode.
    RawModeFailed,
}

/// How taking over the terminal went.
#[derive(Clone, Copy, Debug, PartialEq, Eq, Structural)]
pub enum Startup {
    /// The device is not a terminal, or could not be opened.
    NotATerminal,
    /// The terminal refused to enter raw mode.
    RawModeFailed,
    /// The terminal is in raw mode and has this many columns and rows.
    Ready(u16, u16),
}

/// How long to wait for input.
#[derive(Clone, Copy, Debug, PartialEq, Eq, Structural)]
pub enum Wait {
    /// Until something arrives.
    Forever,
    /// At most this many milliseconds.
    AtMost(usize),
}

/// What the caller of `poll_event` or `peek_event` does next.
#[derive(Clone, Copy, Debug, PartialEq, Eq, Structural)]
pub enum Step {
    /// Hand this event on: the call is over.
    Deliver(event),
    /// Read from the terminal, waiting this long at most, and ask again.
    Read(Wait),
}

/// The state of an engine as a mathematical value.
pub struct EngineState {
    /// Whether the engine holds the terminal: set by `init`, cleared by
    /// `shutdown`.
    pub active: bool,
    /// What the terminal shows.
    pub front: Grid,
    /// What the terminal is to show after the next `present`.
    pub back: Grid,
    /// Where the terminal shows the cursor; `None` while it is hidden.
    pub shown: Option<(usize, usize)>,
    /// Where the cursor is to be after the next `present`.
    pub cursor: Option<(usize, usize)>,
    /// Bytes to send ahead of the next frame.
    pub pending: Seq<u8>,
    /// Bytes read from the terminal and not yet decoded.
    pub input: Seq<u8>,
    /// Whether the terminal changed size and no event has said so yet.
    pub resized: bool,
}

impl EngineState {
    /// The state of an engine that has shut down: it holds nothing.
    pub open spec fn halted() -> EngineState {
        EngineState {
            active: false,
            front: Grid::filled(0, 0, blank_cell()),
            back: Grid::filled(0, 0, blank_cell()),
            shown: None,
            cursor: None,
            pending: Seq::empty(),
            input: Seq::empty(),
            resized: false,
        }
    }

    /// The state of an engine that has just started on a terminal of the
    /// given size: both grids blank, the cursor hidden, and the greeting
    /// waiting to be sent.
    pub open spec fn started(width: u16, height: u16) -> EngineState {
        EngineState {
            active: true,
            front: Grid::filled(width as nat, height as nat, blank_cell()),
            back: Grid::filled(width as nat, height as nat, blank_cell()),
            shown: None,
            cursor: None,
            pending: greeting(),
            input: Seq::empty(),
            resized: false,
        }
    }

    /// The two grids are well formed and of one size, a cursor position can
    /// be sent, and an engine that is not active holds nothing.
    pub open spec fn wf(self) -> bool {
        &&& self.front.wf()
        &&& self.back.wf()
        &&& self.front.width == self.back.width
        &&& self.front.height == self.back.height
        &&& (self.cursor matches Some((x, y)) ==> x < usize::MAX && y < usize::MAX)
        &&& (self.shown matches Some((x, y)) ==> x < usize::MAX && y < usize::MAX)
        &&& (!self.active ==> self == EngineState::halted())
    }

    /// The state after shutting down, whatever the state before.
    pub open spec fn shut_down(self) -> EngineState {
        EngineState::halted()
    }

    /// The bytes that shutting down sends: the parting sequence, or nothing
    /// where the engine has shut down already.
    pub open spec fn farewell(self) -> Seq<u8> {
        if self.active {
            parting()
        } else {
            Seq::<u8>::empty()
        }
    }

    /// The state with one cell of the back grid replaced.
    pub open spec fn with_cell(self, x: int, y: int, c: Cell) -> EngineState {
        EngineState { back: self.back.with_cell(x, y, c), ..self }
    }

    /// The state with a text written into the back grid.
    pub open spec fn with_text(self, x: int, y: int, fg: u16, bg: u16, text: Seq<char>) -> EngineState {
        EngineState { back: self.back.with_text(x, y, fg, bg, text), ..self }
    }

    /// The state with every cell of the back grid a space with the given
    /// attributes.
    pub open spec fn cleared(self, fg: u16, bg: u16) -> EngineState {
        EngineState {
            back: Grid::filled(self.back.width, self.back.height, Cell { ch: 0x20, fg, bg }),
            ..self
        }
    }

    /// The state with the cursor wanted at column `x`, row `y`, or hidden
    /// where either is negative.
    pub open spec fn with_cursor(self, x: isize, y: isize) -> EngineState {
        EngineState {
            cursor: if x < 0 || y < 0 {
                None
            } else {
                Some((x as usize, y as usize))
            },
            ..self
        }
    }

    /// The state after the terminal changed to the given size: both grids
    /// blank at that size, a wipe of the screen waiting to be sent, and a
    /// resize event due.
    pub open spec fn resized_to(self, width: u16, height: u16) -> EngineState {
        EngineState {
            front: Grid::filled(width as nat, height as nat, blank_cell()),
            back: Grid::filled(width as nat, height as nat, blank_cell()),
            pending: self.pending + wiped(),
            resized: true,
            ..self
        }
    }

    /// The state with more bytes read from the terminal.
    pub open spec fn with_input(self, bytes: Seq<u8>) -> EngineState {
        EngineState { input: self.input + bytes, ..self }
    }

    /// The bytes of the next frame: what is pending, then every cell in
    /// which the back grid differs from the front grid, then the cursor.
    pub open spec fn frame(self) -> Seq<u8> {
        let body = self.pending + changes(self.front, self.back, self.back.cells.len());
        body + cursor_bytes(self.shown, self.cursor, body.len() > 0)
    }

    /// The state once the frame has been sent: the front grid equals the
    /// back grid, the cursor is where it was wanted, nothing is pending.
    pub open spec fn presented(self) -> EngineState {
        EngineState { front: self.back, shown: self.cursor, pending: Seq::empty(), ..self }
    }

    /// The event that is ready to be delivered, with the state once it has
    /// been taken; `None` where no event is ready.
    ///
    /// A resize comes before any key. A key is ready where the undecoded
    /// input starts with a whole key press, or with part of one and the
    /// terminal has been quiet for `ESCAPE_WAIT` milliseconds or more.
    pub open spec fn next_event(self, quiet: usize) -> Option<(event, EngineState)> {
        if self.resized {
            Some(
                (
                    event::resize_event(self.back.width as i32, self.back.height as i32),
                    EngineState { resized: false, ..self },
                ),
            )
        } else {
            match decoding(self.input, quiet >= ESCAPE_WAIT) {
                Some(d) => Some(
                    (
                        event::key_event(0, key_of_code(d.key), d.ch),
                        EngineState { input: self.input.skip(d.used as int), ..self },
                    ),
                ),
                None => None,
            }
        }
    }

    /// How long to wait for the rest of a key press: what is left of
    /// `ESCAPE_WAIT` after `quiet` milliseconds of silence.
    pub open spec fn escape_wait_left(quiet: usize) -> usize {
        if quiet < ESCAPE_WAIT {
            (ESCAPE_WAIT - quiet) as usize
        } else {
            0
        }
    }

    /// What `poll_event` answers in this state, and the state it leaves.
    pub open spec fn polled(self, quiet: usize) -> (Step, EngineState) {
        match self.next_event(quiet) {
            Some((e, after)) => (Step::Deliver(e), after),
            None => (
                Step::Read(
                    if self.input.len() > 0 {
                        Wait::AtMost(Self::escape_wait_left(quiet))
                    } else {
                        Wait::Forever
                    },
                ),
                self,
            ),
        }
    }

    /// What `peek_event` answers in this state with `timeout` milliseconds
    /// left, and the state it leaves.
    pub open spec fn peeked(self, timeout: usize, quiet: usize) -> (Step, EngineState) {
        match self.next_event(quiet) {
            Some((e, after)) => (Step::Deliver(e), after),
            None => (
                if timeout == 0 {
                    Step::Deliver(event::no_event)
                } else if self.input.len() > 0 && Self::escape_wait_left(quiet) < timeout {
                    Step::Read(Wait::AtMost(Self::escape_wait_left(quiet)))
                } else {
                    Step::Read(Wait::AtMost(timeout))
                },
                self,
            ),
        }
    }
}

/// One screen and one input decoder.
#[derive(Debug)]
pub struct Engine {
    active: bool,
    front: CellBuffer,
    back: CellBuffer,
    shown: Option<(usize, usize)>,
    cursor: Option<(usize, usize)>,
    pending: Vec<u8>,
    input: Vec<u8>,
    resized: bool,
}

impl View for Engine {
    type V = EngineState;

    closed spec fn view(&self) -> EngineState {
        EngineState {
            active: self.active,
            front: self.front@,
            back: self.back@,
            shown: self.shown,
            cursor: self.cursor,
            pending: self.pending@,
            input: self.input@,
            resized: self.resized,
        }
    }
}

/// The foreground attribute of a style and a color.
pub open spec fn foreground(sty: style, fg: color) -> u16 {
    color_code(fg) | style_bits(sty)
}

/// Starts the engine on a terminal, given how taking over the terminal
/// went. Nothing is sent yet: the greeting goes out with the first frame.
pub fn init(startup: Startup) -> (started: Result<Engine, InitError>)
    ensures
        match startup {
            Startup::NotATerminal => started matches Err(e) && e == InitError::NotATerminal,
            Startup::RawModeFailed => started matches Err(e) && e == InitError::RawModeFailed,
            Startup::Ready(width, height) => started matches Ok(eng) && eng@
                == EngineState::started(width, height) && eng@.wf(),
        },
{
    match startup {
        Startup::NotATerminal => Err(InitError::NotATerminal),
        Startup::RawModeFailed => Err(InitError::RawModeFailed),
        Startup::Ready(width, height) => {
            let mut pending: Vec<u8> = Vec::new();
            push_screen(&mut pending, true);
            push_cursor_visible(&mut pending, false);
            push_wiped(&mut pending);
            assert(pending@ =~= greeting());
            Ok(
                Engine {
                    active: true,
                    front: CellBuffer::new(width, height),
                    back: CellBuffer::new(width, height),
                    shown: None,
                    cursor: None,
                    pending,
                    input: Vec::new(),
                    resized: false,
                },
            )
        },
    }
}

/// Shuts the engine down and returns the bytes that give the terminal back.
/// Shutting down an engine that has shut down already does nothing and
/// returns nothing.
pub fn shutdown(eng: &mut Engine) -> (out: Vec<u8>)
    requires
        old(eng)@.wf(),
    ensures
        out@ == old(eng)@.farewell(),
        final(eng)@ == old(eng)@.shut_down(),
        final(eng)@.wf(),
        !old(eng)@.active ==> final(eng)@ == old(eng)@,
{
    let mut out: Vec<u8> = Vec::new();
    if eng.active {
        push_cursor_visible(&mut out, true);
        push_rendition_reset(&mut out);
        push_screen_erased(&mut out);
        push_screen(&mut out, false);
        assert(out@ =~= parting());
        eng.active = false;
        eng.front = CellBuffer::new(0, 0);
        eng.back = CellBuffer::new(0, 0);
        eng.shown = None;
        eng.cursor = None;
        eng.pending = Vec::new();
        eng.input = Vec::new();
        eng.resized = false;
    }
    out
}

/// Whether the engine holds the terminal.
pub fn is_active(eng: &Engine) -> (active: bool)
    ensures
        active == eng@.active,
{
    eng.active
}

/// The number of columns.
pub fn width(eng: &Engine) -> (columns: usize)
    requires
        eng@.wf(),
        eng@.active,
    ensures
        columns == eng@.back.width,
        columns == eng@.front.width,
{
    eng.back.get_size().0
}

/// The number of rows.
pub fn height(eng: &Engine) -> (rows: usize)
    requires
        eng@.wf(),
        eng@.active,
    ensures
        rows == eng@.back.height,
        rows == eng@.front.height,
{
    eng.back.get_size().1
}

/// The cell of the back grid at column `x`, row `y`, or `None` outside it.
pub fn cell_at(eng: &Engine, x: usize, y: usize) -> (cell: Option<Cell>)
    requires
        eng@.wf(),
        eng@.active,
    ensures
        cell == (if eng@.back.holds(x as int, y as int) {
            Some(eng@.back.at(x as int, y as int))
        } else {
            None
        }),
{
    eng.back.get(x, y)
}

/// Where the cursor is to be after the next frame; `None` while it is to be
/// hidden.
pub fn cursor(eng: &Engine) -> (place: Option<(usize, usize)>)
    ensures
        place == eng@.cursor,
{
    eng.cursor
}

/// Sets every cell of the back grid to a space in the given colors.
pub fn clear(eng: &mut Engine, fg: color, bg: color)
    requires
        old(eng)@.wf(),
        old(eng)@.active,
    ensures
        final(eng)@ == old(eng)@.cleared(color_code(fg), color_code(bg)),
        final(eng)@.wf(),
{
    eng.back.clear(convert_color(fg), convert_color(bg));
}

/// Sends nothing itself: returns the bytes of the next frame, for the caller
/// to write in one piece, and takes them as sent. Where the terminal already
/// shows what it should, the frame is empty and there is nothing to write.
pub fn present(eng: &mut Engine) -> (out: Vec<u8>)
    requires
        old(eng)@.wf(),
        old(eng)@.active,
    ensures
        out@ == old(eng)@.frame(),
        final(eng)@ == old(eng)@.presented(),
        final(eng)@.wf(),
{
    let mut out: Vec<u8> = Vec::new();
    push_bytes(&mut out, eng.pending.as_slice());
    eng.pending = Vec::new();
    draw_changes(&mut out, &mut eng.front, &eng.back);
    let drawn = out.len() > 0;
    push_cursor(&mut out, eng.shown, eng.cursor, drawn);
    eng.shown = eng.cursor;
    assert(out@ =~= old(eng)@.frame());
    out
}

/// Asks for the cursor at column `cx`, row `cy` from the next frame on. A
/// negative coordinate hides the cursor.
pub fn set_cursor(eng: &mut Engine, cx: isize, cy: isize)
    requires
        old(eng)@.wf(),
        old(eng)@.active,
    ensures
        final(eng)@ == old(eng)@.with_cursor(cx, cy),
        final(eng)@.wf(),
{
    if cx < 0 || cy < 0 {
        eng.cursor = None;
    } else {
        eng.cursor = Some((cx as usize, cy as usize));
    }
}

/// Asks for the cursor to be hidden from the next frame on.
pub fn hide_cursor(eng: &mut Engine)
    requires
        old(eng)@.wf(),
        old(eng)@.active,
    ensures
        final(eng)@ == (EngineState { cursor: None, ..old(eng)@ }),
        final(eng)@.wf(),
{
    eng.cursor = None;
}

/// Sets the cell of the back grid at column `x`, row `y`. A position outside
/// the grid is ignored: nothing changes.
pub fn change_cell(eng: &mut Engine, x: usize, y: usize, ch: u32, fg: u16, bg: u16)
    requires
        old(eng)@.wf(),
        old(eng)@.active,
    ensures
        final(eng)@ == old(eng)@.with_cell(x as int, y as int, Cell { ch, fg, bg }),
        !old(eng)@.back.holds(x as int, y as int) ==> final(eng)@ == old(eng)@,
        final(eng)@.wf(),
{
    eng.back.set_cell(x, y, ch, fg, bg);
}

/// Writes a string into the back grid, its first character at column `x`,
/// row `y`, one cell per character. The string does not wrap.
pub fn print(eng: &mut Engine, x: usize, y: usize, sty: style, fg: color, bg: color, s: &str)
    requires
        old(eng)@.wf(),
        old(eng)@.active,
    ensures
        final(eng)@ == old(eng)@.with_text(
            x as int,
            y as int,
            foreground(sty, fg),
            color_code(bg),
            s@,
        ),
        final(eng)@.wf(),
{
    let fg: u16 = convert_color(fg) | convert_style(sty);
    let bg: u16 = convert_color(bg);
    eng.back.set_text(x, y, fg, bg, s);
}

/// Writes one character into the back grid at column `x`, row `y`.
pub fn print_ch(eng: &mut Engine, x: usize, y: usize, sty: style, fg: color, bg: color, ch: char)
    requires
        old(eng)@.wf(),
        old(eng)@.active,
    ensures
        final(eng)@ == old(eng)@.with_cell(
            x as int,
            y as int,
            Cell { ch: ch as u32, fg: foreground(sty, fg), bg: color_code(bg) },
        ),
        final(eng)@.wf(),
{
    let fg: u16 = convert_color(fg) | convert_style(sty);
    let bg: u16 = convert_color(bg);
    change_cell(eng, x, y, ch as u32, fg, bg);
}

/// Tells the engine that the terminal now has the given size. Both grids
/// are blank afterwards, the next frame starts by wiping the screen, and the
/// next event is the resize.
pub fn notify_resize(eng: &mut Engine, width: u16, height: u16)
    requires
        old(eng)@.wf(),
        old(eng)@.active,
    ensures
        final(eng)@ == old(eng)@.resized_to(width, height),
        final(eng)@.wf(),
{
    eng.front.resize(width, height);
    eng.back.resize(width, height);
    push_wiped(&mut eng.pending);
    eng.resized = true;
}

/// Hands the engine bytes that were read from the terminal.
pub fn feed(eng: &mut Engine, bytes: &[u8])
    requires
        old(eng)@.wf(),
        old(eng)@.active,
    ensures
        final(eng)@ == old(eng)@.with_input(bytes@),
        final(eng)@.wf(),
{
    push_bytes(&mut eng.input, bytes);
}

/// The number of bytes read from the terminal and not yet decoded.
pub fn undecoded(eng: &Engine) -> (n: usize)
    ensures
        n == eng@.input.len(),
{
    eng.input.len()
}

/// The state of the input decoder: whether an escape sequence is under way.
pub fn decoder_state(eng: &Engine) -> (st: DecoderState)
    ensures
        st == state_of(eng@.input),
{
    state(eng.input.as_slice())
}

/// Removes the first `n` bytes.
fn drop_front(bytes: &mut Vec<u8>, n: usize)
    requires
        n <= old(bytes)@.len(),
    ensures
        final(bytes)@ == old(bytes)@.skip(n as int),
{
    let mut rest: Vec<u8> = Vec::new();
    let mut i: usize = n;
    while i < bytes.len()
        invariant
            n <= i <= bytes@.len(),
            bytes@ == old(bytes)@,
            rest@ == old(bytes)@.subrange(n as int, i as int),
        decreases bytes@.len() - i,
    {
        rest.push(bytes[i]);
        i += 1;
        assert(rest@ =~= old(bytes)@.subrange(n as int, i as int));
    }
    assert(rest@ =~= old(bytes)@.skip(n as int));
    *bytes = rest;
}

/// Takes the event that is ready, if one is.
fn take_event(eng: &mut Engine, quiet: usize) -> (taken: Option<event>)
    requires
        old(eng)@.wf(),
        old(eng)@.active,
    ensures
        final(eng)@.wf(),
        final(eng)@.active,
        match old(eng)@.next_event(quiet) {
            Some((e, after)) => taken == Some(e) && final(eng)@ == after,
            None => taken is None && final(eng)@ == old(eng)@,
        },
{
    if eng.resized {
        eng.resized = false;
        let (w, h) = eng.back.get_size();
        let ev = raw_event { etype: 2, emod: 0, key: 0, ch: 0, w: w as i32, h: h as i32 };
        Some(unpack_event(EVENT_RESIZE, &ev))
    } else {
        proof {
            decoding_takes_bytes(eng@.input, quiet >= ESCAPE_WAIT);
        }
        match decode(eng.input.as_slice(), quiet >= ESCAPE_WAIT) {
            Some(d) => {
                drop_front(&mut eng.input, d.used);
                let ev = raw_event { etype: 1, emod: 0, key: d.key, ch: d.ch, w: 0, h: 0 };
                Some(unpack_event(EVENT_KEY, &ev))
            },
            None => None,
        }
    }
}

/// One step of waiting for an event with no limit on the wait.
///
/// `quiet` is the number of milliseconds since the terminal last sent a
/// byte. The answer is the event that is ready, or else how long to read for
/// before asking again: until something arrives where no key press has
/// begun, and for what is left of `ESCAPE_WAIT` where one has.
pub fn poll_event(eng: &mut Engine, quiet: usize) -> (step: Step)
    requires
        old(eng)@.wf(),
        old(eng)@.active,
    ensures
        (step, final(eng)@) == old(eng)@.polled(quiet),
        final(eng)@.wf(),
{
    match take_event(eng, quiet) {
        Some(e) => Step::Deliver(e),
        None => {
            if eng.input.len() > 0 {
                Step::Read(Wait::AtMost(escape_wait_left(quiet)))
            } else {
                Step::Read(Wait::Forever)
            }
        },
    }
}

/// One step of waiting for an event for a limited time.
///
/// `timeout` is the number of milliseconds the caller is still willing to
/// wait, `quiet` the number of milliseconds since the terminal last sent a
/// byte. The answer is the event that is ready; or `no_event` where none is
/// and no time is left; or else how long to read for before asking again.
pub fn peek_event(eng: &mut Engine, timeout: usize, quiet: usize) -> (step: Step)
    requires
        old(eng)@.wf(),
        old(eng)@.active,
    ensures
        (step, final(eng)@) == old(eng)@.peeked(timeout, quiet),
        final(eng)@.wf(),
{
    match take_event(eng, quiet) {
        Some(e) => Step::Deliver(e),
        None => {
            if timeout == 0 {
                Step::Deliver(event::no_event)
            } else if eng.input.len() > 0 && escape_wait_left(quiet) < timeout {
                Step::Read(Wait::AtMost(escape_wait_left(quiet)))
            } else {
                Step::Read(Wait::AtMost(timeout))
            }
        },
    }
}

/// What is left of `ESCAPE_WAIT` after `quiet` milliseconds of silence.
pub fn escape_wait_left(quiet: usize) -> (left: usize)
    ensures
        left == EngineState::escape_wait_left(quiet),
{
    if quiet < ESCAPE_WAIT {
        ESCAPE_WAIT - quiet
    } else {
        0
    }
}

} // verus!
