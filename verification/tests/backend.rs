use termbox::backend::{
    after_read, after_write, parse_size_report, push_size_probe, Attempt, ReadStep, WriteStep,
};
use termbox::decoder::{state, DecoderState};
use termbox::render::push_decimal;
use termbox::{decoder_state, feed, init, poll_event, Cell, Startup};

fn report(columns: u16, rows: u16) -> Vec<u8> {
    let mut out = vec![0x1B, b'['];
    push_decimal(&mut out, rows as usize);
    out.push(b';');
    push_decimal(&mut out, columns as usize);
    out.push(b'R');
    out
}

#[test]
fn whole_write_is_done() {
    assert_eq!(after_write(10, 0, Attempt::Moved(10)), WriteStep::Done);
    assert_eq!(after_write(10, 7, Attempt::Moved(3)), WriteStep::Done);
    assert_eq!(after_write(10, 7, Attempt::Moved(usize::MAX)), WriteStep::Done);
}

#[test]
fn partial_write_goes_on_with_the_rest() {
    assert_eq!(after_write(10, 0, Attempt::Moved(4)), WriteStep::Again(4));
    assert_eq!(after_write(10, 4, Attempt::Moved(5)), WriteStep::Again(9));
    assert_eq!(after_write(usize::MAX, usize::MAX - 2, Attempt::Moved(1)), WriteStep::Again(usize::MAX - 1));
}

#[test]
fn interrupted_write_is_repeated() {
    assert_eq!(after_write(10, 4, Attempt::Interrupted), WriteStep::Again(4));
}

#[test]
fn failed_or_empty_write_fails() {
    assert_eq!(after_write(10, 4, Attempt::Failed), WriteStep::Fail);
    assert_eq!(after_write(10, 4, Attempt::Moved(0)), WriteStep::Fail);
}

#[test]
fn read_outcomes() {
    assert_eq!(after_read(Attempt::Moved(5)), ReadStep::Feed(5));
    assert_eq!(after_read(Attempt::Moved(0)), ReadStep::Quiet);
    assert_eq!(after_read(Attempt::Interrupted), ReadStep::Retry);
    assert_eq!(after_read(Attempt::Failed), ReadStep::Fail);
}

#[test]
fn size_probe_sends_the_cursor_away_and_asks() {
    let mut out = Vec::new();
    push_size_probe(&mut out);
    assert_eq!(out, b"\x1b[999;999H\x1b[6n");
}

#[test]
fn size_report_names_the_row_first() {
    assert_eq!(parse_size_report(b"\x1b[24;80R"), Some((80, 24)));
    assert_eq!(parse_size_report(b"\x1b[1;1R"), Some((1, 1)));
    assert_eq!(parse_size_report(b"\x1b[0;0R"), Some((0, 0)));
    assert_eq!(parse_size_report(b"\x1b[65535;65535R"), Some((65535, 65535)));
    assert_eq!(parse_size_report(b"\x1b[999;10R"), Some((10, 999)));
}

#[test]
fn size_report_must_be_exact() {
    let bad: Vec<&[u8]> = vec![
        b"",
        b"\x1b",
        b"\x1b[",
        b"\x1b[R",
        b"\x1b[;R",
        b"\x1b[24R",
        b"\x1b[24;R",
        b"\x1b[;80R",
        b"\x1b[24;80",
        b"\x1b[24;80RR",
        b"\x1b[24;80R ",
        b" \x1b[24;80R",
        b"\x1b[024;80R",
        b"\x1b[24;080R",
        b"\x1b[00;0R",
        b"\x1b[65536;80R",
        b"\x1b[24;65536R",
        b"\x1b[100000;80R",
        b"\x1b[24;123456R",
        b"\x1b[24:80R",
        b"\x1b[24;80H",
        b"\x1bO24;80R",
        b"[24;80R",
        b"\x1b[-1;80R",
        b"\x1b[2a;80R",
    ];
    for bytes in bad {
        assert_eq!(parse_size_report(bytes), None);
    }
}

#[test]
fn every_size_report_is_read_back() {
    let sides = [0u16, 1, 9, 10, 11, 99, 100, 101, 999, 1000, 9999, 10000, 65534, 65535];
    for &columns in &sides {
        for &rows in &sides {
            assert_eq!(parse_size_report(&report(columns, rows)), Some((columns, rows)));
        }
    }
    for n in 0..=u16::MAX {
        assert_eq!(parse_size_report(&report(n, 24)), Some((n, 24)));
    }
}

#[test]
fn decoder_is_idle_unless_an_escape_leads() {
    assert_eq!(state(&[]), DecoderState::Idle);
    assert_eq!(state(b"a"), DecoderState::Idle);
    assert_eq!(state(&[0xC3]), DecoderState::Idle);
    assert_eq!(state(&[0x1B]), DecoderState::AccumulatingEscape);
    assert_eq!(state(b"\x1b[1"), DecoderState::AccumulatingEscape);
    assert_eq!(state(b"a\x1b"), DecoderState::Idle);
}

#[test]
fn engine_reports_the_decoder_state() {
    let mut eng = init(Startup::Ready(4, 2)).unwrap();
    assert_eq!(decoder_state(&eng), DecoderState::Idle);
    feed(&mut eng, &[0x1B, 0x5B]);
    assert_eq!(decoder_state(&eng), DecoderState::AccumulatingEscape);
    poll_event(&mut eng, 0);
    assert_eq!(decoder_state(&eng), DecoderState::AccumulatingEscape);
    feed(&mut eng, &[0x41]);
    poll_event(&mut eng, 0);
    assert_eq!(decoder_state(&eng), DecoderState::Idle);
}

#[test]
fn default_cell_is_blank() {
    assert_eq!(Cell::default(), Cell { ch: 0x20, fg: 0x07, bg: 0x00 });
}
