use dstimer::entry::{Cell, EntryOutcome, TimeEntry, Tone, ERR_ZERO_DURATION};
use dstimer::keys::{is_quit_event, Key, KeyInput};

fn press(code: Key) -> KeyInput {
    KeyInput { code, ctrl: false, press: true }
}

fn type_digits(e: &mut TimeEntry, digits: &str) {
    for c in digits.chars() {
        assert_eq!(e.handle_key(&press(Key::Char(c))), EntryOutcome::Edited);
    }
}

#[test]
fn quit_keys() {
    assert!(is_quit_event(&press(Key::Esc)));
    assert!(is_quit_event(&KeyInput { code: Key::Char('c'), ctrl: true, press: true }));
    assert!(!is_quit_event(&press(Key::Char('c'))));
    assert!(!is_quit_event(&KeyInput { code: Key::Char('x'), ctrl: true, press: true }));
    assert!(!is_quit_event(&press(Key::Enter)));
}

#[test]
fn typing_a_duration_and_submitting() {
    let mut e = TimeEntry::new();
    type_digits(&mut e, "013017");
    assert_eq!(e.cursor(), 6);
    assert_eq!(e.seconds(), 5417);
    assert_eq!(e.handle_key(&press(Key::Enter)), EntryOutcome::Submit(5417));
}

#[test]
fn tens_of_minutes_and_seconds_stop_at_five() {
    let mut e = TimeEntry::new();
    type_digits(&mut e, "00");
    assert_eq!(e.handle_key(&press(Key::Char('6'))), EntryOutcome::Continue);
    assert_eq!(e.cursor(), 2);
    type_digits(&mut e, "59");
    assert_eq!(e.handle_key(&press(Key::Char('9'))), EntryOutcome::Continue);
    type_digits(&mut e, "59");
    assert_eq!(e.seconds(), 59 * 60 + 59);
    assert_eq!(e.handle_key(&press(Key::Char('1'))), EntryOutcome::Continue);
}

#[test]
fn zero_duration_is_refused() {
    let mut e = TimeEntry::new();
    assert!(!e.shows_zero_error());
    assert_eq!(e.handle_key(&press(Key::Enter)), EntryOutcome::Continue);
    assert!(e.shows_zero_error());
    assert_eq!(ERR_ZERO_DURATION, "Duration must be greater than 0 seconds");
    type_digits(&mut e, "0");
    assert!(!e.shows_zero_error());
}

#[test]
fn backspace_clears_the_previous_digit() {
    let mut e = TimeEntry::new();
    type_digits(&mut e, "12");
    assert_eq!(e.handle_key(&press(Key::Backspace)), EntryOutcome::Edited);
    assert_eq!(e.cursor(), 1);
    assert_eq!(e.seconds(), 10 * 3600);
    let mut z = TimeEntry::new();
    assert_eq!(z.handle_key(&press(Key::Backspace)), EntryOutcome::Continue);
}

#[test]
fn arrows_move_the_cursor() {
    let mut e = TimeEntry::new();
    assert_eq!(e.handle_key(&press(Key::Left)), EntryOutcome::Continue);
    for _ in 0..5 {
        assert_eq!(e.handle_key(&press(Key::Right)), EntryOutcome::Edited);
    }
    assert_eq!(e.cursor(), 5);
    assert_eq!(e.handle_key(&press(Key::Right)), EntryOutcome::Continue);
    type_digits(&mut e, "7");
    assert_eq!(e.seconds(), 7);
    assert_eq!(e.handle_key(&press(Key::Left)), EntryOutcome::Edited);
    assert_eq!(e.cursor(), 5);
}

#[test]
fn quitting_and_releases() {
    let mut e = TimeEntry::new();
    assert_eq!(e.handle_key(&press(Key::Esc)), EntryOutcome::Quit);
    let release = KeyInput { code: Key::Char('5'), ctrl: false, press: false };
    assert_eq!(e.handle_key(&release), EntryOutcome::Continue);
    assert_eq!(e.cursor(), 0);
    let ctrl_c = KeyInput { code: Key::Char('c'), ctrl: true, press: true };
    assert_eq!(e.handle_key(&ctrl_c), EntryOutcome::Quit);
    assert_eq!(e.handle_key(&press(Key::Char('x'))), EntryOutcome::Continue);
}

#[test]
fn mask_cells() {
    let mut e = TimeEntry::new();
    assert_eq!(e.cell(0, true), Cell { glyph: 'H', tone: Tone::Cursor });
    assert_eq!(e.cell(0, false), Cell { glyph: ' ', tone: Tone::Cursor });
    assert_eq!(e.cell(3, true), Cell { glyph: 'M', tone: Tone::Pending });
    assert_eq!(e.cell(5, false), Cell { glyph: 'S', tone: Tone::Pending });
    type_digits(&mut e, "03");
    assert_eq!(e.cell(0, true), Cell { glyph: '0', tone: Tone::Entered });
    assert_eq!(e.cell(1, true), Cell { glyph: '3', tone: Tone::Entered });
    assert_eq!(e.cell(2, true), Cell { glyph: 'M', tone: Tone::Cursor });
    e.handle_key(&press(Key::Left));
    e.handle_key(&press(Key::Left));
    assert_eq!(e.cell(1, true), Cell { glyph: '3', tone: Tone::Pending });
    assert_eq!(e.cell(0, false), Cell { glyph: ' ', tone: Tone::Cursor });
}

#[test]
fn mask_agrees_with_clock_text() {
    for digits in ["013017", "000001", "995959", "100000"] {
        let mut e = TimeEntry::new();
        type_digits(&mut e, digits);
        let text = format!("{}:{}:{}", &digits[0..2], &digits[2..4], &digits[4..6]);
        assert_eq!(dstimer::clock::parse_time(&text), Ok(e.seconds()));
        assert_eq!(e.handle_key(&press(Key::Enter)), EntryOutcome::Submit(e.seconds()));
    }
}
