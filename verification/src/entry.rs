//! The `HH:MM:SS` entry mask of the interactive prompt, as a state machine:
//! each key press moves it to a new state and tells the caller what to do.

use vstd::prelude::*;
use crate::clock::{
    digit_value, digits_value, is_digit, lemma_digit_char, lemma_split_append, lemma_split_single,
    split_on, time_seconds, u64_from_decimal, unsigned_part,
};
use crate::keys::{quits, Key, KeyInput};
use crate::text::{digit_char, digit_to_char};

verus! {

/// Shown when the entered duration is zero.
pub const ERR_ZERO_DURATION: &'static str = "Duration must be greater than 0 seconds";

/// The abstract state of the entry mask: six digits `HHMMSS`, the cursor
/// position (0 to 6) and whether the zero-duration error is shown.
pub struct EntryState {
    pub digits: Seq<int>,
    pub cursor: int,
    pub zero_error: bool,
}

/// What the prompt does after a key.
#[derive(Clone, Copy, Debug, PartialEq, Eq, Structural)]
pub enum EntryOutcome {
    /// Nothing more than redrawing.
    Continue,
    /// The entry changed: the cursor blink restarts visible.
    Edited,
    /// The user confirmed a non-zero duration of this many seconds.
    Submit(u64),
    /// The user asked to quit.
    Quit,
}

/// Positions 2 and 4 hold the tens of minutes and of seconds.
pub open spec fn is_tens_position(i: int) -> bool {
    i == 2 || i == 4
}

/// A well-formed mask: six digits, tens of minutes and seconds at most 5,
/// the cursor within `0..=6`.
pub open spec fn entry_wf(s: EntryState) -> bool {
    &&& s.digits.len() == 6
    &&& 0 <= s.cursor <= 6
    &&& forall|i: int| 0 <= i < 6 ==> 0 <= #[trigger] s.digits[i] <= 9
    &&& s.digits[2] <= 5
    &&& s.digits[4] <= 5
}

/// The duration, in seconds, that digits `HHMMSS` stand for.
pub open spec fn entry_seconds(d: Seq<int>) -> int {
    (d[0] * 10 + d[1]) * 3600 + (d[2] * 10 + d[3]) * 60 + d[4] * 10 + d[5]
}

/// Whether all six digits are zero.
pub open spec fn all_zero(d: Seq<int>) -> bool {
    forall|i: int| 0 <= i < 6 ==> #[trigger] d[i] == 0
}

/// The effect of one key on the mask.
pub open spec fn entry_step(s: EntryState, key: KeyInput) -> (EntryState, EntryOutcome) {
    if !key.press {
        (s, EntryOutcome::Continue)
    } else if quits(key) {
        (s, EntryOutcome::Quit)
    } else {
        match key.code {
            Key::Char(c) => if is_digit(c) && s.cursor < 6 {
                if is_tens_position(s.cursor) && digit_value(c) > 5 {
                    (s, EntryOutcome::Continue)
                } else {
                    (
                        EntryState {
                            digits: s.digits.update(s.cursor, digit_value(c)),
                            cursor: s.cursor + 1,
                            zero_error: false,
                        },
                        EntryOutcome::Edited,
                    )
                }
            } else {
                (s, EntryOutcome::Continue)
            },
            Key::Backspace => if s.cursor > 0 {
                (
                    EntryState {
                        digits: s.digits.update(s.cursor - 1, 0),
                        cursor: s.cursor - 1,
                        zero_error: s.zero_error,
                    },
                    EntryOutcome::Edited,
                )
            } else {
                (s, EntryOutcome::Continue)
            },
            Key::Left => if s.cursor > 0 {
                (
                    EntryState { digits: s.digits, cursor: s.cursor - 1, zero_error: s.zero_error },
                    EntryOutcome::Edited,
                )
            } else {
                (s, EntryOutcome::Continue)
            },
            Key::Right => if s.cursor < 5 {
                (
                    EntryState { digits: s.digits, cursor: s.cursor + 1, zero_error: s.zero_error },
                    EntryOutcome::Edited,
                )
            } else {
                (s, EntryOutcome::Continue)
            },
            Key::Enter => if all_zero(s.digits) {
                (
                    EntryState { digits: s.digits, cursor: s.cursor, zero_error: true },
                    EntryOutcome::Continue,
                )
            } else {
                (s, EntryOutcome::Submit(entry_seconds(s.digits) as u64))
            },
            _ => (s, EntryOutcome::Continue),
        }
    }
}

/// How one of the six places of the mask is drawn.
#[derive(Clone, Copy, Debug, PartialEq, Eq, Structural)]
pub enum Tone {
    /// The place under the cursor.
    Cursor,
    /// A place before the cursor.
    Entered,
    /// A place after the cursor.
    Pending,
}

/// The character and tone of one place of the mask.
#[derive(Clone, Copy, Debug, PartialEq, Eq, Structural)]
pub struct Cell {
    pub glyph: char,
    pub tone: Tone,
}

/// The letter that marks an empty place: `H`, `M` or `S`.
pub open spec fn placeholder(i: int) -> char {
    if i < 2 { 'H' } else if i < 4 { 'M' } else { 'S' }
}

/// Place `i` of the mask, with the blinking cursor shown or not.
pub open spec fn entry_cell(s: EntryState, i: int, blink_visible: bool) -> Cell {
    Cell {
        glyph: if s.digits[i] > 0 || i < s.cursor {
            digit_char(s.digits[i])
        } else if i == s.cursor {
            if blink_visible { placeholder(i) } else { ' ' }
        } else {
            placeholder(i)
        },
        tone: if i == s.cursor {
            Tone::Cursor
        } else if i < s.cursor {
            Tone::Entered
        } else {
            Tone::Pending
        },
    }
}

/// The entry mask of the interactive prompt.
pub struct TimeEntry {
    digits: [u8; 6],
    cursor: usize,
    zero_error: bool,
}

impl View for TimeEntry {
    type V = EntryState;

    closed spec fn view(&self) -> EntryState {
        EntryState {
            digits: self.digits@.map_values(|d: u8| d as int),
            cursor: self.cursor as int,
            zero_error: self.zero_error,
        }
    }
}

impl TimeEntry {
    /// Every mask is well-formed.
    #[verifier::type_invariant]
    spec fn inv(self) -> bool {
        entry_wf(self@)
    }

    /// An empty mask: `HH:MM:SS`, cursor on the first place, no error.
    pub fn new() -> (e: TimeEntry)
        ensures
            entry_wf(e@),
            e@.digits == seq![0int, 0, 0, 0, 0, 0],
            e@.cursor == 0,
            !e@.zero_error,
    {
        let e = TimeEntry { digits: [0u8, 0, 0, 0, 0, 0], cursor: 0, zero_error: false };
        assert(e@.digits =~= seq![0int, 0, 0, 0, 0, 0]);
        e
    }

    /// The cursor position, `0..=6`.
    pub fn cursor(&self) -> (c: usize)
        ensures
            c == self@.cursor,
    {
        self.cursor
    }

    /// Whether the zero-duration error is shown.
    pub fn shows_zero_error(&self) -> (b: bool)
        ensures
            b == self@.zero_error,
    {
        self.zero_error
    }

    /// The duration that the digits stand for.
    pub fn seconds(&self) -> (secs: u64)
        ensures
            secs == entry_seconds(self@.digits),
    {
        proof {
            use_type_invariant(self);
        }
        let d = &self.digits;
        let hours = d[0] as u64 * 10 + d[1] as u64;
        let minutes = d[2] as u64 * 10 + d[3] as u64;
        let seconds = d[4] as u64 * 10 + d[5] as u64;
        hours * 3600 + minutes * 60 + seconds
    }

    fn is_all_zero(&self) -> (b: bool)
        ensures
            b == all_zero(self@.digits),
    {
        proof {
            use_type_invariant(self);
        }
        let mut i: usize = 0;
        while i < 6
            invariant
                entry_wf(self@),
                0 <= i <= 6,
                forall|j: int| 0 <= j < i ==> #[trigger] self@.digits[j] == 0,
            decreases 6 - i,
        {
            if self.digits[i] != 0 {
                assert(self@.digits[i as int] != 0);
                return false;
            }
            i = i + 1;
        }
        true
    }

    /// Applies one key event to the mask.
    pub fn handle_key(&mut self, key: &KeyInput) -> (out: EntryOutcome)
        ensures
            entry_wf(final(self)@),
            (final(self)@, out) == entry_step(old(self)@, *key),
    {
        proof {
            use_type_invariant(&*self);
        }
        let out = if !key.press {
            EntryOutcome::Continue
        } else if crate::keys::is_quit_event(key) {
            EntryOutcome::Quit
        } else {
            match key.code {
                Key::Char(c) => {
                    if '0' <= c && c <= '9' && self.cursor < 6 {
                        let d = (c as u32 - '0' as u32) as u8;
                        if (self.cursor == 2 || self.cursor == 4) && d > 5 {
                            EntryOutcome::Continue
                        } else {
                            let ghost before = self@;
                            let pos = self.cursor;
                            let mut digits = self.digits;
                            digits[pos] = d;
                            assert(digits@.map_values(|x: u8| x as int) =~= before.digits.update(
                                pos as int,
                                digit_value(c),
                            ));
                            self.digits = digits;
                            self.cursor = pos + 1;
                            self.zero_error = false;
                            assert(self@.digits =~= before.digits.update(pos as int, digit_value(c)));
                            EntryOutcome::Edited
                        }
                    } else {
                        EntryOutcome::Continue
                    }
                },
                Key::Backspace => {
                    if self.cursor > 0 {
                        let ghost before = self@;
                        self.cursor = self.cursor - 1;
                        let pos = self.cursor;
                        let mut digits = self.digits;
                        digits[pos] = 0;
                        assert(digits@.map_values(|x: u8| x as int) =~= before.digits.update(
                            pos as int,
                            0,
                        ));
                        self.digits = digits;
                        assert(self@.digits =~= before.digits.update(pos as int, 0));
                        EntryOutcome::Edited
                    } else {
                        EntryOutcome::Continue
                    }
                },
                Key::Left => {
                    if self.cursor > 0 {
                        self.cursor = self.cursor - 1;
                        EntryOutcome::Edited
                    } else {
                        EntryOutcome::Continue
                    }
                },
                Key::Right => {
                    if self.cursor < 5 {
                        self.cursor = self.cursor + 1;
                        EntryOutcome::Edited
                    } else {
                        EntryOutcome::Continue
                    }
                },
                Key::Enter => {
                    if self.is_all_zero() {
                        self.zero_error = true;
                        EntryOutcome::Continue
                    } else {
                        EntryOutcome::Submit(self.seconds())
                    }
                },
                _ => EntryOutcome::Continue,
            }
        };
        proof {
            use_type_invariant(&*self);
        }
        out
    }

    /// How place `i` of the mask is drawn.
    pub fn cell(&self, i: usize, blink_visible: bool) -> (c: Cell)
        requires
            i < 6,
        ensures
            c == entry_cell(self@, i as int, blink_visible),
    {
        proof {
            use_type_invariant(self);
        }
        let d = self.digits[i];
        let mark = if i < 2 { 'H' } else if i < 4 { 'M' } else { 'S' };
        let glyph = if d > 0 || i < self.cursor {
            digit_to_char(d as u64)
        } else if i == self.cursor {
            if blink_visible { mark } else { ' ' }
        } else {
            mark
        };
        let tone = if i == self.cursor {
            Tone::Cursor
        } else if i < self.cursor {
            Tone::Entered
        } else {
            Tone::Pending
        };
        Cell { glyph, tone }
    }
}

/// Every key keeps the mask well-formed: six digits, minute and second
/// tens at most 5, the cursor within the mask.
pub proof fn lemma_step_keeps_wf(s: EntryState, key: KeyInput)
    requires
        entry_wf(s),
    ensures
        entry_wf(entry_step(s, key).0),
{
    let t = entry_step(s, key).0;
    assert forall|i: int| 0 <= i < 6 implies 0 <= #[trigger] t.digits[i] <= 9 by {
        if let Key::Char(c) = key.code {
            assert(is_digit(c) ==> 0 <= digit_value(c) <= 9);
        }
    }
}

/// A confirmed duration is never zero, is the value of the digits shown,
/// and has fewer than 60 minutes past the hour and 60 seconds past the
/// minute.
pub proof fn lemma_submit_nonzero(s: EntryState, key: KeyInput)
    requires
        entry_wf(s),
        entry_step(s, key).1 is Submit,
    ensures
        ({
            let v = entry_step(s, key).1->Submit_0 as int;
            &&& v == entry_seconds(s.digits)
            &&& 0 < v <= 99 * 3600 + 59 * 60 + 59
            &&& v / 3600 == s.digits[0] * 10 + s.digits[1]
            &&& (v % 3600) / 60 == s.digits[2] * 10 + s.digits[3]
            &&& v % 60 == s.digits[4] * 10 + s.digits[5]
        }),
{
    let d = s.digits;
    assert(d[0] >= 0 && d[1] >= 0 && d[2] >= 0 && d[3] >= 0 && d[4] >= 0 && d[5] >= 0);
    assert(d[0] <= 9 && d[1] <= 9 && d[3] <= 9 && d[5] <= 9);
    if entry_seconds(d) == 0 {
        assert forall|i: int| 0 <= i < 6 implies #[trigger] d[i] == 0 by {}
    }
    let h = d[0] * 10 + d[1];
    let m = d[2] * 10 + d[3];
    let sec = d[4] * 10 + d[5];
    let v = h * 3600 + m * 60 + sec;
    assert(v / 3600 == h && (v % 3600) / 60 == m && v % 60 == sec) by (nonlinear_arith)
        requires
            0 <= h <= 99,
            0 <= m <= 59,
            0 <= sec <= 59,
            v == h * 3600 + m * 60 + sec,
    ;
}

/// Releases and repeats of keys change nothing.
pub proof fn lemma_non_press_ignored(s: EntryState, key: KeyInput)
    requires
        !key.press,
    ensures
        entry_step(s, key) == (s, EntryOutcome::Continue),
{
}

/// Esc and Control-C quit without touching the mask.
pub proof fn lemma_quit_keeps_entry(s: EntryState, key: KeyInput)
    requires
        key.press,
        quits(key),
    ensures
        entry_step(s, key) == (s, EntryOutcome::Quit),
{
}

/// The mask's digits as `HH:MM:SS` text.
pub open spec fn entry_text(d: Seq<int>) -> Seq<char> {
    seq![
        digit_char(d[0]),
        digit_char(d[1]),
        ':',
        digit_char(d[2]),
        digit_char(d[3]),
        ':',
        digit_char(d[4]),
        digit_char(d[5]),
    ]
}

/// Two digits as text.
pub open spec fn two_digit_text(a: int, b: int) -> Seq<char> {
    seq![digit_char(a), digit_char(b)]
}

/// Two digit characters read as a number.
proof fn lemma_two_digits(a: int, b: int)
    requires
        0 <= a <= 9,
        0 <= b <= 9,
    ensures
        u64_from_decimal(two_digit_text(a, b)) == Some((a * 10 + b) as u64),
        forall|i: int| 0 <= i < 2 ==> #[trigger] two_digit_text(a, b)[i] != ':',
{
    lemma_digit_char(a);
    lemma_digit_char(b);
    let t = two_digit_text(a, b);
    assert(t.drop_last() =~= seq![digit_char(a)]);
    assert(seq![digit_char(a)].drop_last() =~= Seq::<char>::empty());
    assert(digits_value(Seq::<char>::empty()) == 0);
    assert(digits_value(seq![digit_char(a)]) == a);
    assert(unsigned_part(t) == t);
    assert(forall|i: int| 0 <= i < 2 ==> is_digit(#[trigger] t[i]));
}

/// The duration entered in the mask is the one that its digits, written
/// as `HH:MM:SS` on the command line, stand for.
#[verifier::rlimit(30)]
pub proof fn lemma_entry_matches_clock_text(s: EntryState)
    requires
        entry_wf(s),
    ensures
        time_seconds(entry_text(s.digits)) == Some(entry_seconds(s.digits)),
{
    let d = s.digits;
    assert(0 <= d[0] <= 9 && 0 <= d[1] <= 9 && 0 <= d[2] <= 9);
    assert(0 <= d[3] <= 9 && 0 <= d[4] <= 9 && 0 <= d[5] <= 9);
    let h = two_digit_text(d[0], d[1]);
    let m = two_digit_text(d[2], d[3]);
    let sec = two_digit_text(d[4], d[5]);
    lemma_two_digits(d[0], d[1]);
    lemma_two_digits(d[2], d[3]);
    lemma_two_digits(d[4], d[5]);
    lemma_split_single(h, ':');
    lemma_split_append(h, m, ':');
    lemma_split_append(h + seq![':'] + m, sec, ':');
    assert(entry_text(d) =~= h + seq![':'] + m + seq![':'] + sec);
    assert(split_on(entry_text(d), ':') =~= seq![h, m, sec]);
}

/// Enter confirms the digits shown, wherever the cursor is: when some digit
/// is not zero the mask, unchanged, submits the duration that the digits
/// `HH MM SS` stand for; when all six are zero it stays, showing the
/// zero-duration error.
pub proof fn lemma_enter_confirms(s: EntryState, ctrl: bool)
    requires
        entry_wf(s),
    ensures
        ({
            let key = KeyInput { code: Key::Enter, ctrl, press: true };
            let d = s.digits;
            &&& (exists|i: int| 0 <= i < 6 && #[trigger] d[i] != 0) ==> entry_step(s, key) == (
                s,
                EntryOutcome::Submit(
                    ((d[0] * 10 + d[1]) * 3600 + (d[2] * 10 + d[3]) * 60 + d[4] * 10 + d[5]) as u64,
                ),
            )
            &&& (forall|i: int| 0 <= i < 6 ==> #[trigger] d[i] == 0) ==> entry_step(s, key) == (
                EntryState { digits: d, cursor: s.cursor, zero_error: true },
                EntryOutcome::Continue,
            )
        }),
{
}

/// Typing a digit at a place that takes it writes it there, moves the
/// cursor one place on and clears the error; the tens of minutes and of
/// seconds take only 0 to 5, and a full mask takes no more digits.
pub proof fn lemma_digit_typed(s: EntryState, c: char, ctrl: bool)
    requires
        entry_wf(s),
        '0' <= c <= '9',
    ensures
        ({
            let key = KeyInput { code: Key::Char(c), ctrl, press: true };
            let v = c as int - '0' as int;
            if s.cursor < 6 && !((s.cursor == 2 || s.cursor == 4) && v > 5) {
                entry_step(s, key) == (
                    EntryState {
                        digits: s.digits.update(s.cursor, v),
                        cursor: s.cursor + 1,
                        zero_error: false,
                    },
                    EntryOutcome::Edited,
                )
            } else {
                entry_step(s, key) == (s, EntryOutcome::Continue)
            }
        }),
{
}

/// Backspace clears the digit before the cursor and moves onto it; the
/// arrows move the cursor within the six places (right only up to the
/// last); none of them touches the error, and each restarts the blink.
pub proof fn lemma_editing_keys(s: EntryState, ctrl: bool)
    requires
        entry_wf(s),
    ensures
        ({
            let back = KeyInput { code: Key::Backspace, ctrl, press: true };
            let left = KeyInput { code: Key::Left, ctrl, press: true };
            let right = KeyInput { code: Key::Right, ctrl, press: true };
            &&& entry_step(s, back) == if s.cursor > 0 {
                (
                    EntryState {
                        digits: s.digits.update(s.cursor - 1, 0),
                        cursor: s.cursor - 1,
                        zero_error: s.zero_error,
                    },
                    EntryOutcome::Edited,
                )
            } else {
                (s, EntryOutcome::Continue)
            }
            &&& entry_step(s, left) == if s.cursor > 0 {
                (
                    EntryState { digits: s.digits, cursor: s.cursor - 1, zero_error: s.zero_error },
                    EntryOutcome::Edited,
                )
            } else {
                (s, EntryOutcome::Continue)
            }
            &&& entry_step(s, right) == if s.cursor < 5 {
                (
                    EntryState { digits: s.digits, cursor: s.cursor + 1, zero_error: s.zero_error },
                    EntryOutcome::Edited,
                )
            } else {
                (s, EntryOutcome::Continue)
            }
        }),
{
}

/// How the mask is drawn: the place under the cursor is highlighted, places
/// before it are entered, places after it pending; a place before the
/// cursor or holding a non-zero digit shows that digit; an empty place
/// shows its letter (`HHMMSS`), except under the cursor while the blink is
/// off, where it shows a blank.
pub proof fn lemma_cell_shows(s: EntryState, i: int, blink_visible: bool)
    requires
        entry_wf(s),
        0 <= i < 6,
    ensures
        ({
            let c = entry_cell(s, i, blink_visible);
            &&& (c.tone == Tone::Cursor) == (i == s.cursor)
            &&& (c.tone == Tone::Entered) == (i < s.cursor)
            &&& (c.tone == Tone::Pending) == (i > s.cursor)
            &&& (s.digits[i] > 0 || i < s.cursor) ==> is_digit(c.glyph) && digit_value(c.glyph)
                == s.digits[i]
            &&& !(s.digits[i] > 0 || i < s.cursor) ==> c.glyph == if i == s.cursor
                && !blink_visible {
                ' '
            } else {
                seq!['H', 'H', 'M', 'M', 'S', 'S'][i]
            }
        }),
{
    lemma_digit_char(s.digits[i]);
}

} // verus!
