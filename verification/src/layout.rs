//! Where things go on the terminal: columns and rows of the timer, the
//! prompts and the messages, and the progress bar's text.

use vstd::prelude::*;
use crate::text::push_char;
use vstd::string::StringSliceAdditionalSpecFns;

verus! {

/// `a - b`, or 0 when `b` exceeds `a` (`saturating_sub`).
pub open spec fn sat_sub(a: int, b: int) -> int {
    if a >= b {
        a - b
    } else {
        0
    }
}

/// The column at which a text `width` columns wide starts to stand
/// centered in `cols` columns (at column 0 when it is wider).
pub open spec fn centered(cols: u16, width: int) -> int {
    sat_sub(cols as int, width) / 2
}

/// The column that centers `text`, one column per character, in `cols`
/// columns.
pub fn centered_col(cols: u16, text: &str) -> (c: u16)
    ensures
        c == centered(cols, text@.len() as int),
{
    let width = text.unicode_len();
    if width >= cols as usize {
        0
    } else {
        ((cols as usize - width) / 2) as u16
    }
}

/// Placement of the full-screen timer: the time centered two rows above
/// the middle row, the bar on the middle row from column 2, four columns
/// narrower than the screen.
pub struct TimerLayout {
    pub time_col: u16,
    pub time_row: u16,
    pub bar_col: u16,
    pub bar_row: u16,
    pub bar_width: u16,
}

/// Lays out the full-screen timer on a `cols` by `rows` screen for the
/// time text `time`.
pub fn fullscreen_timer_layout(cols: u16, rows: u16, time: &str) -> (l: TimerLayout)
    ensures
        l.time_col == centered(cols, time@.len() as int),
        l.time_row == sat_sub(rows as int / 2, 2),
        l.bar_col == 2,
        l.bar_row == rows / 2,
        l.bar_width == sat_sub(cols as int, 4),
{
    let center_row = rows / 2;
    TimerLayout {
        time_col: centered_col(cols, time),
        time_row: center_row.saturating_sub(2),
        bar_col: 2,
        bar_row: center_row,
        bar_width: cols.saturating_sub(4),
    }
}

/// The width of the inline bar: the line minus the time text, a space and
/// a left margin of two.
pub fn inline_bar_width(cols: u16, time: &str) -> (w: usize)
    ensures
        w == sat_sub(cols as int, time@.len() as int + 3),
{
    let width = time.unicode_len();
    (cols as usize).saturating_sub(width.saturating_add(3))
}

/// `n` copies of `c`.
pub open spec fn repeat(c: char, n: nat) -> Seq<char> {
    Seq::new(n, |i: int| c)
}

/// The bar's text: `filled` full blocks, then light shade up to `width`.
pub open spec fn bar_text(filled: nat, width: nat) -> Seq<char> {
    repeat('\u{2588}', filled) + repeat('\u{2591}', sat_sub(width as int, filled as int) as nat)
}

fn push_repeat(out: &mut String, c: char, n: usize)
    ensures
        final(out)@ == old(out)@ + repeat(c, n as nat),
{
    let mut i: usize = 0;
    while i < n
        invariant
            i <= n,
            out@ == old(out)@ + repeat(c, i as nat),
        decreases n - i,
    {
        push_char(out, c);
        i = i + 1;
        assert(out@ =~= old(out)@ + repeat(c, i as nat));
    }
}

/// The progress bar: `filled` cells of `width` full, the rest shaded.
pub fn progress_bar(filled: usize, width: usize) -> (bar: String)
    ensures
        bar@ == bar_text(filled as nat, width as nat),
{
    let mut bar = String::new();
    push_repeat(&mut bar, '\u{2588}', filled);
    push_repeat(&mut bar, '\u{2591}', width.saturating_sub(filled));
    bar
}

/// Placement of the full-screen duration entry: an error line four rows
/// above the middle, the title two rows above, the `HH : MM : SS` mask (14
/// columns) on the middle row, a hint two rows below.
pub struct EntryLayout {
    pub error_row: u16,
    pub error_col: u16,
    pub title_row: u16,
    pub title_col: u16,
    pub mask_row: u16,
    pub mask_col: u16,
    pub hint_row: u16,
    pub hint_col: u16,
}

/// Lays out the full-screen duration entry for the given error (empty when
/// there is none), title and hint.
pub fn entry_layout(cols: u16, rows: u16, error: &str, title: &str, hint: &str) -> (l: EntryLayout)
    ensures
        l.error_row == sat_sub(rows as int / 2, 4),
        l.error_col == centered(cols, error@.len() as int),
        l.title_row == sat_sub(rows as int / 2, 2),
        l.title_col == centered(cols, title@.len() as int),
        l.mask_row == rows / 2,
        l.mask_col == sat_sub(cols as int, 14) / 2,
        l.hint_row == rows / 2 + 2,
        l.hint_col == centered(cols, hint@.len() as int),
{
    let center_row = rows / 2;
    EntryLayout {
        error_row: center_row.saturating_sub(4),
        error_col: centered_col(cols, error),
        title_row: center_row.saturating_sub(2),
        title_col: centered_col(cols, title),
        mask_row: center_row,
        mask_col: cols.saturating_sub(14) / 2,
        hint_row: center_row + 2,
        hint_col: centered_col(cols, hint),
    }
}

/// Placement of a full-screen text prompt: an error line three rows above
/// the middle, the title one row above, the entry on the middle row in a
/// field at most 60 columns wide, centered.
pub struct PromptLayout {
    pub error_row: u16,
    pub error_col: u16,
    pub title_row: u16,
    pub title_col: u16,
    pub input_row: u16,
    pub input_col: u16,
    pub display_width: usize,
}

/// Lays out a full-screen text prompt for the given error (empty when
/// there is none) and title.
pub fn prompt_layout(cols: u16, rows: u16, error: &str, title: &str) -> (l: PromptLayout)
    ensures
        l.error_row == sat_sub(rows as int / 2, 3),
        l.error_col == centered(cols, error@.len() as int),
        l.title_row == sat_sub(rows as int / 2, 1),
        l.title_col == centered(cols, title@.len() as int),
        l.input_row == rows / 2,
        l.display_width == if cols < 60 { cols as int } else { 60 },
        l.input_col == sat_sub(cols as int, l.display_width as int) / 2,
{
    let center_row = rows / 2;
    let display_width: usize = if (cols as usize) < 60 { cols as usize } else { 60 };
    let input_col = ((cols as usize).saturating_sub(display_width) / 2) as u16;
    PromptLayout {
        error_row: center_row.saturating_sub(3),
        error_col: centered_col(cols, error),
        title_row: center_row.saturating_sub(1),
        title_col: centered_col(cols, title),
        input_row: center_row,
        input_col,
        display_width,
    }
}

/// The last `width` bytes of `input` when it is longer, else all of it:
/// what fits in the entry field.
pub fn visible_tail(input: &str, width: usize) -> (r: &str)
    requires
        input.spec_bytes().len() <= usize::MAX,
        input.spec_bytes().len() > width ==> vstd::utf8::is_char_boundary(
            input.spec_bytes(),
            input.spec_bytes().len() - width,
        ),
    ensures
        input.spec_bytes().len() > width ==> r.spec_bytes() == input.spec_bytes().subrange(
            input.spec_bytes().len() - width,
            input.spec_bytes().len() as int,
        ),
        input.spec_bytes().len() <= width ==> r@ == input@,
{
    let n = input.len();
    if n > width {
        let (_, tail) = input.split_at(n - width);
        tail
    } else {
        input
    }
}

/// Rows of the two finish messages of the full-screen timer: two and four
/// rows below the middle.
pub fn finish_rows(rows: u16) -> (r: (u16, u16))
    ensures
        r.0 == rows / 2 + 2,
        r.1 == rows / 2 + 4,
{
    let center_row = rows / 2;
    (center_row + 2, center_row + 4)
}

/// The bottom row of a screen of `rows` rows.
pub fn bottom_row(rows: u16) -> (r: u16)
    requires
        rows > 0,
    ensures
        r == rows - 1,
{
    rows - 1
}

/// The row below `row` (inline messages go under the timer line).
pub fn next_row(row: u16) -> (r: u16)
    requires
        row < 0xffff,
    ensures
        r == row + 1,
{
    row + 1
}

} // verus!
