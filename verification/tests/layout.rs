use dstimer::layout::{
    bottom_row, centered_col, entry_layout, finish_rows, fullscreen_timer_layout,
    inline_bar_width, next_row, progress_bar, prompt_layout, visible_tail,
};

#[test]
fn centering() {
    assert_eq!(centered_col(80, "12:00"), 37);
    assert_eq!(centered_col(80, &"x".repeat(80)), 0);
    assert_eq!(centered_col(10, &"x".repeat(20)), 0);
    assert_eq!(centered_col(81, ""), 40);
    assert_eq!(centered_col(100, &"x".repeat(65536 + 10)), 0);
}

#[test]
fn centering_counts_characters() {
    assert_eq!(centered_col(40, "Timer finished \u{266a} Playing audio"), 5);
    assert_eq!(centered_col(40, "Timer finished!"), 12);
    let hint = "Esc to quit | \u{2190} \u{2192} to navigate | Backspace to delete";
    assert_eq!(centered_col(80, hint), 14);
}

#[test]
fn fullscreen_timer() {
    let l = fullscreen_timer_layout(80, 24, "12:00");
    assert_eq!((l.time_col, l.time_row), (37, 10));
    assert_eq!((l.bar_col, l.bar_row, l.bar_width), (2, 12, 76));
    let small = fullscreen_timer_layout(3, 1, "01:00:00");
    assert_eq!((small.time_col, small.time_row, small.bar_row, small.bar_width), (0, 0, 0, 0));
}

#[test]
fn inline_bar() {
    assert_eq!(inline_bar_width(80, "12:00"), 72);
    assert_eq!(inline_bar_width(80, "01:00:00"), 69);
    assert_eq!(inline_bar_width(5, "01:00:00"), 0);
}

#[test]
fn bar_text() {
    assert_eq!(progress_bar(3, 5), "\u{2588}\u{2588}\u{2588}\u{2591}\u{2591}");
    assert_eq!(progress_bar(0, 2), "\u{2591}\u{2591}");
    assert_eq!(progress_bar(2, 2), "\u{2588}\u{2588}");
    assert_eq!(progress_bar(0, 0), "");
}

#[test]
fn entry_screen() {
    let l = entry_layout(80, 24, &"e".repeat(39), &"t".repeat(38), &"h".repeat(10));
    assert_eq!((l.error_row, l.error_col), (8, 20));
    assert_eq!((l.title_row, l.title_col), (10, 21));
    assert_eq!((l.mask_row, l.mask_col), (12, 33));
    assert_eq!((l.hint_row, l.hint_col), (14, 35));
}

#[test]
fn prompt_screen() {
    let l = prompt_layout(100, 30, &"e".repeat(10), &"t".repeat(48));
    assert_eq!((l.error_row, l.error_col), (12, 45));
    assert_eq!((l.title_row, l.title_col), (14, 26));
    assert_eq!((l.input_row, l.input_col, l.display_width), (15, 20, 60));
    let narrow = prompt_layout(40, 2, "", "");
    assert_eq!((narrow.display_width, narrow.input_col, narrow.error_row), (40, 0, 0));
}

#[test]
fn visible_part_of_long_input() {
    assert_eq!(visible_tail("abcdef", 3), "def");
    assert_eq!(visible_tail("abc", 3), "abc");
    assert_eq!(visible_tail("ab", 10), "ab");
}

#[test]
fn rows() {
    assert_eq!(finish_rows(24), (14, 16));
    assert_eq!(bottom_row(24), 23);
    assert_eq!(next_row(5), 6);
}
