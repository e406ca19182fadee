use dstimer::keys::{Key, KeyInput};
use dstimer::prompt::{
    audio_choice, audio_missing_message, starts_with, trim_by, url_choice, url_rejected_message,
    AudioChoice, TextInput, TextOutcome, Trim, UrlChoice,
};

fn press(code: Key) -> KeyInput {
    KeyInput { code, ctrl: false, press: true }
}

#[test]
fn trims_white_space_and_quotes() {
    assert_eq!(trim_by("  a b \t\n", Trim::WhiteSpace), "a b");
    assert_eq!(trim_by("\u{3000}x\u{a0}", Trim::WhiteSpace), "x");
    assert_eq!(trim_by("   ", Trim::WhiteSpace), "");
    assert_eq!(trim_by("\"\"a\"b\"", Trim::Quote), "a\"b");
    assert_eq!(trim_by("\"\"\"", Trim::Quote), "");
    assert_eq!(trim_by("", Trim::Quote), "");
}

#[test]
fn prefix_test() {
    assert!(starts_with("https://x", "https://"));
    assert!(starts_with("abc", ""));
    assert!(!starts_with("http:/", "http://"));
    assert!(!starts_with("ftp://x", "http://"));
}

#[test]
fn url_entries() {
    assert_eq!(url_choice(""), UrlChoice::Skip);
    assert_eq!(url_choice("   "), UrlChoice::Skip);
    assert_eq!(
        url_choice("  https://example.com/hook \t"),
        UrlChoice::Accept("https://example.com/hook".to_string())
    );
    assert_eq!(url_choice("http://h"), UrlChoice::Accept("http://h".to_string()));
    assert_eq!(url_choice("ftp://h"), UrlChoice::Reject);
    assert_eq!(url_choice("example.com"), UrlChoice::Reject);
    assert_eq!(url_rejected_message(false), "URL must start with http:// or https://");
    assert_eq!(url_rejected_message(true), "Must start with http:// or https://");
}

#[test]
fn audio_entries() {
    assert_eq!(audio_choice(""), AudioChoice::Skip);
    assert_eq!(audio_choice("  \"\"  "), AudioChoice::Skip);
    assert_eq!(
        audio_choice("  \"/music/Super Survivor.flac\" "),
        AudioChoice::Candidate("/music/Super Survivor.flac".to_string())
    );
    assert_eq!(audio_choice("/a.wav"), AudioChoice::Candidate("/a.wav".to_string()));
    assert_eq!(
        audio_missing_message("/a.wav", false),
        "\"/a.wav\" not found, check for typos"
    );
    assert_eq!(audio_missing_message("/a.wav", true), "\"/a.wav\" not found");
}

#[test]
fn text_input_editing() {
    let mut t = TextInput::new();
    assert_eq!(t.text(), "");
    assert_eq!(t.handle_key(&press(Key::Char('a'))), TextOutcome::Continue);
    assert_eq!(t.handle_key(&press(Key::Char('é'))), TextOutcome::Continue);
    assert_eq!(t.handle_key(&press(Key::Char('b'))), TextOutcome::Continue);
    assert_eq!(t.text(), "aéb");
    assert_eq!(t.handle_key(&press(Key::Backspace)), TextOutcome::Continue);
    assert_eq!(t.text(), "aé");
    t.set_error("bad".to_string());
    assert_eq!(t.error(), Some("bad"));
    assert_eq!(t.handle_key(&press(Key::Left)), TextOutcome::Continue);
    assert_eq!(t.error(), Some("bad"));
    assert_eq!(t.handle_key(&press(Key::Backspace)), TextOutcome::Continue);
    assert_eq!(t.error(), None);
    assert_eq!(t.text(), "a");
    assert_eq!(t.handle_key(&press(Key::Enter)), TextOutcome::Submit);
    assert_eq!(t.handle_key(&press(Key::Esc)), TextOutcome::Quit);
    let release = KeyInput { code: Key::Char('z'), ctrl: false, press: false };
    assert_eq!(t.handle_key(&release), TextOutcome::Continue);
    assert_eq!(t.text(), "a");
}

#[test]
fn backspace_on_empty_entry_clears_error() {
    let mut t = TextInput::new();
    t.set_error("x".to_string());
    assert_eq!(t.handle_key(&press(Key::Backspace)), TextOutcome::Continue);
    assert_eq!(t.text(), "");
    assert_eq!(t.error(), None);
}

#[test]
fn white_space_is_the_unicode_property() {
    let listed = |c: char| {
        matches!(c as u32,
            0x9..=0xd | 0x20 | 0x85 | 0xa0 | 0x1680 | 0x2000..=0x200a | 0x2028 | 0x2029
            | 0x202f | 0x205f | 0x3000)
    };
    for code in 0..=0x10ffffu32 {
        if let Some(c) = char::from_u32(code) {
            assert_eq!(c.is_whitespace(), listed(c), "{code:#x}");
            let text = format!("{c}x{c}");
            let trimmed = trim_by(&text, Trim::WhiteSpace);
            assert_eq!(trimmed == "x", listed(c), "{code:#x}");
        }
    }
}

#[test]
fn letters_are_not_trimmed() {
    assert_eq!(url_choice("x"), UrlChoice::Reject);
    assert_eq!(trim_by("x", Trim::WhiteSpace), "x");
}
