use dstimer::config::{merge, non_empty, non_empty_path, Defaults, PresetEntry, Presets};

fn defaults(inline: bool, silent: bool, audio: &str, url: &str) -> Defaults {
    Defaults { inline, silent, audio: audio.to_string(), url: url.to_string() }
}

fn pomodoro() -> PresetEntry {
    PresetEntry {
        time: Some("25:00".to_string()),
        inline: Some(true),
        silent: Some(false),
        audio: Some("/home/user/music/bell.flac".to_string()),
        url: Some("https://example.com/pomodoro-done".to_string()),
    }
}

fn short_break() -> PresetEntry {
    PresetEntry { time: Some("5:00".to_string()), silent: Some(true), ..PresetEntry::default() }
}

#[test]
fn default_settings_are_empty() {
    let d = Defaults::default();
    assert!(!d.inline);
    assert!(!d.silent);
    assert_eq!(d.audio, "");
    assert_eq!(d.url, "");
    let p = PresetEntry::default();
    assert!(p.time.is_none() && p.inline.is_none() && p.silent.is_none());
    assert!(p.audio.is_none() && p.url.is_none());
}

#[test]
fn non_empty_drops_empty_text() {
    assert_eq!(non_empty(""), None);
    assert_eq!(non_empty("x"), Some("x".to_string()));
    assert_eq!(non_empty_path(""), None);
    assert_eq!(non_empty_path("/a/b.wav"), Some("/a/b.wav".to_string()));
}

#[test]
fn defaults_alone() {
    let e = merge(&defaults(true, false, "", "http://h"), None, false, false, None, None);
    assert_eq!(e.time, None);
    assert!(e.inline);
    assert!(!e.silent);
    assert_eq!(e.audio, None);
    assert_eq!(e.url, Some("http://h".to_string()));
}

#[test]
fn preset_uses_all_its_values() {
    let p = pomodoro();
    let e = merge(&defaults(false, true, "/d.wav", "http://d"), Some(&p), false, false, None, None);
    assert_eq!(e.time, Some("25:00".to_string()));
    assert!(e.inline);
    assert!(!e.silent);
    assert_eq!(e.audio, Some("/home/user/music/bell.flac".to_string()));
    assert_eq!(e.url, Some("https://example.com/pomodoro-done".to_string()));
}

#[test]
fn missing_preset_fields_fall_back_to_defaults() {
    let p = short_break();
    let e = merge(&defaults(true, false, "/d.wav", "http://d"), Some(&p), false, false, None, None);
    assert_eq!(e.time, Some("5:00".to_string()));
    assert!(e.inline);
    assert!(e.silent);
    assert_eq!(e.audio, Some("/d.wav".to_string()));
    assert_eq!(e.url, Some("http://d".to_string()));
}

#[test]
fn cli_overrides_preset_and_defaults() {
    let p = pomodoro();
    let e = merge(
        &defaults(false, false, "/d.wav", "http://d"),
        Some(&p),
        true,
        true,
        Some("/cli.wav".to_string()),
        Some("http://cli".to_string()),
    );
    assert!(e.inline);
    assert!(e.silent);
    assert_eq!(e.audio, Some("/cli.wav".to_string()));
    assert_eq!(e.url, Some("http://cli".to_string()));
}

#[test]
fn cli_flags_only_switch_on() {
    let p = PresetEntry { inline: Some(true), silent: Some(true), ..PresetEntry::default() };
    let e = merge(&defaults(false, false, "", ""), Some(&p), false, false, None, None);
    assert!(e.inline);
    assert!(e.silent);
}

#[test]
fn empty_preset_text_disables_default() {
    let p = PresetEntry {
        audio: Some(String::new()),
        url: Some(String::new()),
        ..PresetEntry::default()
    };
    let e = merge(&defaults(false, false, "/d.wav", "http://d"), Some(&p), false, false, None, None);
    assert_eq!(e.audio, None);
    assert_eq!(e.url, None);
}

#[test]
fn presets_lookup_by_name() {
    let mut presets = Presets::new();
    assert!(!presets.contains_key("pomodoro"));
    assert!(presets.get("pomodoro").is_none());
    presets.insert("pomodoro".to_string(), pomodoro());
    presets.insert("break".to_string(), short_break());
    assert!(presets.contains_key("pomodoro"));
    assert!(presets.contains_key("break"));
    assert!(!presets.contains_key("pomo"));
    assert_eq!(presets.get("break").unwrap().time, Some("5:00".to_string()));
    assert_eq!(presets.get("pomodoro").unwrap().inline, Some(true));
}

#[test]
fn presets_insert_replaces() {
    let mut presets = Presets::new();
    presets.insert("break".to_string(), short_break());
    presets.insert("break".to_string(), pomodoro());
    assert_eq!(presets.get("break").unwrap().time, Some("25:00".to_string()));
}
