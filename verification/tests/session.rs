use dstimer::config::{PresetEntry, Presets};
use dstimer::entry::ERR_ZERO_DURATION;
use dstimer::session::{
    duration_rejection, ending_message, explicit_duration, http_error_message,
    http_response_message, next_step, plan_finish, preset_time_fits, resolve_positional, Ending,
    FinishPlan, Positional, PromptStep,
};

fn presets() -> Presets {
    let mut p = Presets::new();
    p.insert(
        "pomodoro".to_string(),
        PresetEntry { time: Some("25:00".to_string()), ..PresetEntry::default() },
    );
    p.insert("90".to_string(), PresetEntry::default());
    p
}

#[test]
fn positional_argument() {
    let p = presets();
    assert_eq!(resolve_positional(None, &p), Positional::Absent);
    assert_eq!(resolve_positional(Some("pomodoro"), &p), Positional::Preset("pomodoro".to_string()));
    assert_eq!(resolve_positional(Some("90"), &p), Positional::Preset("90".to_string()));
    assert_eq!(resolve_positional(Some("25:00"), &p), Positional::Time(1500));
    assert_eq!(
        resolve_positional(Some("1:99"), &p),
        Positional::Invalid(
            "Error: '1:99' is not a known preset and not a valid time: seconds must be 0-59"
                .to_string()
        )
    );
    let bad = "pomo".parse::<u64>().unwrap_err().to_string();
    assert_eq!(
        resolve_positional(Some("pomo"), &p),
        Positional::Invalid(format!(
            "Error: 'pomo' is not a known preset and not a valid time: {bad}"
        ))
    );
}

#[test]
fn duration_priority() {
    assert_eq!(explicit_duration(Some(5), Some(6), Some("7")), Some(5));
    assert_eq!(explicit_duration(None, Some(6), Some("7")), Some(6));
    assert_eq!(explicit_duration(None, None, Some("25:00")), Some(1500));
    assert_eq!(explicit_duration(None, None, Some("soon")), None);
    assert_eq!(explicit_duration(None, None, None), None);
    assert!(preset_time_fits(Some("25:00")));
    assert!(preset_time_fits(None));
    assert!(!preset_time_fits(Some("18446744073709551615:59")));
}

#[test]
fn zero_duration() {
    assert_eq!(duration_rejection(0), Some(ERR_ZERO_DURATION));
    assert_eq!(duration_rejection(1), None);
}

#[test]
fn finishing() {
    assert_eq!(
        plan_finish(true, true, false, true),
        FinishPlan { ending: Ending::FinishedPlayingAudio, notify: true, play_audio: true, call_url: true }
    );
    assert_eq!(
        plan_finish(true, false, true, false),
        FinishPlan { ending: Ending::Finished, notify: false, play_audio: false, call_url: false }
    );
    assert_eq!(
        plan_finish(false, true, false, true),
        FinishPlan { ending: Ending::Cancelled, notify: false, play_audio: false, call_url: false }
    );
    assert_eq!(ending_message(Ending::Finished), "Timer finished!");
    assert_eq!(ending_message(Ending::FinishedPlayingAudio), "Timer finished \u{266a} Playing audio");
    assert_eq!(ending_message(Ending::Cancelled), "Timer cancelled");
}

#[test]
fn http_messages() {
    assert_eq!(http_response_message(200, ""), "HTTP 200 (no body)");
    assert_eq!(http_response_message(404, "not here"), "HTTP 404: not here");
    assert_eq!(http_response_message(0, "x"), "HTTP 0: x");
    assert_eq!(http_error_message("timed out"), "HTTP error: timed out");
}

#[test]
fn prompt_steps() {
    assert_eq!(next_step(PromptStep::Duration, false, false), PromptStep::Audio);
    assert_eq!(next_step(PromptStep::Audio, false, false), PromptStep::Url);
    assert_eq!(next_step(PromptStep::Url, false, false), PromptStep::Done);
    assert_eq!(next_step(PromptStep::Duration, true, false), PromptStep::Url);
    assert_eq!(next_step(PromptStep::Duration, false, true), PromptStep::Audio);
    assert_eq!(next_step(PromptStep::Audio, false, true), PromptStep::Done);
    assert_eq!(next_step(PromptStep::Duration, true, true), PromptStep::Done);
}
