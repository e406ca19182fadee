//! The decisions of one run: what the positional argument names, which
//! duration to use, and what happens when the countdown ends.

use vstd::prelude::*;
use crate::clock::{parse_time, time_error, time_fits, time_in_range, time_seconds};
use crate::config::Presets;
use crate::entry::ERR_ZERO_DURATION;
use crate::text::{decimal, push_decimal};

verus! {

/// What the positional argument names.
#[derive(Debug, PartialEq, Eq)]
pub enum Positional {
    /// No positional argument.
    Absent,
    /// A known preset, by name.
    Preset(String),
    /// A duration, in seconds.
    Time(u64),
    /// Neither: the message to report before exiting with failure.
    Invalid(String),
}

/// The report for a positional argument `value` that is neither a preset
/// nor a duration, `error` being why it is not a duration.
pub open spec fn invalid_positional_text(value: Seq<char>, error: Seq<char>) -> Seq<char> {
    "Error: '"@ + value + "' is not a known preset and not a valid time: "@ + error
}

/// Resolves the positional argument: a preset name if a preset has that
/// name, else a duration, else an error.
pub fn resolve_positional(positional: Option<&str>, presets: &Presets) -> (r: Positional)
    requires
        positional matches Some(v) ==> presets@.contains_key(v@) || time_in_range(v@),
    ensures
        match positional {
            None => r is Absent,
            Some(v) => if presets@.contains_key(v@) {
                r matches Positional::Preset(name) && name@ == v@
            } else {
                match time_seconds(v@) {
                    Some(t) => r == Positional::Time(t as u64),
                    None => r matches Positional::Invalid(m) && m@ == invalid_positional_text(
                        v@,
                        time_error(v@),
                    ),
                }
            },
        },
{
    match positional {
        None => Positional::Absent,
        Some(v) => {
            if presets.contains_key(v) {
                Positional::Preset(String::from_str(v))
            } else {
                match parse_time(v) {
                    Ok(t) => Positional::Time(t),
                    Err(e) => {
                        let mut m = String::from_str("Error: '");
                        m.append(v);
                        m.append("' is not a known preset and not a valid time: ");
                        m.append(e.as_str());
                        Positional::Invalid(m)
                    },
                }
            }
        },
    }
}

/// The duration to count down without asking: the `--time` flag, else a
/// duration given as positional argument, else the preset's time if it
/// reads as one.
pub open spec fn explicit_duration_spec(
    cli_time: Option<u64>,
    positional_time: Option<u64>,
    preset_time: Option<Seq<char>>,
) -> Option<int> {
    match cli_time {
        Some(t) => Some(t as int),
        None => match positional_time {
            Some(t) => Some(t as int),
            None => match preset_time {
                Some(p) => time_seconds(p),
                None => None,
            },
        },
    }
}

/// The duration to count down without asking, if there is one.
pub fn explicit_duration(
    cli_time: Option<u64>,
    positional_time: Option<u64>,
    preset_time: Option<&str>,
) -> (r: Option<u64>)
    requires
        preset_time matches Some(p) ==> time_in_range(p@),
    ensures
        match r {
            Some(t) => explicit_duration_spec(cli_time, positional_time, match preset_time {
                Some(p) => Some(p@),
                None => None,
            }) == Some(t as int),
            None => explicit_duration_spec(cli_time, positional_time, match preset_time {
                Some(p) => Some(p@),
                None => None,
            }) is None,
        },
{
    let from_preset = match preset_time {
        Some(p) => match parse_time(p) {
            Ok(t) => Some(t),
            Err(_) => None,
        },
        None => None,
    };
    match cli_time {
        Some(t) => Some(t),
        None => match positional_time {
            Some(t) => Some(t),
            None => from_preset,
        },
    }
}

/// Whether the text of a preset's time, if any, may be read: an accepted
/// duration must have a total that fits in a `u64`.
pub fn preset_time_fits(preset_time: Option<&str>) -> (b: bool)
    ensures
        b == (preset_time matches Some(p) ==> time_in_range(p@)),
{
    match preset_time {
        Some(p) => time_fits(p),
        None => true,
    }
}

/// The message for a duration that cannot run, if it cannot: a duration
/// of zero seconds.
pub fn duration_rejection(secs: u64) -> (m: Option<&'static str>)
    ensures
        secs == 0 ==> m == Some(ERR_ZERO_DURATION),
        secs != 0 ==> m is None,
{
    if secs == 0 {
        Some(ERR_ZERO_DURATION)
    } else {
        None
    }
}

/// How a countdown ended.
#[derive(Clone, Copy, Debug, PartialEq, Eq, Structural)]
pub enum Ending {
    /// It ran out, without audio.
    Finished,
    /// It ran out, and audio plays.
    FinishedPlayingAudio,
    /// The user stopped it first.
    Cancelled,
}

/// The message shown for an ending; when the countdown ran out it is also
/// the body of the notification.
pub fn ending_message(e: Ending) -> (m: &'static str)
    ensures
        e == Ending::Finished ==> m@ == "Timer finished!"@,
        e == Ending::FinishedPlayingAudio ==> m@ == "Timer finished \u{266a} Playing audio"@,
        e == Ending::Cancelled ==> m@ == "Timer cancelled"@,
{
    match e {
        Ending::Finished => "Timer finished!",
        Ending::FinishedPlayingAudio => "Timer finished \u{266a} Playing audio",
        Ending::Cancelled => "Timer cancelled",
    }
}

/// What to do when the countdown stops.
#[derive(Clone, Copy, Debug, PartialEq, Eq, Structural)]
pub struct FinishPlan {
    pub ending: Ending,
    /// Send a desktop notification.
    pub notify: bool,
    /// Play the audio file.
    pub play_audio: bool,
    /// Call the URL.
    pub call_url: bool,
}

/// What to do when the countdown stops: only a countdown that ran out
/// notifies (unless silent), plays its audio and calls its URL.
pub open spec fn finish_plan_spec(
    ran_out: bool,
    has_audio: bool,
    silent: bool,
    has_url: bool,
) -> FinishPlan {
    if ran_out {
        FinishPlan {
            ending: if has_audio { Ending::FinishedPlayingAudio } else { Ending::Finished },
            notify: !silent,
            play_audio: has_audio,
            call_url: has_url,
        }
    } else {
        FinishPlan { ending: Ending::Cancelled, notify: false, play_audio: false, call_url: false }
    }
}

/// Decides what to do when the countdown stops; `ran_out` is whether it
/// was still running when its end came.
pub fn plan_finish(ran_out: bool, has_audio: bool, silent: bool, has_url: bool) -> (p: FinishPlan)
    ensures
        p == finish_plan_spec(ran_out, has_audio, silent, has_url),
{
    if ran_out {
        FinishPlan {
            ending: if has_audio { Ending::FinishedPlayingAudio } else { Ending::Finished },
            notify: !silent,
            play_audio: has_audio,
            call_url: has_url,
        }
    } else {
        FinishPlan { ending: Ending::Cancelled, notify: false, play_audio: false, call_url: false }
    }
}

/// The report of an HTTP answer: its status, and its body unless empty.
pub open spec fn http_response_text(status: u16, body: Seq<char>) -> Seq<char> {
    if body.len() == 0 {
        "HTTP "@ + decimal(status as nat) + " (no body)"@
    } else {
        "HTTP "@ + decimal(status as nat) + ": "@ + body
    }
}

/// Reports the answer to the URL call.
pub fn http_response_message(status: u16, body: &str) -> (m: String)
    ensures
        m@ == http_response_text(status, body@),
{
    let mut m = String::from_str("HTTP ");
    push_decimal(&mut m, status as u64);
    if body.unicode_len() == 0 {
        m.append(" (no body)");
    } else {
        m.append(": ");
        m.append(body);
    }
    m
}

/// Reports a failed URL call, given the error's text.
pub fn http_error_message(error: &str) -> (m: String)
    ensures
        m@ == "HTTP error: "@ + error@,
{
    let mut m = String::from_str("HTTP error: ");
    m.append(error);
    m
}

/// The steps of the interactive prompt.
#[derive(Clone, Copy, Debug, PartialEq, Eq, Structural)]
pub enum PromptStep {
    /// Ask for the duration.
    Duration,
    /// Ask for an audio file.
    Audio,
    /// Ask for a URL.
    Url,
    /// Start the timer.
    Done,
}

/// The step after `step`: the duration is always asked for; the audio file
/// and the URL only when the settings do not already name one.
pub open spec fn next_step_spec(step: PromptStep, audio_known: bool, url_known: bool) -> PromptStep {
    match step {
        PromptStep::Duration => if !audio_known {
            PromptStep::Audio
        } else if !url_known {
            PromptStep::Url
        } else {
            PromptStep::Done
        },
        PromptStep::Audio => if !url_known {
            PromptStep::Url
        } else {
            PromptStep::Done
        },
        _ => PromptStep::Done,
    }
}

/// The step of the interactive prompt that follows `step`.
pub fn next_step(step: PromptStep, audio_known: bool, url_known: bool) -> (n: PromptStep)
    ensures
        n == next_step_spec(step, audio_known, url_known),
{
    match step {
        PromptStep::Duration => if !audio_known {
            PromptStep::Audio
        } else if !url_known {
            PromptStep::Url
        } else {
            PromptStep::Done
        },
        PromptStep::Audio => if !url_known {
            PromptStep::Url
        } else {
            PromptStep::Done
        },
        _ => PromptStep::Done,
    }
}

/// When the settings already name an audio file or a URL, the interactive
/// prompt skips asking for it: starting from the duration, the prompt asks
/// for the audio file exactly when none is known, for the URL exactly when
/// none is known, and then is done.
pub proof fn lemma_prompt_skips_known(audio_known: bool, url_known: bool)
    ensures
        ({
            let s1 = next_step_spec(PromptStep::Duration, audio_known, url_known);
            let s2 = next_step_spec(s1, audio_known, url_known);
            let s3 = next_step_spec(s2, audio_known, url_known);
            &&& (s1 == PromptStep::Audio) == !audio_known
            &&& (s1 == PromptStep::Url || s2 == PromptStep::Url) == !url_known
            &&& s3 == PromptStep::Done
            &&& s1 != PromptStep::Duration && s2 != PromptStep::Duration
        }),
{
}

/// A run starts from an explicit duration when one is given, from the
/// `--time` flag first, then the positional duration, then the preset.
pub proof fn lemma_duration_priority(
    cli_time: Option<u64>,
    positional_time: Option<u64>,
    preset_time: Option<Seq<char>>,
)
    ensures
        cli_time matches Some(t) ==> explicit_duration_spec(cli_time, positional_time, preset_time)
            == Some(t as int),
        cli_time is None ==> (positional_time matches Some(t) ==> explicit_duration_spec(
            cli_time,
            positional_time,
            preset_time,
        ) == Some(t as int)),
        (cli_time is None && positional_time is None) ==> explicit_duration_spec(
            cli_time,
            positional_time,
            preset_time,
        ) == match preset_time {
            Some(p) => time_seconds(p),
            None => None,
        },
{
}

/// When the countdown runs out, the audio file plays exactly when there is
/// one and the URL is called exactly when there is one; `silent` only
/// stops the notification. A cancelled countdown only says so.
pub proof fn lemma_finish_actions(ran_out: bool, has_audio: bool, silent: bool, has_url: bool)
    ensures
        ({
            let p = finish_plan_spec(ran_out, has_audio, silent, has_url);
            &&& ran_out ==> p.play_audio == has_audio
            &&& ran_out ==> p.call_url == has_url
            &&& ran_out ==> p.notify == !silent
            &&& ran_out ==> (p.ending == Ending::FinishedPlayingAudio) == has_audio
            &&& ran_out ==> p.ending != Ending::Cancelled
            &&& !ran_out ==> p == FinishPlan {
                ending: Ending::Cancelled,
                notify: false,
                play_audio: false,
                call_url: false,
            }
        }),
{
}

/// Silence changes nothing but the notification.
pub proof fn lemma_silent_only_mutes(ran_out: bool, has_audio: bool, has_url: bool)
    ensures
        ({
            let loud = finish_plan_spec(ran_out, has_audio, false, has_url);
            let quiet = finish_plan_spec(ran_out, has_audio, true, has_url);
            &&& loud.ending == quiet.ending
            &&& loud.play_audio == quiet.play_audio
            &&& loud.call_url == quiet.call_url
            &&& !quiet.notify
        }),
{
}

/// The steps of the interactive prompt: the audio file is asked for right
/// after the duration unless known; the URL is asked for after the audio
/// step, or after the duration when the audio file is known, exactly when
/// no URL is known, whatever the audio answer was; after the URL the timer
/// starts.
pub proof fn lemma_prompt_order(audio_known: bool, url_known: bool)
    ensures
        next_step_spec(PromptStep::Duration, audio_known, url_known) == if !audio_known {
            PromptStep::Audio
        } else if !url_known {
            PromptStep::Url
        } else {
            PromptStep::Done
        },
        next_step_spec(PromptStep::Audio, audio_known, url_known) == if !url_known {
            PromptStep::Url
        } else {
            PromptStep::Done
        },
        next_step_spec(PromptStep::Audio, true, url_known) == next_step_spec(
            PromptStep::Audio,
            false,
            url_known,
        ),
        next_step_spec(PromptStep::Url, audio_known, url_known) == PromptStep::Done,
        next_step_spec(PromptStep::Done, audio_known, url_known) == PromptStep::Done,
{
}

} // verus!
