//! Global defaults, named presets, and how they merge with command-line
//! flags into the settings of one run.

use vstd::prelude::*;

verus! {

/// The text of an optional string.
pub open spec fn opt_text(o: Option<String>) -> Option<Seq<char>> {
    match o {
        Some(s) => Some(s@),
        None => None,
    }
}

/// A text, or nothing when it is empty.
pub open spec fn non_empty_text(s: Seq<char>) -> Option<Seq<char>> {
    if s.len() == 0 {
        None
    } else {
        Some(s)
    }
}

/// The abstract contents of the defaults file.
pub struct DefaultsView {
    pub inline: bool,
    pub silent: bool,
    pub audio: Seq<char>,
    pub url: Seq<char>,
}

/// Global defaults (`defaults.yaml`). Empty `audio` or `url` means none.
pub struct Defaults {
    pub inline: bool,
    pub silent: bool,
    pub audio: String,
    pub url: String,
}

impl View for Defaults {
    type V = DefaultsView;

    open spec fn view(&self) -> DefaultsView {
        DefaultsView { inline: self.inline, silent: self.silent, audio: self.audio@, url: self.url@ }
    }
}

impl Default for Defaults {
    /// Not inline, not silent, no audio, no URL.
    fn default() -> (d: Self)
        ensures
            !d.inline,
            !d.silent,
            d.audio@.len() == 0,
            d.url@.len() == 0,
    {
        Defaults { inline: false, silent: false, audio: String::new(), url: String::new() }
    }
}

/// The abstract contents of one preset.
pub struct PresetView {
    pub time: Option<Seq<char>>,
    pub inline: Option<bool>,
    pub silent: Option<bool>,
    pub audio: Option<Seq<char>>,
    pub url: Option<Seq<char>>,
}

/// A named preset (one entry of `presets.yaml`); every field is optional.
pub struct PresetEntry {
    pub time: Option<String>,
    pub inline: Option<bool>,
    pub silent: Option<bool>,
    pub audio: Option<String>,
    pub url: Option<String>,
}

impl View for PresetEntry {
    type V = PresetView;

    open spec fn view(&self) -> PresetView {
        PresetView {
            time: opt_text(self.time),
            inline: self.inline,
            silent: self.silent,
            audio: opt_text(self.audio),
            url: opt_text(self.url),
        }
    }
}

impl Default for PresetEntry {
    /// A preset that sets nothing.
    fn default() -> (e: Self)
        ensures
            e.time is None,
            e.inline is None,
            e.silent is None,
            e.audio is None,
            e.url is None,
    {
        PresetEntry { time: None, inline: None, silent: None, audio: None, url: None }
    }
}

/// The abstract settings of one run.
pub struct EffectiveView {
    pub time: Option<Seq<char>>,
    pub inline: bool,
    pub silent: bool,
    pub audio: Option<Seq<char>>,
    pub url: Option<Seq<char>>,
}

/// Resolved effective settings after merging defaults, config entry, and CLI args.
/// `audio` is the path of the audio file, as text.
pub struct Effective {
    pub time: Option<String>,
    pub inline: bool,
    pub silent: bool,
    pub audio: Option<String>,
    pub url: Option<String>,
}

impl View for Effective {
    type V = EffectiveView;

    open spec fn view(&self) -> EffectiveView {
        EffectiveView {
            time: opt_text(self.time),
            inline: self.inline,
            silent: self.silent,
            audio: opt_text(self.audio),
            url: opt_text(self.url),
        }
    }
}

/// The view of an optional preset.
pub open spec fn preset_view(p: Option<&PresetEntry>) -> Option<PresetView> {
    match p {
        Some(e) => Some(e@),
        None => None,
    }
}

/// A flag from the preset when it sets one, else from the defaults.
pub open spec fn base_flag(preset_flag: Option<bool>, default_flag: bool) -> bool {
    match preset_flag {
        Some(b) => b,
        None => default_flag,
    }
}

/// A text setting from the preset when it sets one, else from the
/// defaults; an empty text means none.
pub open spec fn base_text(preset_text: Option<Seq<char>>, default_text: Seq<char>) -> Option<
    Seq<char>,
> {
    match preset_text {
        Some(t) => non_empty_text(t),
        None => non_empty_text(default_text),
    }
}

/// A command-line value when given, else the base value.
pub open spec fn cli_or(cli: Option<Seq<char>>, base: Option<Seq<char>>) -> Option<Seq<char>> {
    match cli {
        Some(t) => Some(t),
        None => base,
    }
}

/// The settings of a run: defaults, overridden by the preset's fields,
/// overridden by the command line. Flags from the command line only ever
/// switch on.
pub open spec fn merged(
    d: DefaultsView,
    preset: Option<PresetView>,
    cli_inline: bool,
    cli_silent: bool,
    cli_audio: Option<Seq<char>>,
    cli_url: Option<Seq<char>>,
) -> EffectiveView {
    match preset {
        Some(p) => EffectiveView {
            time: p.time,
            inline: cli_inline || base_flag(p.inline, d.inline),
            silent: cli_silent || base_flag(p.silent, d.silent),
            audio: cli_or(cli_audio, base_text(p.audio, d.audio)),
            url: cli_or(cli_url, base_text(p.url, d.url)),
        },
        None => EffectiveView {
            time: None,
            inline: cli_inline || d.inline,
            silent: cli_silent || d.silent,
            audio: cli_or(cli_audio, non_empty_text(d.audio)),
            url: cli_or(cli_url, non_empty_text(d.url)),
        },
    }
}

/// The path named by `s`, if it is not empty (as text).
pub fn non_empty_path(s: &str) -> (r: Option<String>)
    ensures
        opt_text(r) == non_empty_text(s@),
{
    non_empty(s)
}

/// `s` as an owned string, if it is not empty.
pub fn non_empty(s: &str) -> (r: Option<String>)
    ensures
        opt_text(r) == non_empty_text(s@),
{
    if s.is_empty() {
        None
    } else {
        Some(String::from_str(s))
    }
}

fn clone_opt(o: &Option<String>) -> (r: Option<String>)
    ensures
        opt_text(r) == opt_text(*o),
{
    match o {
        Some(s) => Some(s.clone()),
        None => None,
    }
}

/// Merge defaults <- preset entry <- CLI args.
/// CLI `Option` args override only when `Some`. Bool flags override only when `true`.
pub fn merge(
    defaults: &Defaults,
    preset: Option<&PresetEntry>,
    cli_inline: bool,
    cli_silent: bool,
    cli_audio: Option<String>,
    cli_url: Option<String>,
) -> (eff: Effective)
    ensures
        eff@ == merged(
            defaults@,
            preset_view(preset),
            cli_inline,
            cli_silent,
            opt_text(cli_audio),
            opt_text(cli_url),
        ),
{
    let (base_inline, base_silent, base_audio, base_url, preset_time) = match preset {
        Some(p) => {
            let inline = match p.inline {
                Some(b) => b,
                None => defaults.inline,
            };
            let silent = match p.silent {
                Some(b) => b,
                None => defaults.silent,
            };
            let audio = match &p.audio {
                Some(a) => non_empty_path(a.as_str()),
                None => non_empty_path(defaults.audio.as_str()),
            };
            let url = match &p.url {
                Some(u) => non_empty(u.as_str()),
                None => non_empty(defaults.url.as_str()),
            };
            (inline, silent, audio, url, clone_opt(&p.time))
        },
        None => (
            defaults.inline,
            defaults.silent,
            non_empty_path(defaults.audio.as_str()),
            non_empty(defaults.url.as_str()),
            None,
        ),
    };
    let audio = match cli_audio {
        Some(a) => Some(a),
        None => base_audio,
    };
    let url = match cli_url {
        Some(u) => Some(u),
        None => base_url,
    };
    Effective {
        time: preset_time,
        inline: cli_inline || base_inline,
        silent: cli_silent || base_silent,
        audio,
        url,
    }
}

/// Priority order: command-line flags over the preset, the preset over the
/// defaults. A command-line text wins whenever it is given, a command-line
/// flag whenever it is set; otherwise a field that the preset sets wins.
pub proof fn lemma_merge_priority(
    d: DefaultsView,
    preset: Option<PresetView>,
    cli_inline: bool,
    cli_silent: bool,
    cli_audio: Option<Seq<char>>,
    cli_url: Option<Seq<char>>,
)
    ensures
        ({
            let e = merged(d, preset, cli_inline, cli_silent, cli_audio, cli_url);
            &&& cli_audio is Some ==> e.audio == cli_audio
            &&& cli_url is Some ==> e.url == cli_url
            &&& cli_inline ==> e.inline
            &&& cli_silent ==> e.silent
            &&& cli_audio is None ==> (preset matches Some(p) ==> (p.audio matches Some(a)
                ==> e.audio == non_empty_text(a)))
            &&& cli_url is None ==> (preset matches Some(p) ==> (p.url matches Some(u) ==> e.url
                == non_empty_text(u)))
            &&& !cli_inline ==> (preset matches Some(p) ==> (p.inline matches Some(b) ==> e.inline
                == b))
            &&& !cli_silent ==> (preset matches Some(p) ==> (p.silent matches Some(b) ==> e.silent
                == b))
        }),
{
}

/// Fields that a preset leaves out fall back to the defaults: for each of
/// them the preset changes nothing against running without one.
pub proof fn lemma_merge_fallback(
    d: DefaultsView,
    p: PresetView,
    cli_inline: bool,
    cli_silent: bool,
    cli_audio: Option<Seq<char>>,
    cli_url: Option<Seq<char>>,
)
    ensures
        ({
            let with = merged(d, Some(p), cli_inline, cli_silent, cli_audio, cli_url);
            let without = merged(d, None, cli_inline, cli_silent, cli_audio, cli_url);
            &&& p.inline is None ==> with.inline == without.inline
            &&& p.silent is None ==> with.silent == without.silent
            &&& p.audio is None ==> with.audio == without.audio
            &&& p.url is None ==> with.url == without.url
            &&& with.time == p.time
            &&& without.time is None
        }),
{
}

/// Without a preset or flags, a run takes the defaults, an empty audio
/// path or URL standing for none.
pub proof fn lemma_merge_defaults_only(d: DefaultsView)
    ensures
        merged(d, None, false, false, None, None) == (EffectiveView {
            time: None,
            inline: d.inline,
            silent: d.silent,
            audio: non_empty_text(d.audio),
            url: non_empty_text(d.url),
        }),
{
}

/// Each setting of a run comes from its own sources only: a flag is on when
/// the command line sets it, else as the preset sets it, else as the
/// defaults do; a text is the command line's when given, else the
/// preset's when it sets one, else the defaults', an empty text meaning
/// none; the time is the preset's. So no other flag or text changes it.
pub proof fn lemma_merge_fields(
    d: DefaultsView,
    preset: Option<PresetView>,
    cli_inline: bool,
    cli_silent: bool,
    cli_audio: Option<Seq<char>>,
    cli_url: Option<Seq<char>>,
)
    ensures
        ({
            let e = merged(d, preset, cli_inline, cli_silent, cli_audio, cli_url);
            let p_inline = match preset {
                Some(p) => p.inline,
                None => None,
            };
            let p_silent = match preset {
                Some(p) => p.silent,
                None => None,
            };
            let p_audio = match preset {
                Some(p) => p.audio,
                None => None,
            };
            let p_url = match preset {
                Some(p) => p.url,
                None => None,
            };
            let audio_text = match p_audio {
                Some(t) => t,
                None => d.audio,
            };
            let url_text = match p_url {
                Some(t) => t,
                None => d.url,
            };
            &&& e.inline == (cli_inline || match p_inline {
                Some(b) => b,
                None => d.inline,
            })
            &&& e.silent == (cli_silent || match p_silent {
                Some(b) => b,
                None => d.silent,
            })
            &&& e.audio == match cli_audio {
                Some(a) => Some(a),
                None => if audio_text.len() == 0 {
                    None
                } else {
                    Some(audio_text)
                },
            }
            &&& e.url == match cli_url {
                Some(u) => Some(u),
                None => if url_text.len() == 0 {
                    None
                } else {
                    Some(url_text)
                },
            }
            &&& e.time == match preset {
                Some(p) => p.time,
                None => None,
            }
        }),
{
}

/// Changing one command-line value changes no other setting: the inline
/// flag depends on `cli_inline` alone among them, the silent flag on
/// `cli_silent`, the audio file on `cli_audio`, the URL on `cli_url`, and
/// the time on none.
pub proof fn lemma_merge_fields_independent(
    d: DefaultsView,
    preset: Option<PresetView>,
    i1: bool,
    s1: bool,
    a1: Option<Seq<char>>,
    u1: Option<Seq<char>>,
    i2: bool,
    s2: bool,
    a2: Option<Seq<char>>,
    u2: Option<Seq<char>>,
)
    ensures
        ({
            let e1 = merged(d, preset, i1, s1, a1, u1);
            let e2 = merged(d, preset, i2, s2, a2, u2);
            &&& i1 == i2 ==> e1.inline == e2.inline
            &&& s1 == s2 ==> e1.silent == e2.silent
            &&& a1 == a2 ==> e1.audio == e2.audio
            &&& u1 == u2 ==> e1.url == e2.url
            &&& e1.time == e2.time
        }),
{
}

/// The named presets that a list of entries stands for; a later entry with
/// the same name replaces an earlier one.
pub open spec fn entries_map(s: Seq<(Seq<char>, PresetView)>) -> Map<Seq<char>, PresetView>
    decreases s.len(),
{
    if s.len() == 0 {
        Map::empty()
    } else {
        entries_map(s.drop_last()).insert(s.last().0, s.last().1)
    }
}

/// Entries after position `i` that do not carry `name` leave its lookup to
/// the entries before.
proof fn lemma_entries_tail(s: Seq<(Seq<char>, PresetView)>, i: int, name: Seq<char>)
    requires
        0 <= i <= s.len(),
        forall|j: int| i <= j < s.len() ==> #[trigger] s[j].0 != name,
    ensures
        entries_map(s).contains_key(name) == entries_map(s.take(i)).contains_key(name),
        entries_map(s).contains_key(name) ==> entries_map(s)[name] == entries_map(s.take(i))[name],
    decreases s.len(),
{
    if i == s.len() {
        assert(s.take(i) =~= s);
    } else {
        assert(s.last().0 != name);
        assert(s.drop_last().take(i) =~= s.take(i));
        lemma_entries_tail(s.drop_last(), i, name);
    }
}

/// Named timer presets (`presets.yaml`), looked up by name: a list of named
/// entries whose names are compared by their text, a later entry replacing
/// an earlier one of the same name.
pub struct Presets {
    entries: Vec<(String, PresetEntry)>,
}

/// The abstract name and contents of a stored preset.
pub open spec fn entry_view(e: (String, PresetEntry)) -> (Seq<char>, PresetView) {
    (e.0@, e.1@)
}

impl View for Presets {
    type V = Map<Seq<char>, PresetView>;

    closed spec fn view(&self) -> Map<Seq<char>, PresetView> {
        entries_map(self.entries@.map_values(|e: (String, PresetEntry)| entry_view(e)))
    }
}

impl Presets {
    /// No presets.
    pub fn new() -> (p: Presets)
        ensures
            p@ == Map::<Seq<char>, PresetView>::empty(),
    {
        let p = Presets { entries: Vec::new() };
        assert(p.entries@.map_values(|e: (String, PresetEntry)| entry_view(e)) =~= Seq::<
            (Seq<char>, PresetView),
        >::empty());
        p
    }

    /// Adds a preset under `name`, replacing any preset of that name.
    pub fn insert(&mut self, name: String, entry: PresetEntry)
        ensures
            final(self)@ == old(self)@.insert(name@, entry@),
    {
        let ghost before = self.entries@.map_values(|e: (String, PresetEntry)| entry_view(e));
        self.entries.push((name, entry));
        let ghost after = self.entries@.map_values(|e: (String, PresetEntry)| entry_view(e));
        assert(after.drop_last() =~= before);
    }

    /// The position of the entry that `name` resolves to, if any.
    fn find(&self, name: &str) -> (r: Option<usize>)
        ensures
            match r {
                Some(i) => i < self.entries@.len() && self@.contains_key(name@) && self@[name@]
                    == self.entries@[i as int].1@,
                None => !self@.contains_key(name@),
            },
    {
        let key = String::from_str(name);
        let ghost s = self.entries@.map_values(|e: (String, PresetEntry)| entry_view(e));
        let mut i = self.entries.len();
        while i > 0
            invariant
                i <= self.entries@.len(),
                s == self.entries@.map_values(|e: (String, PresetEntry)| entry_view(e)),
                key@ == name@,
                forall|j: int| i <= j < s.len() ==> #[trigger] s[j].0 != name@,
            decreases i,
        {
            if self.entries[i - 1].0 == key {
                proof {
                    lemma_entries_tail(s, i as int, name@);
                    assert(s.take(i as int).drop_last() =~= s.take(i - 1));
                    assert(s.take(i as int).last() == s[i - 1]);
                }
                return Some(i - 1);
            }
            i = i - 1;
        }
        proof {
            lemma_entries_tail(s, 0, name@);
            assert(s.take(0) =~= Seq::<(Seq<char>, PresetView)>::empty());
        }
        None
    }

    /// The preset called `name`, if there is one.
    pub fn get(&self, name: &str) -> (r: Option<&PresetEntry>)
        ensures
            match r {
                Some(e) => self@.contains_key(name@) && e@ == self@[name@],
                None => !self@.contains_key(name@),
            },
    {
        match self.find(name) {
            Some(i) => Some(&self.entries[i].1),
            None => None,
        }
    }

    /// Whether a preset is called `name`.
    pub fn contains_key(&self, name: &str) -> (b: bool)
        ensures
            b == self@.contains_key(name@),
    {
        self.find(name).is_some()
    }
}

} // verus!
