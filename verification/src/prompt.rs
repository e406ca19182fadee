//! The one-line text prompts for an audio file and a URL: editing, and
//! what a confirmed entry means.

use vstd::prelude::*;
use crate::keys::{is_quit_event, quits, Key, KeyInput};
use crate::text::{is_white_space, pop_char, push_char, white_space};

verus! {

/// Which characters a trim removes.
#[derive(Clone, Copy, Debug, PartialEq, Eq, Structural)]
pub enum Trim {
    /// Unicode white space (`str::trim`).
    WhiteSpace,
    /// Double quotes (`str::trim_matches('"')`).
    Quote,
}

/// Whether a trim of this kind removes `c`.
pub open spec fn trimmed_char(kind: Trim, c: char) -> bool {
    match kind {
        Trim::WhiteSpace => white_space(c),
        Trim::Quote => c == '"',
    }
}

/// `s` without its leading characters of the kind.
pub open spec fn strip_start(s: Seq<char>, kind: Trim) -> Seq<char>
    decreases s.len(),
{
    if s.len() > 0 && trimmed_char(kind, s[0]) {
        strip_start(s.drop_first(), kind)
    } else {
        s
    }
}

/// `s` without its trailing characters of the kind.
pub open spec fn strip_end(s: Seq<char>, kind: Trim) -> Seq<char>
    decreases s.len(),
{
    if s.len() > 0 && trimmed_char(kind, s.last()) {
        strip_end(s.drop_last(), kind)
    } else {
        s
    }
}

/// `s` without leading and trailing characters of the kind.
pub open spec fn strip(s: Seq<char>, kind: Trim) -> Seq<char> {
    strip_end(strip_start(s, kind), kind)
}

fn removes(kind: Trim, c: char) -> (b: bool)
    ensures
        b == trimmed_char(kind, c),
{
    match kind {
        Trim::WhiteSpace => is_white_space(c),
        Trim::Quote => c == '"',
    }
}

/// `s` without leading and trailing characters of the kind.
pub fn trim_by<'a>(s: &'a str, kind: Trim) -> (r: &'a str)
    ensures
        r@ == strip(s@, kind),
{
    let n = s.unicode_len();
    let mut i: usize = 0;
    proof {
        assert(s@.subrange(0, n as int) =~= s@);
    }
    while i < n && removes(kind, s.get_char(i))
        invariant
            n == s@.len(),
            i <= n,
            strip_start(s@, kind) == strip_start(s@.subrange(i as int, n as int), kind),
        decreases n - i,
    {
        proof {
            assert(s@.subrange(i as int, n as int).drop_first() =~= s@.subrange(i + 1, n as int));
        }
        i = i + 1;
    }
    let mut j: usize = n;
    proof {
        assert(strip_start(s@, kind) == s@.subrange(i as int, n as int));
    }
    while j > i && removes(kind, s.get_char(j - 1))
        invariant
            n == s@.len(),
            i <= j <= n,
            strip(s@, kind) == strip_end(s@.subrange(i as int, j as int), kind),
        decreases j,
    {
        proof {
            assert(s@.subrange(i as int, j as int).drop_last() =~= s@.subrange(i as int, j - 1));
        }
        j = j - 1;
    }
    s.substring_char(i, j)
}

/// Whether `s` begins with `prefix`.
pub open spec fn has_prefix(s: Seq<char>, prefix: Seq<char>) -> bool {
    prefix.len() <= s.len() && s.subrange(0, prefix.len() as int) == prefix
}

/// Whether `s` begins with `prefix`.
pub fn starts_with(s: &str, prefix: &str) -> (b: bool)
    ensures
        b == has_prefix(s@, prefix@),
{
    let n = s.unicode_len();
    let m = prefix.unicode_len();
    if m > n {
        return false;
    }
    let mut i: usize = 0;
    while i < m
        invariant
            n == s@.len(),
            m == prefix@.len(),
            m <= n,
            i <= m,
            forall|k: int| 0 <= k < i ==> s@[k] == prefix@[k],
        decreases m - i,
    {
        if s.get_char(i) != prefix.get_char(i) {
            assert(s@.subrange(0, m as int)[i as int] != prefix@[i as int]);
            return false;
        }
        i = i + 1;
    }
    assert(s@.subrange(0, m as int) =~= prefix@);
    true
}

/// What a confirmed URL entry means.
#[derive(Debug, PartialEq, Eq)]
pub enum UrlChoice {
    /// Nothing entered: no URL.
    Skip,
    /// A URL to call.
    Accept(String),
    /// Not an HTTP(S) URL: the prompt stays, with an error.
    Reject,
}

/// The abstract meaning of a confirmed URL entry.
pub enum UrlVerdict {
    Skip,
    Accept(Seq<char>),
    Reject,
}

/// What a confirmed URL entry means: the entry without surrounding white
/// space is nothing (skip), an `http://` or `https://` URL (accept it), or
/// anything else (reject).
pub open spec fn url_verdict(input: Seq<char>) -> UrlVerdict {
    let t = strip(input, Trim::WhiteSpace);
    if t.len() == 0 {
        UrlVerdict::Skip
    } else if has_prefix(t, "http://"@) || has_prefix(t, "https://"@) {
        UrlVerdict::Accept(t)
    } else {
        UrlVerdict::Reject
    }
}

/// The abstract meaning of a URL choice.
pub open spec fn url_choice_view(c: UrlChoice) -> UrlVerdict {
    match c {
        UrlChoice::Skip => UrlVerdict::Skip,
        UrlChoice::Accept(u) => UrlVerdict::Accept(u@),
        UrlChoice::Reject => UrlVerdict::Reject,
    }
}

/// Decides what a confirmed URL entry means.
pub fn url_choice(input: &str) -> (c: UrlChoice)
    ensures
        url_choice_view(c) == url_verdict(input@),
{
    let t = trim_by(input, Trim::WhiteSpace);
    if t.unicode_len() == 0 {
        UrlChoice::Skip
    } else if starts_with(t, "http://") || starts_with(t, "https://") {
        UrlChoice::Accept(String::from_str(t))
    } else {
        UrlChoice::Reject
    }
}

/// What a confirmed audio-file entry means.
#[derive(Debug, PartialEq, Eq)]
pub enum AudioChoice {
    /// Nothing entered: no audio.
    Skip,
    /// A path to look for.
    Candidate(String),
}

/// The path that an audio-file entry names: the entry without surrounding
/// white space, then without surrounding double quotes.
pub open spec fn audio_candidate(input: Seq<char>) -> Seq<char> {
    strip(strip(input, Trim::WhiteSpace), Trim::Quote)
}

/// Decides what a confirmed audio-file entry means.
pub fn audio_choice(input: &str) -> (c: AudioChoice)
    ensures
        match c {
            AudioChoice::Skip => audio_candidate(input@).len() == 0,
            AudioChoice::Candidate(p) => audio_candidate(input@).len() > 0 && p@ == audio_candidate(
                input@,
            ),
        },
{
    let t = trim_by(trim_by(input, Trim::WhiteSpace), Trim::Quote);
    if t.unicode_len() == 0 {
        AudioChoice::Skip
    } else {
        AudioChoice::Candidate(String::from_str(t))
    }
}

/// The error shown when the audio file is not there: the full-screen prompt
/// adds a hint.
pub open spec fn audio_missing_text(candidate: Seq<char>, inline: bool) -> Seq<char> {
    if inline {
        "\""@ + candidate + "\" not found"@
    } else {
        "\""@ + candidate + "\" not found, check for typos"@
    }
}

/// The error shown when the audio file `candidate` is not there.
pub fn audio_missing_message(candidate: &str, inline: bool) -> (m: String)
    ensures
        m@ == audio_missing_text(candidate@, inline),
{
    let mut m = String::from_str("\"");
    m.append(candidate);
    if inline {
        m.append("\" not found");
    } else {
        m.append("\" not found, check for typos");
    }
    m
}

/// The error shown for an entry that is not an HTTP(S) URL.
pub fn url_rejected_message(inline: bool) -> (m: String)
    ensures
        inline ==> m@ == "Must start with http:// or https://"@,
        !inline ==> m@ == "URL must start with http:// or https://"@,
{
    if inline {
        String::from_str("Must start with http:// or https://")
    } else {
        String::from_str("URL must start with http:// or https://")
    }
}

/// The abstract state of a text prompt: what was typed, and the error shown.
pub struct TextInputState {
    pub text: Seq<char>,
    pub error: Option<Seq<char>>,
}

/// What a text prompt does after a key.
#[derive(Clone, Copy, Debug, PartialEq, Eq, Structural)]
pub enum TextOutcome {
    /// Keep prompting.
    Continue,
    /// The user confirmed the entry.
    Submit,
    /// The user asked to quit.
    Quit,
}

/// The effect of one key on a text prompt: characters are typed,
/// Backspace deletes the last one, both clear the error; Enter confirms.
pub open spec fn text_step(s: TextInputState, key: KeyInput) -> (TextInputState, TextOutcome) {
    if !key.press {
        (s, TextOutcome::Continue)
    } else if quits(key) {
        (s, TextOutcome::Quit)
    } else {
        match key.code {
            Key::Enter => (s, TextOutcome::Submit),
            Key::Char(c) => (TextInputState { text: s.text.push(c), error: None }, TextOutcome::Continue),
            Key::Backspace => (
                TextInputState {
                    text: if s.text.len() > 0 { s.text.drop_last() } else { s.text },
                    error: None,
                },
                TextOutcome::Continue,
            ),
            _ => (s, TextOutcome::Continue),
        }
    }
}

/// A one-line text prompt.
pub struct TextInput {
    text: String,
    error: Option<String>,
}

impl View for TextInput {
    type V = TextInputState;

    closed spec fn view(&self) -> TextInputState {
        TextInputState {
            text: self.text@,
            error: match self.error {
                Some(e) => Some(e@),
                None => None,
            },
        }
    }
}

impl TextInput {
    /// An empty prompt without error.
    pub fn new() -> (p: TextInput)
        ensures
            p@.text.len() == 0,
            p@.error is None,
    {
        TextInput { text: String::new(), error: None }
    }

    /// What was typed.
    pub fn text(&self) -> (t: &str)
        ensures
            t@ == self@.text,
    {
        self.text.as_str()
    }

    /// The error shown, if any.
    pub fn error(&self) -> (e: Option<&str>)
        ensures
            match e {
                Some(m) => self@.error == Some(m@),
                None => self@.error is None,
            },
    {
        match &self.error {
            Some(m) => Some(m.as_str()),
            None => None,
        }
    }

    /// Shows an error under the entry.
    pub fn set_error(&mut self, message: String)
        ensures
            final(self)@.text == old(self)@.text,
            final(self)@.error == Some(message@),
    {
        self.error = Some(message);
    }

    /// Applies one key event to the prompt.
    pub fn handle_key(&mut self, key: &KeyInput) -> (out: TextOutcome)
        ensures
            (final(self)@, out) == text_step(old(self)@, *key),
    {
        if !key.press {
            return TextOutcome::Continue;
        }
        if is_quit_event(key) {
            return TextOutcome::Quit;
        }
        match key.code {
            Key::Enter => TextOutcome::Submit,
            Key::Char(c) => {
                push_char(&mut self.text, c);
                self.error = None;
                TextOutcome::Continue
            },
            Key::Backspace => {
                let _ = pop_char(&mut self.text);
                self.error = None;
                TextOutcome::Continue
            },
            _ => TextOutcome::Continue,
        }
    }
}

/// Typing in a text prompt: every character typed (other than Control-C)
/// is appended as it is, Backspace removes the last character if any, both
/// clear the error; Enter confirms the entry unchanged; Esc and Control-C
/// quit; other keys, and releases, change nothing.
pub proof fn lemma_text_editing(s: TextInputState, key: KeyInput)
    ensures
        ({
            let (t, out) = text_step(s, key);
            &&& !key.press ==> t == s && out == TextOutcome::Continue
            &&& key.press && (key.code == Key::Esc || (key.code == Key::Char('c') && key.ctrl))
                ==> t == s && out == TextOutcome::Quit
            &&& key.press ==> (key.code matches Key::Char(c) ==> (!(c == 'c' && key.ctrl) ==> (
            t.text == s.text.push(c) && t.error is None && out == TextOutcome::Continue)))
            &&& (key.press && key.code == Key::Backspace) ==> (t.error is None && out
                == TextOutcome::Continue && t.text == if s.text.len() > 0 {
                s.text.subrange(0, s.text.len() - 1)
            } else {
                s.text
            })
            &&& (key.press && key.code == Key::Enter) ==> (t == s && out == TextOutcome::Submit)
            &&& (key.press && (key.code == Key::Left || key.code == Key::Right || key.code
                == Key::Other)) ==> (t == s && out == TextOutcome::Continue)
        }),
{
}

/// Whether every character of `s` is removed by a trim of the kind.
pub open spec fn all_trimmed(s: Seq<char>, kind: Trim) -> bool {
    forall|i: int| 0 <= i < s.len() ==> trimmed_char(kind, #[trigger] s[i])
}

proof fn lemma_strip_start_prefix(pre: Seq<char>, x: Seq<char>, kind: Trim)
    requires
        all_trimmed(pre, kind),
    ensures
        strip_start(pre + x, kind) == strip_start(x, kind),
    decreases pre.len(),
{
    if pre.len() > 0 {
        assert((pre + x)[0] == pre[0]);
        assert((pre + x).drop_first() =~= pre.drop_first() + x);
        assert forall|i: int| 0 <= i < pre.drop_first().len() implies trimmed_char(
            kind,
            #[trigger] pre.drop_first()[i],
        ) by {
            assert(pre.drop_first()[i] == pre[i + 1]);
        }
        lemma_strip_start_prefix(pre.drop_first(), x, kind);
    } else {
        assert(pre + x =~= x);
    }
}

proof fn lemma_strip_end_suffix(x: Seq<char>, post: Seq<char>, kind: Trim)
    requires
        all_trimmed(post, kind),
    ensures
        strip_end(x + post, kind) == strip_end(x, kind),
    decreases post.len(),
{
    if post.len() > 0 {
        assert((x + post).last() == post.last());
        assert((x + post).drop_last() =~= x + post.drop_last());
        assert forall|i: int| 0 <= i < post.drop_last().len() implies trimmed_char(
            kind,
            #[trigger] post.drop_last()[i],
        ) by {
            assert(post.drop_last()[i] == post[i]);
        }
        lemma_strip_end_suffix(x, post.drop_last(), kind);
    } else {
        assert(x + post =~= x);
    }
}

/// Trimming removes exactly the characters of the kind around a text that
/// neither begins nor ends with one.
pub proof fn lemma_strip_around(pre: Seq<char>, t: Seq<char>, post: Seq<char>, kind: Trim)
    requires
        all_trimmed(pre, kind),
        all_trimmed(post, kind),
        t.len() > 0 ==> !trimmed_char(kind, t[0]) && !trimmed_char(kind, t.last()),
    ensures
        strip(pre + t + post, kind) == t,
{
    assert(pre + t + post =~= pre + (t + post));
    lemma_strip_start_prefix(pre, t + post, kind);
    if t.len() > 0 {
        assert((t + post)[0] == t[0]);
        assert(strip_start(t + post, kind) == t + post);
        lemma_strip_end_suffix(t, post, kind);
    } else {
        assert(t + post =~= post);
        lemma_strip_start_prefix(post, Seq::<char>::empty(), kind);
        assert(post + Seq::<char>::empty() =~= post);
        assert(strip_start(Seq::<char>::empty(), kind) == Seq::<char>::empty());
        assert(t =~= Seq::<char>::empty());
    }
}

/// A URL entry is read without the white space around it: white space
/// alone skips the URL; otherwise the text inside is accepted when it
/// begins with `http://` or `https://`, and refused when not.
pub proof fn lemma_url_entry(pre: Seq<char>, t: Seq<char>, post: Seq<char>)
    requires
        all_trimmed(pre, Trim::WhiteSpace),
        all_trimmed(post, Trim::WhiteSpace),
        t.len() > 0 ==> !white_space(t[0]) && !white_space(t.last()),
    ensures
        t.len() == 0 ==> url_verdict(pre + t + post) == UrlVerdict::Skip,
        t.len() > 0 ==> url_verdict(pre + t + post) == if has_prefix(t, "http://"@) || has_prefix(
            t,
            "https://"@,
        ) {
            UrlVerdict::Accept(t)
        } else {
            UrlVerdict::Reject
        },
{
    lemma_strip_around(pre, t, post, Trim::WhiteSpace);
}

/// An audio-file entry names the path inside the white space and the
/// double quotes around it: `  "/music/a b.flac" ` names `/music/a b.flac`.
pub proof fn lemma_audio_entry(
    ws1: Seq<char>,
    q1: Seq<char>,
    t: Seq<char>,
    q2: Seq<char>,
    ws2: Seq<char>,
)
    requires
        all_trimmed(ws1, Trim::WhiteSpace),
        all_trimmed(ws2, Trim::WhiteSpace),
        all_trimmed(q1, Trim::Quote),
        all_trimmed(q2, Trim::Quote),
        t.len() > 0 ==> !white_space(t[0]) && !white_space(t.last()) && t[0] != '"' && t.last()
            != '"',
    ensures
        audio_candidate(ws1 + q1 + t + q2 + ws2) == t,
{
    let m = q1 + t + q2;
    assert(ws1 + q1 + t + q2 + ws2 =~= ws1 + m + ws2);
    if m.len() > 0 {
        if q1.len() > 0 {
            assert(m[0] == q1[0]);
            assert(trimmed_char(Trim::Quote, q1[0]));
        } else if t.len() > 0 {
            assert(m[0] == t[0]);
        } else {
            assert(m[0] == q2[0]);
            assert(trimmed_char(Trim::Quote, q2[0]));
        }
        if q2.len() > 0 {
            assert(m.last() == q2.last());
            assert(trimmed_char(Trim::Quote, q2[q2.len() - 1]));
        } else if t.len() > 0 {
            assert(m.last() == t.last());
        } else {
            assert(m.last() == q1.last());
            assert(trimmed_char(Trim::Quote, q1[q1.len() - 1]));
        }
    }
    lemma_strip_around(ws1, m, ws2, Trim::WhiteSpace);
    lemma_strip_around(q1, t, q2, Trim::Quote);
}

} // verus!
