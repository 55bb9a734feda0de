//! Decisions of the embedded player around the video: saved progress, video size settings,
//! skip-intro and next-episode hints, and the player worker's own bookkeeping.
use vstd::prelude::*;
use crate::up_next::{intro_end, intro_skip_target, next_episode_due, suggest, Chapter};
use crate::text::{chars_of, decimal, decimal_chars, extend_chars, join_chars, joined, same_chars, string_of, views};
use crate::languages::{language_display, name};
use crate::server::{sha256, sha256_of};

verus! {

/// The parse of a URL as the `url` crate's `Url::parse` makes it, when it succeeds: its
/// scheme, user name, whether it has a password, its serialization, and the ASCII
/// serialization of its origin.
pub uninterp spec fn url_parse(s: Seq<char>) -> Option<(Seq<char>, Seq<char>, bool, Seq<char>, Seq<char>)>;

/// The parts of a parsed URL that the client looks at.
pub struct ParsedUrl {
    pub scheme: String,
    pub username: String,
    pub has_password: bool,
    pub serialized: String,
    pub origin: String,
}

/// Calls `url::Url::parse` and reads the parsed URL's `scheme`, `username`, `password`,
/// `to_string` and `origin().ascii_serialization()`; the result is named `url_parse`, and no
/// more is claimed of it.
#[verifier::external_body]
pub(crate) fn parse_url(s: &str) -> (r: Option<ParsedUrl>)
    ensures
        match r {
            Some(p) => url_parse(s@) == Some((p.scheme@, p.username@, p.has_password, p.serialized@, p.origin@)),
            None => url_parse(s@) is None,
        },
{
    match url::Url::parse(s) {
        Ok(u) => Some(ParsedUrl {
            scheme: u.scheme().to_string(),
            username: u.username().to_string(),
            has_password: u.password().is_some(),
            serialized: u.to_string(),
            origin: u.origin().ascii_serialization(),
        }),
        Err(_) => None,
    }
}

/// The URL parses and uses HTTP or HTTPS.
pub open spec fn http_url(s: Seq<char>) -> bool {
    url_parse(s) matches Some(p) && (p.0 == "http"@ || p.0 == "https"@)
}

/// Whether a URL parses with an `http` or `https` scheme.
pub fn is_http_url(s: &str) -> (b: bool)
    ensures
        b == http_url(s@),
{
    match parse_url(s) {
        Some(p) => {
            let scheme = chars_of(p.scheme.as_str());
            same_chars(scheme.as_slice(), "http") || same_chars(scheme.as_slice(), "https")
        },
        None => false,
    }
}

/// The position saved for a playback: the whole duration when completed (the position if
/// the duration is unknown), otherwise the position, no later than a known duration.
pub open spec fn saved_position(position: u64, duration: Option<u64>, completed: bool) -> u64 {
    if completed {
        match duration {
            Some(d) => d,
            None => position,
        }
    } else {
        match duration {
            Some(d) => if position < d { position } else { d },
            None => position,
        }
    }
}

/// The position to store in a progress record.
pub fn progress_position(position: u64, duration: Option<u64>, completed: bool) -> (r: u64)
    ensures
        r == saved_position(position, duration, completed),
{
    if completed {
        match duration {
            Some(d) => d,
            None => position,
        }
    } else {
        match duration {
            Some(d) => if position < d { position } else { d },
            None => position,
        }
    }
}

/// The player properties for a video size mode, and the message that confirms it.
pub struct FitSettings {
    pub keepaspect: &'static str,
    pub video_unscaled: &'static str,
    pub panscan: &'static str,
    pub video_zoom: &'static str,
    pub message: &'static str,
}

/// Settings for a video size mode: `stretch` drops the aspect ratio, `original` shows the
/// video unscaled, `fill` crops; anything else fits the video to the window.
pub fn fit_settings(value: &str) -> (r: FitSettings)
    ensures
        r.keepaspect@ == if value@ == "stretch"@ { "no"@ } else { "yes"@ },
        r.video_unscaled@ == if value@ == "original"@ { "yes"@ } else { "no"@ },
        r.panscan@ == if value@ == "fill"@ { "1"@ } else { "0"@ },
        r.video_zoom@ == "0"@,
        r.message@ == if value@ == "fill"@ {
            "Fill / crop"@
        } else if value@ == "stretch"@ {
            "Stretch"@
        } else if value@ == "original"@ {
            "Original size"@
        } else {
            "Fit to window"@
        },
{
    let v = chars_of(value);
    let stretch = same_chars(v.as_slice(), "stretch");
    let original = same_chars(v.as_slice(), "original");
    let fill = same_chars(v.as_slice(), "fill");
    FitSettings {
        keepaspect: if stretch { "no" } else { "yes" },
        video_unscaled: if original { "yes" } else { "no" },
        panscan: if fill { "1" } else { "0" },
        video_zoom: "0",
        message: if fill {
            "Fill / crop"
        } else if stretch {
            "Stretch"
        } else if original {
            "Original size"
        } else {
            "Fit to window"
        },
    }
}

/// Where the player is shown and what it is waiting for.
#[derive(Clone, Copy, Debug)]
pub struct HintContext {
    /// The item is a series.
    pub series: bool,
    /// The video can be seeked.
    pub seekable: bool,
    /// The next-episode countdown is running.
    pub awaiting_next: bool,
    /// The video plays in the mini player.
    pub mini: bool,
    /// The video plays in a picture-in-picture window.
    pub pip: bool,
    /// The viewer dismissed the next-episode hint.
    pub dismissed: bool,
}

/// The skip-intro button shows in the full player of a seekable series episode, while no
/// next episode is pending, and jumps to the end of the intro playing now.
pub open spec fn intro_hint_of(ctx: HintContext, position: Option<u64>, chapters: Seq<Chapter>, offset: u64) -> Option<u64> {
    if ctx.series && ctx.seekable && !ctx.awaiting_next && !ctx.mini && !ctx.pip {
        match position {
            Some(p) => intro_skip_target(p, chapters, offset),
            None => None,
        }
    } else {
        None
    }
}

/// Where the skip-intro button would jump to, if it shows.
pub fn intro_hint(ctx: HintContext, position: Option<u64>, chapters: &[Chapter], offset: u64) -> (r: Option<u64>)
    ensures
        r == intro_hint_of(ctx, position, chapters@, offset),
{
    if ctx.series && ctx.seekable && !ctx.awaiting_next && !ctx.mini && !ctx.pip {
        match position {
            Some(p) => intro_end(p, chapters, offset),
            None => None,
        }
    } else {
        None
    }
}

/// The next-episode hint shows in the full player of a series episode that the viewer did
/// not dismiss, with no countdown running, once the next episode is due.
pub open spec fn next_hint_of(
    ctx: HintContext,
    position: Option<u64>,
    duration: Option<u64>,
    chapters: Seq<Chapter>,
    offset: u64,
) -> bool {
    ctx.series && !ctx.dismissed && !ctx.awaiting_next && !ctx.mini && !ctx.pip && match (position, duration) {
        (Some(p), Some(d)) => next_episode_due(p, d, chapters, offset),
        _ => false,
    }
}

/// Whether the next-episode hint should show.
pub fn next_hint(ctx: HintContext, position: Option<u64>, duration: Option<u64>, chapters: &[Chapter], offset: u64)
    -> (b: bool)
    ensures
        b == next_hint_of(ctx, position, duration, chapters@, offset),
{
    if ctx.series && !ctx.dismissed && !ctx.awaiting_next && !ctx.mini && !ctx.pip {
        match (position, duration) {
            (Some(p), Some(d)) => suggest(p, d, chapters, offset),
            _ => false,
        }
    } else {
        false
    }
}

/// The label of the next-episode countdown button.
pub fn countdown_label(remaining: u64) -> (r: String)
    ensures
        r@ == "Next episode · "@ + decimal(remaining as nat) + "s"@,
{
    let mut out = chars_of("Next episode · ");
    extend_chars(&mut out, decimal_chars(remaining).as_slice());
    extend_chars(&mut out, chars_of("s").as_slice());
    string_of(out.as_slice())
}

/// Whether the player worker still chooses tracks by itself, and whether the track list
/// should be read again.
#[derive(Clone, Copy, Debug, PartialEq, Eq)]
pub struct WorkerFlags {
    pub auto_audio: bool,
    pub auto_subtitles: bool,
    pub tracks_due: bool,
}

impl WorkerFlags {
    /// A new video: tracks are chosen automatically again.
    pub fn start(&mut self)
        ensures
            *final(self) == (WorkerFlags { auto_audio: true, auto_subtitles: true, ..*old(self) }),
            *final(self) == after_command(*old(self), WorkerCommand::Start),
    {
        self.auto_audio = true;
        self.auto_subtitles = true;
    }

    /// Which kinds of track the worker may still choose by itself: audio while its automatic
    /// choice is on; subtitles while theirs is on and subtitles are enabled.
    pub open spec fn automatic_choices(self, subtitles_enabled: bool) -> (bool, bool) {
        (self.auto_audio, self.auto_subtitles && subtitles_enabled)
    }

    /// Whether the worker chooses audio and subtitle tracks by itself now, given whether the
    /// viewer's preferences enable subtitles.
    pub fn automatic(&self, subtitles_enabled: bool) -> (r: (bool, bool))
        ensures
            r == self.automatic_choices(subtitles_enabled),
    {
        (self.auto_audio, self.auto_subtitles && subtitles_enabled)
    }

    /// A property was set by the viewer: choosing audio or subtitles by hand ends their
    /// automatic choice, and the track list is read again.
    pub fn set(&mut self, name: &str)
        ensures
            final(self).auto_audio == (old(self).auto_audio && name@ != "aid"@),
            final(self).auto_subtitles == (old(self).auto_subtitles && name@ != "sid"@),
            final(self).tracks_due,
            *final(self) == after_command(*old(self), WorkerCommand::SetProperty(name@)),
    {
        let n = chars_of(name);
        if same_chars(n.as_slice(), "aid") {
            self.auto_audio = false;
        }
        if same_chars(n.as_slice(), "sid") {
            self.auto_subtitles = false;
        }
        self.tracks_due = true;
    }

    /// A command was run for the viewer: cycling or setting audio or subtitles, or adding a
    /// subtitle file, ends their automatic choice; the track list is read again.
    pub fn run(&mut self, args: &Vec<String>)
        ensures
            final(self).auto_audio == (old(self).auto_audio && !(args@.len() >= 2
                && (args@[0]@ == "cycle"@ || args@[0]@ == "set"@) && args@[1]@ == "aid"@)),
            final(self).auto_subtitles == (old(self).auto_subtitles && !(args@.len() >= 2
                && (args@[0]@ == "cycle"@ || args@[0]@ == "set"@) && args@[1]@ == "sid"@)
                && !(args@.len() >= 1 && args@[0]@ == "sub-add"@)),
            final(self).tracks_due,
            *final(self) == after_command(*old(self), WorkerCommand::RunCommand(args@.map_values(|a: String| a@))),
    {
        if args.len() >= 1 {
            let first = chars_of(args[0].as_str());
            if same_chars(first.as_slice(), "cycle") || same_chars(first.as_slice(), "set") {
                if args.len() >= 2 {
                    let second = chars_of(args[1].as_str());
                    if same_chars(second.as_slice(), "aid") {
                        self.auto_audio = false;
                    }
                    if same_chars(second.as_slice(), "sid") {
                        self.auto_subtitles = false;
                    }
                }
            }
            if same_chars(first.as_slice(), "sub-add") {
                self.auto_subtitles = false;
            }
        }
        self.tracks_due = true;
    }
}

/// The commands the player worker receives that bear on automatic track choice: a new video,
/// a property set for the viewer, and a command run for the viewer (its arguments).
pub enum WorkerCommand {
    Start,
    SetProperty(Seq<char>),
    RunCommand(Seq<Seq<char>>),
}

/// The command chooses audio by hand.
pub open spec fn chooses_audio(c: WorkerCommand) -> bool {
    match c {
        WorkerCommand::Start => false,
        WorkerCommand::SetProperty(name) => name == "aid"@,
        WorkerCommand::RunCommand(args) => args.len() >= 2 && (args[0] == "cycle"@ || args[0] == "set"@) && args[1] == "aid"@,
    }
}

/// The command chooses subtitles by hand.
pub open spec fn chooses_subtitles(c: WorkerCommand) -> bool {
    match c {
        WorkerCommand::Start => false,
        WorkerCommand::SetProperty(name) => name == "sid"@,
        WorkerCommand::RunCommand(args) => (args.len() >= 2 && (args[0] == "cycle"@ || args[0] == "set"@) && args[1] == "sid"@)
            || (args.len() >= 1 && args[0] == "sub-add"@),
    }
}

/// The flags after one command, as `start`, `set` and `run` leave them.
pub open spec fn after_command(f: WorkerFlags, c: WorkerCommand) -> WorkerFlags {
    match c {
        WorkerCommand::Start => WorkerFlags { auto_audio: true, auto_subtitles: true, ..f },
        _ => WorkerFlags {
            auto_audio: f.auto_audio && !chooses_audio(c),
            auto_subtitles: f.auto_subtitles && !chooses_subtitles(c),
            tracks_due: true,
        },
    }
}

/// The flags after a run of commands, in order.
pub open spec fn after_commands(f: WorkerFlags, cs: Seq<WorkerCommand>) -> WorkerFlags
    decreases cs.len(),
{
    if cs.len() == 0 {
        f
    } else {
        after_command(after_commands(f, cs.drop_last()), cs.last())
    }
}

/// A manual choice holds until the next video: once audio (or subtitles) was chosen by hand,
/// no later command but `Start` turns its automatic choice on again, so the worker switches
/// that kind of track only when a command asks for it; and subtitles are never switched
/// automatically while they are turned off.
pub proof fn lemma_manual_choice_holds(f: WorkerFlags, cs: Seq<WorkerCommand>, i: int, subtitles_enabled: bool)
    requires
        0 <= i < cs.len(),
        forall|j: int| i < j < cs.len() ==> !(#[trigger] cs[j] is Start),
    ensures
        chooses_audio(cs[i]) ==> !after_commands(f, cs).auto_audio
            && !after_commands(f, cs).automatic_choices(subtitles_enabled).0,
        chooses_subtitles(cs[i]) ==> !after_commands(f, cs).auto_subtitles
            && !after_commands(f, cs).automatic_choices(subtitles_enabled).1,
        !subtitles_enabled ==> !after_commands(f, cs).automatic_choices(subtitles_enabled).1,
    decreases cs.len(),
{
    if i < cs.len() - 1 {
        lemma_manual_choice_holds(f, cs.drop_last(), i, subtitles_enabled);
        assert(!(cs[cs.len() - 1] is Start));
    }
}

/// What the player does with a viewer's action.
#[derive(Clone, Copy, Debug, PartialEq, Eq, Structural)]
pub enum ActionGate {
    /// Carry the action out.
    Perform,
    /// Leave the next-episode prompt and end playback.
    FinishWaiting,
    /// Do nothing.
    Ignore,
}

/// While the next-episode prompt waits only Escape or Stop ends it, and nothing else is done;
/// a finished player ignores every action; previous and next episode apply to series only.
pub open spec fn gate_of(awaiting_next: bool, finished: bool, escape_or_stop: bool, episode_step: bool, series: bool) -> ActionGate {
    if awaiting_next {
        if escape_or_stop { ActionGate::FinishWaiting } else { ActionGate::Ignore }
    } else if finished || (episode_step && !series) {
        ActionGate::Ignore
    } else {
        ActionGate::Perform
    }
}

/// Whether the player carries out an action: `escape_or_stop` tells that it is Escape or
/// Stop, `episode_step` that it asks for the previous or next episode, `series` that the
/// video belongs to a series.
pub fn action_gate(awaiting_next: bool, finished: bool, escape_or_stop: bool, episode_step: bool, series: bool) -> (r: ActionGate)
    ensures
        r == gate_of(awaiting_next, finished, escape_or_stop, episode_step, series),
{
    if awaiting_next {
        if escape_or_stop { ActionGate::FinishWaiting } else { ActionGate::Ignore }
    } else if finished || (episode_step && !series) {
        ActionGate::Ignore
    } else {
        ActionGate::Perform
    }
}

/// The warning shown when a property could not be changed, naming it with spaces for dashes.
pub fn change_warning(name: &str) -> (r: String)
    ensures
        r@ == "Could not change "@ + name@.map_values(|c: char| if c == '-' { ' ' } else { c }) + "."@,
{
    let n = chars_of(name);
    let mut out = chars_of("Could not change ");
    let ghost start = out@;
    let mut i: usize = 0;
    while i < n.len()
        invariant
            n@ == name@,
            i <= n@.len(),
            out@ == start + n@.subrange(0, i as int).map_values(|c: char| if c == '-' { ' ' } else { c }),
        decreases n@.len() - i,
    {
        let c = n[i];
        out.push(if c == '-' { ' ' } else { c });
        assert(n@.subrange(0, i + 1).map_values(|c: char| if c == '-' { ' ' } else { c })
            =~= n@.subrange(0, i as int).map_values(|c: char| if c == '-' { ' ' } else { c }).push(
            if c == '-' { ' ' } else { c }));
        i = i + 1;
    }
    assert(n@.subrange(0, n@.len() as int) =~= n@);
    extend_chars(&mut out, chars_of(".").as_slice());
    string_of(out.as_slice())
}

/// The track `id` of `kind` is the selected one.
pub open spec fn already_selected(tracks: Seq<crate::tracks::Track>, kind: Seq<char>, id: i64) -> bool {
    exists|i: int| 0 <= i < tracks.len() && #[trigger] tracks[i].kind@ == kind && tracks[i].id == id && tracks[i].selected
}

/// The track to switch to automatically: the preferred track of `kind`, when automatic
/// choice is on and that track is not already the selected one.
pub fn automatic_track(automatic: bool, preferred: Option<i64>, kind: &str, tracks: &[crate::tracks::Track])
    -> (r: Option<i64>)
    ensures
        r == match preferred {
            Some(id) => if automatic && !already_selected(tracks@, kind@, id) { Some(id) } else { None },
            None => None::<i64>,
        },
{
    if !automatic {
        return None;
    }
    let id = match preferred {
        Some(id) => id,
        None => return None,
    };
    let k = chars_of(kind);
    let mut i: usize = 0;
    while i < tracks.len()
        invariant
            k@ == kind@,
            automatic,
            preferred == Some(id),
            i <= tracks@.len(),
            forall|j: int| 0 <= j < i ==> !(#[trigger] tracks@[j].kind@ == kind@ && tracks@[j].id == id
                && tracks@[j].selected),
        decreases tracks@.len() - i,
    {
        let t = &tracks[i];
        let kind_matches = same_chars(k.as_slice(), t.kind.as_str());
        if kind_matches && t.id == id && t.selected {
            assert(tracks@[i as int].kind@ == kind@ && tracks@[i as int].id == id && tracks@[i as int].selected);
            return None;
        }
        i = i + 1;
    }
    Some(id)
}

/// The byte length of a text in UTF-8.
pub open spec fn utf8_len(s: Seq<char>) -> nat {
    vstd::utf8::encode_utf8(s).len()
}

/// One request header in the player's `http-header-fields` form: `%length%Name: value`,
/// where the length counts the bytes of `Name: value`.
pub open spec fn header_field(name: Seq<char>, value: Seq<char>) -> Seq<char> {
    let h = name + ": "@ + value;
    "%"@ + decimal(utf8_len(h)) + "%"@ + h
}

/// All request headers for the player, in the order given, separated by commas.
pub fn header_fields(headers: &Vec<(String, String)>) -> (r: String)
    requires
        forall|i: int| 0 <= i < headers@.len() ==> utf8_len(#[trigger] headers@[i].0@ + ": "@ + headers@[i].1@) <= usize::MAX,
    ensures
        r@ == joined(Seq::new(headers@.len(), |i: int| header_field(headers@[i].0@, headers@[i].1@)), ","@),
{
    let mut fields: Vec<Vec<char>> = Vec::new();
    let mut i: usize = 0;
    while i < headers.len()
        invariant
            i <= headers@.len(),
            forall|i: int| 0 <= i < headers@.len() ==> utf8_len(#[trigger] headers@[i].0@ + ": "@ + headers@[i].1@) <= usize::MAX,
            views(fields@) == Seq::new(i as nat, |q: int| header_field(headers@[q].0@, headers@[q].1@)),
        decreases headers@.len() - i,
    {
        let mut h = chars_of(headers[i].0.as_str());
        extend_chars(&mut h, chars_of(": ").as_slice());
        extend_chars(&mut h, chars_of(headers[i].1.as_str()).as_slice());
        let text = string_of(h.as_slice());
        let length = text.as_str().len();
        assert(h@ == headers@[i as int].0@ + ": "@ + headers@[i as int].1@);
        assert(length as nat == utf8_len(h@));
        let mut field = chars_of("%");
        extend_chars(&mut field, decimal_chars(length as u64).as_slice());
        extend_chars(&mut field, chars_of("%").as_slice());
        extend_chars(&mut field, h.as_slice());
        let ghost before = fields@;
        let ghost fv = field@;
        fields.push(field);
        assert(views(fields@) =~= views(before).push(fv));
        assert(views(fields@) =~= Seq::new((i + 1) as nat, |q: int| header_field(headers@[q].0@, headers@[q].1@)));
        i = i + 1;
    }
    let out = join_chars(&fields, ",");
    string_of(out.as_slice())
}

/// A chapter's title, or `Chapter n` counting from one when the player reports none.
pub fn chapter_title(index: i64, title: Option<String>) -> (r: String)
    requires
        0 <= index < i64::MAX,
    ensures
        r@ == match title {
            Some(t) => if t@.len() > 0 { t@ } else { "Chapter "@ + decimal((index + 1) as nat) },
            None => "Chapter "@ + decimal((index + 1) as nat),
        },
{
    match title {
        Some(t) => {
            if t.as_str().unicode_len() > 0 {
                return t;
            }
        },
        None => {},
    }
    let mut out = chars_of("Chapter ");
    extend_chars(&mut out, decimal_chars((index + 1) as u64).as_slice());
    string_of(out.as_slice())
}

/// The arguments of the `sub-add` command for an external subtitle: added only from web
/// addresses, titled by its language's name.
pub fn subtitle_command(url: &str, lang: &str) -> (r: Option<Vec<String>>)
    ensures
        http_url(url@) <==> r is Some,
        r matches Some(args) ==> args@.len() == 5 && args@[0]@ == "sub-add"@ && args@[1]@ == url@
            && args@[2]@ == "auto"@ && args@[3]@ == language_display(lang@) && args@[4]@ == lang@,
{
    if !is_http_url(url) {
        return None;
    }
    let mut args: Vec<String> = Vec::new();
    args.push(string_of(chars_of("sub-add").as_slice()));
    args.push(string_of(chars_of(url).as_slice()));
    args.push(string_of(chars_of("auto").as_slice()));
    args.push(name(lang));
    args.push(string_of(chars_of(lang).as_slice()));
    Some(args)
}

/// The player properties set when a video starts: preferred audio and subtitle languages,
/// automatic audio, subtitles that match the audio when subtitle languages are set, and
/// subtitles on or off.
pub fn start_properties(audio_languages: &Vec<String>, subtitle_languages: &Vec<String>, subtitles_enabled: bool)
    -> (r: Vec<(String, String)>)
    ensures
        ({
            let alang = joined(audio_languages@.map_values(|s: String| s@), ","@);
            let slang = joined(subtitle_languages@.map_values(|s: String| s@), ","@);
            let sid = if subtitles_enabled { "auto"@ } else { "no"@ };
            let all = if subtitle_languages@.len() > 0 {
                seq![("alang"@, alang), ("slang"@, slang), ("aid"@, "auto"@), ("subs-with-matching-audio"@, "yes"@), ("sid"@, sid)]
            } else {
                seq![("alang"@, alang), ("slang"@, slang), ("aid"@, "auto"@), ("sid"@, sid)]
            };
            r@.map_values(|p: (String, String)| (p.0@, p.1@)) == all
        }),
{
    let mut a: Vec<Vec<char>> = Vec::new();
    let mut i: usize = 0;
    while i < audio_languages.len()
        invariant
            i <= audio_languages@.len(),
            views(a@) == audio_languages@.subrange(0, i as int).map_values(|s: String| s@),
        decreases audio_languages@.len() - i,
    {
        let ghost before = a@;
        let c = chars_of(audio_languages[i].as_str());
        let ghost cv = c@;
        a.push(c);
        assert(views(a@) =~= views(before).push(cv));
        assert(audio_languages@.subrange(0, i + 1).map_values(|s: String| s@)
            =~= audio_languages@.subrange(0, i as int).map_values(|s: String| s@).push(audio_languages@[i as int]@));
        i = i + 1;
    }
    assert(audio_languages@.subrange(0, audio_languages@.len() as int) =~= audio_languages@);
    let mut s: Vec<Vec<char>> = Vec::new();
    let mut j: usize = 0;
    while j < subtitle_languages.len()
        invariant
            j <= subtitle_languages@.len(),
            views(s@) == subtitle_languages@.subrange(0, j as int).map_values(|s: String| s@),
        decreases subtitle_languages@.len() - j,
    {
        let ghost before = s@;
        let c = chars_of(subtitle_languages[j].as_str());
        let ghost cv = c@;
        s.push(c);
        assert(views(s@) =~= views(before).push(cv));
        assert(subtitle_languages@.subrange(0, j + 1).map_values(|s: String| s@)
            =~= subtitle_languages@.subrange(0, j as int).map_values(|s: String| s@).push(subtitle_languages@[j as int]@));
        j = j + 1;
    }
    assert(subtitle_languages@.subrange(0, subtitle_languages@.len() as int) =~= subtitle_languages@);
    let text = |v: &str| -> (r: String)
        ensures
            r@ == v@,
        { string_of(chars_of(v).as_slice()) };
    let mut r: Vec<(String, String)> = Vec::new();
    r.push((text("alang"), string_of(join_chars(&a, ",").as_slice())));
    r.push((text("slang"), string_of(join_chars(&s, ",").as_slice())));
    r.push((text("aid"), text("auto")));
    if subtitle_languages.len() > 0 {
        r.push((text("subs-with-matching-audio"), text("yes")));
    }
    r.push((text("sid"), if subtitles_enabled { text("auto") } else { text("no") }));
    proof {
        let sid = if subtitles_enabled { "auto"@ } else { "no"@ };
        if subtitle_languages@.len() > 0 {
            assert(r@.map_values(|p: (String, String)| (p.0@, p.1@)) =~= seq![("alang"@, joined(audio_languages@.map_values(|s: String| s@), ","@)), ("slang"@, joined(subtitle_languages@.map_values(|s: String| s@), ","@)), ("aid"@, "auto"@), ("subs-with-matching-audio"@, "yes"@), ("sid"@, sid)]);
        } else {
            assert(r@.map_values(|p: (String, String)| (p.0@, p.1@)) =~= seq![("alang"@, joined(audio_languages@.map_values(|s: String| s@), ","@)), ("slang"@, joined(subtitle_languages@.map_values(|s: String| s@), ","@)), ("aid"@, "auto"@), ("sid"@, sid)]);
        }
    }
    r
}

/// A lower-case hexadecimal digit for `n`, which is below sixteen.
pub open spec fn hex_digit(n: nat) -> char {
    if n < 10 {
        ((('0' as u32) as nat) + n) as char
    } else {
        ((('a' as u32) as nat) + n - 10) as char
    }
}

/// The bytes in lower-case hexadecimal, two digits each, as `{:x}` prints a digest.
pub open spec fn hex_of(bytes: Seq<u8>) -> Seq<char>
    decreases bytes.len(),
{
    if bytes.len() == 0 {
        Seq::<char>::empty()
    } else {
        hex_of(bytes.drop_last()).push(hex_digit((bytes.last() / 16) as nat)).push(hex_digit((bytes.last() % 16) as nat))
    }
}

fn hex_char(n: u8) -> (c: char)
    requires
        n < 16,
    ensures
        c == hex_digit(n as nat),
{
    if n < 10 {
        (n + 48) as char
    } else {
        (n + 87) as char
    }
}

/// What identifies a source once tried: the SHA-256 digest, in hexadecimal, of the provider's
/// installation id, a colon, and the source's JSON text.
pub open spec fn source_fingerprint(provider: Seq<char>, source_json: Seq<char>) -> Seq<char> {
    hex_of(sha256_of(vstd::utf8::encode_utf8(provider + ":"@ + source_json)))
}

/// Fingerprint a source so that failed sources are not tried again.
pub fn fingerprint(provider: &str, source_json: &str) -> (r: String)
    ensures
        r@ == source_fingerprint(provider@, source_json@),
{
    let mut text = chars_of(provider);
    extend_chars(&mut text, chars_of(":").as_slice());
    extend_chars(&mut text, chars_of(source_json).as_slice());
    let joined_text = string_of(text.as_slice());
    let digest = sha256(joined_text.as_str().as_bytes());
    let mut out: Vec<char> = Vec::new();
    let mut i: usize = 0;
    while i < digest.len()
        invariant
            i <= digest@.len(),
            out@ == hex_of(digest@.subrange(0, i as int)),
        decreases digest@.len() - i,
    {
        let b = digest[i];
        out.push(hex_char(b / 16));
        out.push(hex_char(b % 16));
        assert(digest@.subrange(0, i + 1).drop_last() =~= digest@.subrange(0, i as int));
        i = i + 1;
    }
    assert(digest@.subrange(0, digest@.len() as int) =~= digest@);
    string_of(out.as_slice())
}

/// Playback that reached the end of the file counts as completed when the video had loaded
/// and the position is within the last twentieth of a known, non-zero duration, or within its
/// last one and a half seconds when that is less.
pub open spec fn completed_at_end(eof: bool, loaded: bool, position: Option<u64>, duration: Option<u64>) -> bool {
    eof && loaded && match (position, duration) {
        (Some(p), Some(d)) => d > 0 && p >= d - (if d / 20 < 1500 { d / 20 } else { 1500 }),
        _ => false,
    }
}

/// Whether the end of playback completes the video.
pub fn ended_completed(eof: bool, loaded: bool, position: Option<u64>, duration: Option<u64>) -> (b: bool)
    ensures
        b == completed_at_end(eof, loaded, position, duration),
{
    if !eof || !loaded {
        return false;
    }
    match (position, duration) {
        (Some(p), Some(d)) => {
            let margin = if d / 20 < 1500 { d / 20 } else { 1500 };
            d > 0 && p >= d - margin
        },
        _ => false,
    }
}

/// The longest a video may take to start, in milliseconds.
pub const START_LIMIT_MS: u64 = 60_000;

/// A video that has not loaded a minute after it was opened is given up, to be retried.
pub fn start_timed_out(loaded: bool, elapsed_ms: u64) -> (b: bool)
    ensures
        b == (!loaded && elapsed_ms > START_LIMIT_MS),
{
    !loaded && elapsed_ms > START_LIMIT_MS
}

/// Whether ending playback records the video as completed: a completed ending, or any ending
/// while the next-episode countdown runs; `None` when playback had already ended, and then
/// nothing more is recorded.
pub fn finish_completed(already_finished: bool, completed: bool, awaiting_next: bool) -> (r: Option<bool>)
    ensures
        r == if already_finished { None } else { Some(completed || awaiting_next) },
{
    if already_finished {
        None
    } else {
        Some(completed || awaiting_next)
    }
}

} // verus!
