//! Continue watching: which saved progress counts, in which order, and what each card offers.
use vstd::prelude::*;
use crate::episodes::{episode_title, episode_title_of, progress_text, progress_text_of, Episode, SavedProgress};
use crate::text::{chars_of, decimal, decimal_chars, extend_chars, same_chars, string_of};

verus! {

/// What identifies a saved title: the addon installation, the content type and the item id.
#[derive(Debug)]
pub struct ItemKey {
    pub installation_id: String,
    pub content_type: String,
    pub item_id: String,
}

/// The key as character sequences.
pub open spec fn key_view(k: ItemKey) -> (Seq<char>, Seq<char>, Seq<char>) {
    (k.installation_id@, k.content_type@, k.item_id@)
}

/// The keys as character sequences.
pub open spec fn keys_view(ks: Seq<ItemKey>) -> Seq<(Seq<char>, Seq<char>, Seq<char>)> {
    ks.map_values(|k: ItemKey| key_view(k))
}

/// Saved viewing progress of one video of a title, oldest records first in a snapshot.
#[derive(Debug)]
pub struct WatchRecord {
    pub key: ItemKey,
    pub video_id: String,
    pub position_ms: u64,
    pub duration_ms: Option<u64>,
    pub completed: bool,
    /// Where playback of this record would resume, as the core computes it.
    pub resume_ms: u64,
    pub binge_group: Option<String>,
    pub source_provider: Option<String>,
}

/// The progress line's view of a record.
pub open spec fn saved_of(r: WatchRecord) -> SavedProgress {
    SavedProgress { completed: r.completed, position_ms: r.position_ms, resume_ms: r.resume_ms }
}

fn copy_text(s: &String) -> (r: String)
    ensures
        r@ == s@,
{
    string_of(chars_of(s.as_str()).as_slice())
}

fn copy_key(k: &ItemKey) -> (r: ItemKey)
    ensures
        key_view(r) == key_view(*k),
{
    ItemKey {
        installation_id: copy_text(&k.installation_id),
        content_type: copy_text(&k.content_type),
        item_id: copy_text(&k.item_id),
    }
}

fn same_key(a: &ItemKey, b: &ItemKey) -> (r: bool)
    ensures
        r == (key_view(*a) == key_view(*b)),
{
    a.installation_id == b.installation_id && a.content_type == b.content_type && a.item_id == b.item_id
}

/// The record belongs to the title, and to the video when one is named.
pub open spec fn record_matches(r: WatchRecord, key: (Seq<char>, Seq<char>, Seq<char>), video: Option<Seq<char>>) -> bool {
    key_view(r.key) == key && match video {
        Some(v) => r.video_id@ == v,
        None => true,
    }
}

/// The newest record of the title (and video, when named).
pub open spec fn last_record(
    records: Seq<WatchRecord>,
    key: (Seq<char>, Seq<char>, Seq<char>),
    video: Option<Seq<char>>,
) -> Option<int>
    decreases records.len(),
{
    if records.len() == 0 {
        None
    } else if record_matches(records.last(), key, video) {
        Some(records.len() - 1)
    } else {
        last_record(records.drop_last(), key, video)
    }
}

proof fn lemma_last_record_in_range(
    records: Seq<WatchRecord>,
    key: (Seq<char>, Seq<char>, Seq<char>),
    video: Option<Seq<char>>,
)
    ensures
        last_record(records, key, video) matches Some(i) ==> (0 <= i < records.len()
            && record_matches(records[i], key, video)),
    decreases records.len(),
{
    if records.len() > 0 && !record_matches(records.last(), key, video) {
        lemma_last_record_in_range(records.drop_last(), key, video);
    }
}

/// The newest record of a title, or of one of its videos.
pub fn latest_record(records: &Vec<WatchRecord>, key: &ItemKey, video: Option<&str>) -> (r: Option<usize>)
    ensures
        match r {
            Some(i) => last_record(records@, key_view(*key), match video {
                Some(v) => Some(v@),
                None => None,
            }) == Some(i as int) && i < records@.len(),
            None => last_record(records@, key_view(*key), match video {
                Some(v) => Some(v@),
                None => None,
            }) is None,
        },
{
    let ghost wanted = match video {
        Some(v) => Some(v@),
        None => None::<Seq<char>>,
    };
    let mut i: usize = records.len();
    assert(records@.subrange(0, i as int) =~= records@);
    while i > 0
        invariant
            i <= records@.len(),
            last_record(records@, key_view(*key), wanted) == last_record(records@.subrange(0, i as int), key_view(*key), wanted),
            wanted == match video {
                Some(v) => Some(v@),
                None => None::<Seq<char>>,
            },
        decreases i,
    {
        let j = i - 1;
        let ghost sub = records@.subrange(0, i as int);
        assert(sub.last() == records@[j as int]);
        assert(sub.drop_last() =~= records@.subrange(0, j as int));
        let rec = &records[j];
        let fits = same_key(&rec.key, key) && match video {
            Some(v) => same_chars(chars_of(rec.video_id.as_str()).as_slice(), v),
            None => true,
        };
        if fits {
            return Some(j);
        }
        i = j;
    }
    None
}

/// The record a resumed video takes its binge group and provider from: the newest one of
/// that video, else the newest one of the title.
pub open spec fn resume_choice(records: Seq<WatchRecord>, key: (Seq<char>, Seq<char>, Seq<char>), video: Seq<char>) -> Option<int> {
    match last_record(records, key, Some(video)) {
        Some(i) => Some(i),
        None => last_record(records, key, None),
    }
}

/// The binge group and source provider to continue a video with; no group and an empty
/// provider when nothing was saved.
pub fn resume_context(records: &Vec<WatchRecord>, key: &ItemKey, video: &str) -> (r: (Option<String>, String))
    ensures
        match resume_choice(records@, key_view(*key), video@) {
            Some(i) => (match records@[i].binge_group {
                Some(g) => r.0 matches Some(x) && x@ == g@,
                None => r.0 is None,
            }) && r.1@ == match records@[i].source_provider {
                Some(p) => p@,
                None => Seq::<char>::empty(),
            },
            None => r.0 is None && r.1@ == Seq::<char>::empty(),
        },
{
    let found = match latest_record(records, key, Some(video)) {
        Some(i) => Some(i),
        None => latest_record(records, key, None),
    };
    match found {
        Some(i) => {
            let rec = &records[i];
            let group = match &rec.binge_group {
                Some(g) => Some(copy_text(g)),
                None => None,
            };
            let provider = match &rec.source_provider {
                Some(p) => copy_text(p),
                None => String::new(),
            };
            (group, provider)
        },
        None => (None, String::new()),
    }
}

/// A record belongs in Continue watching: playback got somewhere, it is unfinished (or the
/// title is a series, which goes on with its next episode), and the title was not removed.
pub open spec fn continuing(r: WatchRecord, hidden: Seq<(Seq<char>, Seq<char>, Seq<char>)>) -> bool {
    &&& r.position_ms > 0
    &&& (!r.completed || r.key.content_type@ == "series"@)
    &&& !hidden.contains(key_view(r.key))
}

/// The titles of the records that belong in Continue watching, newest record first.
pub open spec fn continue_order(
    records: Seq<WatchRecord>,
    hidden: Seq<(Seq<char>, Seq<char>, Seq<char>)>,
) -> Seq<(Seq<char>, Seq<char>, Seq<char>)>
    decreases records.len(),
{
    if records.len() == 0 {
        Seq::empty()
    } else {
        let rest = continue_order(records.drop_last(), hidden);
        if continuing(records.last(), hidden) {
            seq![key_view(records.last().key)] + rest
        } else {
            rest
        }
    }
}

fn is_hidden(hidden: &Vec<ItemKey>, key: &ItemKey) -> (b: bool)
    ensures
        b == keys_view(hidden@).contains(key_view(*key)),
{
    let mut i: usize = 0;
    while i < hidden.len()
        invariant
            i <= hidden@.len(),
            forall|j: int| 0 <= j < i ==> key_view(#[trigger] hidden@[j]) != key_view(*key),
        decreases hidden@.len() - i,
    {
        if same_key(&hidden[i], key) {
            assert(keys_view(hidden@)[i as int] == key_view(*key));
            return true;
        }
        i = i + 1;
    }
    assert forall|j: int| 0 <= j < keys_view(hidden@).len() implies #[trigger] keys_view(hidden@)[j] != key_view(*key) by {
        assert(keys_view(hidden@)[j] == key_view(hidden@[j]));
    }
    false
}

/// The titles for Continue watching, newest progress first, before removing repeats.
pub fn continue_keys(records: &Vec<WatchRecord>, hidden: &Vec<ItemKey>) -> (r: Vec<ItemKey>)
    ensures
        keys_view(r@) == continue_order(records@, keys_view(hidden@)),
{
    let ghost h = keys_view(hidden@);
    let mut r: Vec<ItemKey> = Vec::new();
    let mut i: usize = records.len();
    assert(records@.subrange(0, i as int) =~= records@);
    assert(keys_view(r@) + continue_order(records@.subrange(0, i as int), h) =~= continue_order(records@, h));
    while i > 0
        invariant
            i <= records@.len(),
            h == keys_view(hidden@),
            keys_view(r@) + continue_order(records@.subrange(0, i as int), h) == continue_order(records@, h),
        decreases i,
    {
        let j = i - 1;
        let ghost sub = records@.subrange(0, i as int);
        assert(sub.last() == records@[j as int]);
        assert(sub.drop_last() =~= records@.subrange(0, j as int));
        let rec = &records[j];
        let series = same_chars(chars_of(rec.key.content_type.as_str()).as_slice(), "series");
        let wanted = rec.position_ms > 0 && (!rec.completed || series) && !is_hidden(hidden, &rec.key);
        let ghost before = keys_view(r@);
        let ghost tail = continue_order(records@.subrange(0, j as int), h);
        if wanted {
            let k = copy_key(&rec.key);
            r.push(k);
            assert(keys_view(r@) =~= before.push(key_view(rec.key)));
            assert(keys_view(r@) + tail =~= before + (seq![key_view(rec.key)] + tail));
        }
        i = j;
    }
    assert(records@.subrange(0, 0) =~= Seq::<WatchRecord>::empty());
    assert(keys_view(r@) + Seq::<(Seq<char>, Seq<char>, Seq<char>)>::empty() =~= keys_view(r@));
    r
}

/// Each key once, where it first appears.
pub open spec fn first_occurrences(ks: Seq<(Seq<char>, Seq<char>, Seq<char>)>) -> Seq<(Seq<char>, Seq<char>, Seq<char>)>
    decreases ks.len(),
{
    if ks.len() == 0 {
        Seq::empty()
    } else {
        let f = first_occurrences(ks.drop_last());
        if f.contains(ks.last()) {
            f
        } else {
            f.push(ks.last())
        }
    }
}

/// The most titles a row of saved titles shows.
pub const RAIL_LIMIT: usize = 30;

proof fn lemma_first_occurrences_prefix(ks: Seq<(Seq<char>, Seq<char>, Seq<char>)>, i: int)
    requires
        0 <= i <= ks.len(),
    ensures
        first_occurrences(ks.subrange(0, i)).len() <= first_occurrences(ks).len(),
        first_occurrences(ks).subrange(0, first_occurrences(ks.subrange(0, i)).len() as int)
            == first_occurrences(ks.subrange(0, i)),
    decreases ks.len() - i,
{
    if i < ks.len() {
        let next = ks.subrange(0, i + 1);
        lemma_first_occurrences_prefix(ks, i + 1);
        assert(next.drop_last() =~= ks.subrange(0, i));
        let f = first_occurrences(ks.subrange(0, i));
        let g = first_occurrences(next);
        let all = first_occurrences(ks);
        assert(g.subrange(0, f.len() as int) =~= f);
        assert(all.subrange(0, f.len() as int) =~= all.subrange(0, g.len() as int).subrange(0, f.len() as int));
    } else {
        assert(ks.subrange(0, i) =~= ks);
        assert(first_occurrences(ks).subrange(0, first_occurrences(ks).len() as int) =~= first_occurrences(ks));
    }
}

/// The titles a row shows: each title once, where it first appears, at most `RAIL_LIMIT`.
pub open spec fn rail_of(ks: Seq<(Seq<char>, Seq<char>, Seq<char>)>) -> Seq<(Seq<char>, Seq<char>, Seq<char>)> {
    let f = first_occurrences(ks);
    f.take(if f.len() < RAIL_LIMIT { f.len() as int } else { RAIL_LIMIT as int })
}

fn listed(keys: &Vec<ItemKey>, key: &ItemKey) -> (b: bool)
    ensures
        b == keys_view(keys@).contains(key_view(*key)),
{
    is_hidden(keys, key)
}

/// The titles of a row of saved titles.
pub fn rail_keys(keys: &Vec<ItemKey>) -> (r: Vec<ItemKey>)
    ensures
        keys_view(r@) == rail_of(keys_view(keys@)),
{
    let ghost ks = keys_view(keys@);
    let mut r: Vec<ItemKey> = Vec::new();
    let mut i: usize = 0;
    assert(ks.subrange(0, 0) =~= Seq::<(Seq<char>, Seq<char>, Seq<char>)>::empty());
    while i < keys.len() && r.len() < RAIL_LIMIT
        invariant
            ks == keys_view(keys@),
            i <= keys@.len(),
            r@.len() <= RAIL_LIMIT,
            keys_view(r@) == rail_of(ks.subrange(0, i as int)),
            r@.len() < RAIL_LIMIT ==> keys_view(r@) == first_occurrences(ks.subrange(0, i as int)),
        decreases keys@.len() - i,
    {
        let ghost sub = ks.subrange(0, i + 1);
        assert(sub.drop_last() =~= ks.subrange(0, i as int));
        assert(sub.last() == key_view(keys@[i as int]));
        let ghost before = keys_view(r@);
        if !listed(&r, &keys[i]) {
            let k = copy_key(&keys[i]);
            r.push(k);
            assert(keys_view(r@) =~= before.push(key_view(keys@[i as int])));
        }
        proof {
            let f = first_occurrences(sub);
            assert(f.take(f.len() as int) =~= f);
        }
        i = i + 1;
    }
    proof {
        if r@.len() < RAIL_LIMIT {
            assert(ks.subrange(0, i as int) =~= ks);
        } else {
            lemma_first_occurrences_prefix(ks, i as int);
            let f = first_occurrences(ks.subrange(0, i as int));
            let all = first_occurrences(ks);
            assert(all.take(RAIL_LIMIT as int) =~= f.take(RAIL_LIMIT as int));
        }
    }
    r
}

/// What a title's metadata gives a Continue watching card.
#[derive(Debug)]
pub struct CardMeta {
    pub id: String,
    pub content_type: String,
    pub name: String,
    /// The metadata lists the title's episodes.
    pub episodes_listed: bool,
    pub background: Option<String>,
    pub poster: Option<String>,
}

/// What a Continue watching card shows, and what playing it resumes.
#[derive(Debug)]
pub struct ContinueCard {
    /// The video that playing the card resumes.
    pub video: String,
    /// The episode line, or what kind of title continues.
    pub caption: String,
    /// The card names the episode it continues with.
    pub episode_shown: bool,
    pub status: String,
    /// The content type as shown on the artwork.
    pub kind: String,
    /// The accessible label of the play action.
    pub label: String,
    /// The record whose progress bar the card shows, by its index in the snapshot.
    pub saved: Option<usize>,
    pub image: Option<String>,
    /// Playing must first load the series' episodes.
    pub needs_episodes: bool,
}

/// The content type as a card shows it.
pub open spec fn kind_name(t: Seq<char>) -> Seq<char> {
    if t == "movie"@ {
        "Movie"@
    } else if t == "series"@ {
        "Series"@
    } else {
        t
    }
}

/// The status line of a card, from the record of the video it resumes.
pub open spec fn card_status(series: bool, episode_shown: bool, saved: Option<WatchRecord>) -> Seq<char> {
    match saved {
        Some(p) => if !p.completed && p.position_ms > 0 {
            progress_text_of(Some(saved_of(p)))
        } else if series && (episode_shown || p.completed) {
            "Play next episode"@
        } else if series {
            "Continue series"@
        } else {
            "Play movie"@
        },
        None => if series && episode_shown {
            "Play next episode"@
        } else if series {
            "Continue series"@
        } else {
            "Play movie"@
        },
    }
}

/// The first text present.
pub open spec fn first_text(a: Option<String>, b: Option<String>, c: Option<String>) -> Option<Seq<char>> {
    match a {
        Some(x) => Some(x@),
        None => match b {
            Some(x) => Some(x@),
            None => match c {
                Some(x) => Some(x@),
                None => None,
            },
        },
    }
}

/// The card for a title: a series whose episodes are listed continues with `next` (the
/// episode the core recommends; without one there is no card); otherwise the newest saved
/// video of the title, or the title's own id, is resumed.
pub open spec fn card_is(
    c: ContinueCard,
    key: ItemKey,
    meta: CardMeta,
    next: Option<Episode>,
    thumbnail: Option<String>,
    records: Seq<WatchRecord>,
) -> bool {
    let series = key.content_type@ == "series"@;
    let episode = if series && meta.episodes_listed { next } else { None };
    let video = match episode {
        Some(e) => e.id@,
        None => match last_record(records, key_view(key), None) {
            Some(i) => records[i].video_id@,
            None => meta.id@,
        },
    };
    let saved = last_record(records, key_view(key), Some(video));
    let saved_record = match saved {
        Some(i) => Some(records[i]),
        None => None,
    };
    let caption = match episode {
        Some(e) => episode_title_of(e),
        None => if series { "Continue series"@ } else { "Continue movie"@ },
    };
    let status = card_status(series, episode is Some, saved_record);
    &&& c.video@ == video
    &&& match c.saved {
        Some(i) => saved == Some(i as int),
        None => saved is None,
    }
    &&& c.caption@ == caption
    &&& c.episode_shown == episode is Some
    &&& c.status@ == status
    &&& c.kind@ == kind_name(meta.content_type@)
    &&& c.label@ == status + " · "@ + meta.name@ + " · "@ + caption
    &&& match c.image {
        Some(x) => first_text(if episode is Some { thumbnail } else { None }, meta.background, meta.poster) == Some(x@),
        None => first_text(if episode is Some { thumbnail } else { None }, meta.background, meta.poster) is None,
    }
    &&& c.needs_episodes == (series && !meta.episodes_listed)
}

fn copy_option(s: &Option<String>) -> (r: Option<String>)
    ensures
        match r {
            Some(x) => s matches Some(y) && x@ == y@,
            None => s is None,
        },
{
    match s {
        Some(x) => Some(copy_text(x)),
        None => None,
    }
}

/// Plan the Continue watching card of a title; `None` when a listed series has no episode
/// left to continue with.
pub fn continue_card(
    key: &ItemKey,
    meta: &CardMeta,
    next: &Option<Episode>,
    thumbnail: &Option<String>,
    records: &Vec<WatchRecord>,
) -> (r: Option<ContinueCard>)
    ensures
        r is None <==> (key.content_type@ == "series"@ && meta.episodes_listed && next is None),
        r matches Some(c) ==> card_is(c, *key, *meta, *next, *thumbnail, records@),
{
    let series = same_chars(chars_of(key.content_type.as_str()).as_slice(), "series");
    let use_episode = series && meta.episodes_listed;
    if use_episode && next.is_none() {
        return None;
    }
    let episode: Option<&Episode> = if use_episode {
        match next {
            Some(e) => Some(e),
            None => None,
        }
    } else {
        None
    };
    let video = match episode {
        Some(e) => copy_text(&e.id),
        None => match latest_record(records, key, None) {
            Some(i) => copy_text(&records[i].video_id),
            None => copy_text(&meta.id),
        },
    };
    let saved = latest_record(records, key, Some(video.as_str()));
    let caption = match episode {
        Some(e) => episode_title(e),
        None => if series {
            string_of(chars_of("Continue series").as_slice())
        } else {
            string_of(chars_of("Continue movie").as_slice())
        },
    };
    proof {
        lemma_last_record_in_range(records@, key_view(*key), Some(video@));
    }
    let status = match saved {
        Some(i) => {
            let p = &records[i];
            if !p.completed && p.position_ms > 0 {
                progress_text(Some(SavedProgress {
                    completed: p.completed,
                    position_ms: p.position_ms,
                    resume_ms: p.resume_ms,
                }))
            } else if series && (episode.is_some() || p.completed) {
                string_of(chars_of("Play next episode").as_slice())
            } else if series {
                string_of(chars_of("Continue series").as_slice())
            } else {
                string_of(chars_of("Play movie").as_slice())
            }
        },
        None => if series && episode.is_some() {
            string_of(chars_of("Play next episode").as_slice())
        } else if series {
            string_of(chars_of("Continue series").as_slice())
        } else {
            string_of(chars_of("Play movie").as_slice())
        },
    };
    let t = chars_of(meta.content_type.as_str());
    let kind = if same_chars(t.as_slice(), "movie") {
        string_of(chars_of("Movie").as_slice())
    } else if same_chars(t.as_slice(), "series") {
        string_of(chars_of("Series").as_slice())
    } else {
        string_of(t.as_slice())
    };
    let mut label = chars_of(status.as_str());
    extend_chars(&mut label, chars_of(" · ").as_slice());
    extend_chars(&mut label, chars_of(meta.name.as_str()).as_slice());
    extend_chars(&mut label, chars_of(" · ").as_slice());
    extend_chars(&mut label, chars_of(caption.as_str()).as_slice());
    let thumb = if episode.is_some() {
        copy_option(thumbnail)
    } else {
        None
    };
    let image = match thumb {
        Some(x) => Some(x),
        None => match copy_option(&meta.background) {
            Some(x) => Some(x),
            None => copy_option(&meta.poster),
        },
    };
    Some(ContinueCard {
        video,
        caption,
        episode_shown: episode.is_some(),
        status,
        kind,
        label: string_of(label.as_slice()),
        saved,
        image,
        needs_episodes: series && !meta.episodes_listed,
    })
}

/// What resuming a title starts with.
#[derive(Debug, PartialEq, Eq)]
pub enum ResumeStep {
    /// Resume this video.
    Play(String),
    /// Find the episode to continue with, loading the series' episodes first when needed.
    FindEpisode,
}

/// How resuming a title begins: a movie-like title resumes its default video when its
/// metadata names one (a non-empty id), else its own `id` when it lists no videos; a series, or a title that
/// lists videos, first looks for the episode to continue with.
pub fn resume_step(id: &str, content_type: &str, default_video: &Option<String>, videos_listed: bool) -> (r: ResumeStep)
    ensures
        content_type@ != "series"@ && (default_video matches Some(d) && d@.len() > 0) ==> (r matches ResumeStep::Play(v)
            && v@ == default_video->0@),
        content_type@ != "series"@ && !(default_video matches Some(d) && d@.len() > 0) && !videos_listed
            ==> (r matches ResumeStep::Play(v) && v@ == id@),
        content_type@ == "series"@ || (!(default_video matches Some(d) && d@.len() > 0) && videos_listed)
            ==> r == ResumeStep::FindEpisode,
{
    let series = same_chars(chars_of(content_type).as_slice(), "series");
    if !series {
        match default_video {
            Some(d) => {
                if d.as_str().unicode_len() > 0 {
                    return ResumeStep::Play(copy_text(d));
                }
            },
            None => {},
        }
        if !videos_listed {
            return ResumeStep::Play(string_of(chars_of(id).as_slice()));
        }
    }
    ResumeStep::FindEpisode
}

/// A Trakt list as the list selector names it: its name and how many titles it holds.
pub open spec fn list_choice(name: Seq<char>, count: nat) -> Seq<char> {
    name + " ("@ + decimal(count) + ")"@
}

/// The Trakt lists to choose from: the watchlist, the watched history, then the user's own
/// lists in order.
pub fn trakt_list_choices(watchlist: usize, history: usize, lists: &Vec<(String, usize)>) -> (r: Vec<String>)
    ensures
        r@.len() == lists@.len() + 2,
        r@[0]@ == list_choice("Watchlist"@, watchlist as nat),
        r@[1]@ == list_choice("Watched history"@, history as nat),
        forall|i: int| 0 <= i < lists@.len() ==> (#[trigger] r@[i + 2])@ == list_choice(lists@[i].0@, lists@[i].1 as nat),
{
    let mut r: Vec<String> = Vec::new();
    r.push(choice_text("Watchlist", watchlist));
    r.push(choice_text("Watched history", history));
    let mut i: usize = 0;
    while i < lists.len()
        invariant
            i <= lists@.len(),
            r@.len() == i + 2,
            r@[0]@ == list_choice("Watchlist"@, watchlist as nat),
            r@[1]@ == list_choice("Watched history"@, history as nat),
            forall|j: int| 0 <= j < i ==> (#[trigger] r@[j + 2])@ == list_choice(lists@[j].0@, lists@[j].1 as nat),
        decreases lists@.len() - i,
    {
        r.push(choice_text(lists[i].0.as_str(), lists[i].1));
        i = i + 1;
    }
    r
}

fn choice_text(name: &str, count: usize) -> (r: String)
    ensures
        r@ == list_choice(name@, count as nat),
{
    let mut out = chars_of(name);
    extend_chars(&mut out, chars_of(" (").as_slice());
    extend_chars(&mut out, decimal_chars(count as u64).as_slice());
    extend_chars(&mut out, chars_of(")").as_slice());
    string_of(out.as_slice())
}

/// How many Trakt titles one press of "Show more" adds.
pub const TRAKT_BATCH: usize = 30;

/// The next batch of Trakt titles after `loaded` of `total`: the positions to add, and
/// whether "Show more" stays visible.
pub fn trakt_batch(loaded: usize, total: usize) -> (r: (usize, usize, bool))
    requires
        loaded <= total,
    ensures
        r.0 == loaded,
        r.1 == if loaded + TRAKT_BATCH < total { loaded + TRAKT_BATCH } else { total as int },
        r.2 == (r.1 < total),
{
    let end = if total - loaded > TRAKT_BATCH { loaded + TRAKT_BATCH } else { total };
    (loaded, end, end < total)
}

/// A Trakt title needs its artwork looked up when it carries no poster.
pub fn needs_artwork(poster: Option<&str>) -> (b: bool)
    ensures
        b == match poster {
            Some(p) => p@.len() == 0,
            None => true,
        },
{
    match poster {
        Some(p) => p.unicode_len() == 0,
        None => true,
    }
}

/// The episode line under a Trakt card, when the title is an episode.
pub fn episode_line(season: Option<u64>, episode: Option<u64>) -> (r: Option<String>)
    ensures
        match (season, episode) {
            (Some(s), Some(e)) => r matches Some(t) && t@ == "S"@ + decimal(s as nat) + " · E"@ + decimal(e as nat),
            _ => r is None,
        },
{
    match (season, episode) {
        (Some(s), Some(e)) => {
            let mut out = chars_of("S");
            extend_chars(&mut out, decimal_chars(s).as_slice());
            extend_chars(&mut out, chars_of(" · E").as_slice());
            extend_chars(&mut out, decimal_chars(e).as_slice());
            Some(string_of(out.as_slice()))
        },
        _ => None,
    }
}

proof fn lemma_push_contains(s: Seq<(Seq<char>, Seq<char>, Seq<char>)>, x: (Seq<char>, Seq<char>, Seq<char>), y: (Seq<char>, Seq<char>, Seq<char>))
    ensures
        s.push(x).contains(y) <==> (s.contains(y) || x == y),
{
    if s.contains(y) {
        let i = choose|i: int| 0 <= i < s.len() && s[i] == y;
        assert(s.push(x)[i] == y);
    }
    if x == y {
        assert(s.push(x)[s.len() as int] == y);
    }
    if s.push(x).contains(y) {
        let i = choose|i: int| 0 <= i < s.len() + 1 && s.push(x)[i] == y;
        if i < s.len() {
            assert(s[i] == y);
        }
    }
}

proof fn lemma_first_occurrences_unique(ks: Seq<(Seq<char>, Seq<char>, Seq<char>)>)
    ensures
        first_occurrences(ks).no_duplicates(),
        forall|k: (Seq<char>, Seq<char>, Seq<char>)| #[trigger] first_occurrences(ks).contains(k) <==> ks.contains(k),
    decreases ks.len(),
{
    if ks.len() > 0 {
        let init = ks.drop_last();
        let last = ks.last();
        lemma_first_occurrences_unique(init);
        let f = first_occurrences(init);
        assert(ks =~= init.push(last));
        assert forall|k: (Seq<char>, Seq<char>, Seq<char>)| #[trigger] first_occurrences(ks).contains(k) <==> ks.contains(k) by {
            lemma_push_contains(init, last, k);
            lemma_push_contains(f, last, k);
            assert(f.contains(k) <==> init.contains(k));
            if f.contains(last) {
                assert(init.contains(last));
            }
        }
        if !f.contains(last) {
            let g = f.push(last);
            assert forall|a: int, b: int| 0 <= a < g.len() && 0 <= b < g.len() && a != b implies g[a] != g[b] by {
                if a < f.len() && b < f.len() {
                    assert(g[a] == f[a] && g[b] == f[b]);
                } else if a < f.len() {
                    assert(g[a] == f[a]);
                    assert(f.contains(f[a]));
                } else if b < f.len() {
                    assert(g[b] == f[b]);
                    assert(f.contains(f[b]));
                }
            }
        }
    }
}

/// A row of saved titles shows each title once, at most thirty of them, each one a title of
/// the row's keys.
pub proof fn lemma_rails_show_titles_once(ks: Seq<(Seq<char>, Seq<char>, Seq<char>)>)
    ensures
        rail_of(ks).no_duplicates(),
        rail_of(ks).len() <= RAIL_LIMIT,
        forall|i: int| 0 <= i < rail_of(ks).len() ==> ks.contains(#[trigger] rail_of(ks)[i]),
{
    lemma_first_occurrences_unique(ks);
    let f = first_occurrences(ks);
    let r = rail_of(ks);
    assert forall|i: int| 0 <= i < r.len() implies ks.contains(#[trigger] r[i]) by {
        assert(r[i] == f[i]);
        assert(f.contains(f[i]));
    }
}

/// Some record of the title with key `k` belongs in Continue watching.
pub open spec fn has_continuing_record(records: Seq<WatchRecord>, hidden: Seq<(Seq<char>, Seq<char>, Seq<char>)>, k: (Seq<char>, Seq<char>, Seq<char>)) -> bool {
    exists|j: int| 0 <= j < records.len() && continuing(#[trigger] records[j], hidden) && key_view(records[j].key) == k
}

/// Continue watching lists only titles with progress that were not removed, and movies only
/// while unfinished.
pub proof fn lemma_continue_lists_unfinished_titles(records: Seq<WatchRecord>, hidden: Seq<(Seq<char>, Seq<char>, Seq<char>)>)
    ensures
        forall|i: int| 0 <= i < continue_order(records, hidden).len()
            ==> has_continuing_record(records, hidden, #[trigger] continue_order(records, hidden)[i]),
        forall|i: int| 0 <= i < continue_order(records, hidden).len() ==> !hidden.contains(#[trigger] continue_order(records, hidden)[i]),
    decreases records.len(),
{
    if records.len() > 0 {
        let init = records.drop_last();
        lemma_continue_lists_unfinished_titles(init, hidden);
        let rest = continue_order(init, hidden);
        let all = continue_order(records, hidden);
        assert forall|i: int| 0 <= i < all.len() implies has_continuing_record(records, hidden, #[trigger] all[i]) by {
            if continuing(records.last(), hidden) && i == 0 {
                assert(all[0] == key_view(records.last().key));
                assert(records[records.len() - 1] == records.last());
                assert(continuing(records[records.len() - 1], hidden));
            } else {
                let r = if continuing(records.last(), hidden) { i - 1 } else { i };
                assert(all[i] == rest[r]);
                assert(has_continuing_record(init, hidden, rest[r]));
                let j = choose|j: int| 0 <= j < init.len() && continuing(#[trigger] init[j], hidden) && key_view(init[j].key) == rest[r];
                assert(records[j] == init[j]);
                assert(continuing(records[j], hidden));
            }
        }
        assert forall|i: int| 0 <= i < all.len() implies !hidden.contains(#[trigger] all[i]) by {
            if continuing(records.last(), hidden) && i > 0 {
                assert(all[i] == rest[i - 1]);
            }
        }
    }
}

/// Every title with unfinished progress appears in Continue watching unless it was removed,
/// whatever its type; so does a series whose watched episode was completed, since it goes on
/// with the next one.
pub proof fn lemma_continue_lists_every_unfinished_title(records: Seq<WatchRecord>, hidden: Seq<(Seq<char>, Seq<char>, Seq<char>)>)
    ensures
        forall|j: int| 0 <= j < records.len() && (#[trigger] records[j]).position_ms > 0
            && !hidden.contains(key_view(records[j].key))
            && (!records[j].completed || records[j].key.content_type@ == "series"@)
            ==> continue_order(records, hidden).contains(key_view(records[j].key)),
    decreases records.len(),
{
    if records.len() > 0 {
        let init = records.drop_last();
        lemma_continue_lists_every_unfinished_title(init, hidden);
        let rest = continue_order(init, hidden);
        let all = continue_order(records, hidden);
        assert forall|j: int| 0 <= j < records.len() && (#[trigger] records[j]).position_ms > 0
            && !hidden.contains(key_view(records[j].key))
            && (!records[j].completed || records[j].key.content_type@ == "series"@)
            implies all.contains(key_view(records[j].key)) by {
            if j == records.len() - 1 {
                assert(continuing(records.last(), hidden));
                assert(all[0] == key_view(records[j].key));
            } else {
                assert(records[j] == init[j]);
                assert(rest.contains(key_view(init[j].key)));
                let k = choose|k: int| 0 <= k < rest.len() && rest[k] == key_view(init[j].key);
                if continuing(records.last(), hidden) {
                    assert(all[k + 1] == rest[k]);
                } else {
                    assert(all[k] == rest[k]);
                }
            }
        }
    }
}

/// Nothing else appears in Continue watching: each listed title has a record with progress,
/// unfinished or of a series, and was not removed.
pub proof fn lemma_continue_lists_only_progress(records: Seq<WatchRecord>, hidden: Seq<(Seq<char>, Seq<char>, Seq<char>)>, i: int)
    requires
        0 <= i < continue_order(records, hidden).len(),
    ensures
        exists|j: int| #![trigger records[j]] 0 <= j < records.len()
            && key_view(records[j].key) == continue_order(records, hidden)[i]
            && records[j].position_ms > 0 && !hidden.contains(key_view(records[j].key))
            && (!records[j].completed || records[j].key.content_type@ == "series"@),
{
    lemma_continue_lists_unfinished_titles(records, hidden);
    assert(has_continuing_record(records, hidden, continue_order(records, hidden)[i]));
    let j = choose|j: int| 0 <= j < records.len() && continuing(#[trigger] records[j], hidden)
        && key_view(records[j].key) == continue_order(records, hidden)[i];
    assert(continuing(records[j], hidden));
}

/// The small line above a hero's title.
pub fn hero_eyebrow(content_type: &str, detail: bool) -> (r: &'static str)
    ensures
        r@ == if content_type@ == "series"@ { "SERIES"@ } else if detail { "MOVIE"@ } else { "FEATURED FILM"@ },
{
    if same_chars(chars_of(content_type).as_slice(), "series") {
        "SERIES"
    } else if detail {
        "MOVIE"
    } else {
        "FEATURED FILM"
    }
}

/// Some record of the title is of this video, unfinished, with progress.
pub open spec fn resumable(records: Seq<WatchRecord>, key: (Seq<char>, Seq<char>, Seq<char>), video: Seq<char>) -> bool {
    exists|i: int| 0 <= i < records.len() && key_view(#[trigger] records[i].key) == key && records[i].video_id@ == video
        && !records[i].completed && records[i].position_ms > 0
}

/// Some record of the title is completed.
pub open spec fn watched_before(records: Seq<WatchRecord>, key: (Seq<char>, Seq<char>, Seq<char>)) -> bool {
    exists|i: int| 0 <= i < records.len() && key_view(#[trigger] records[i].key) == key && records[i].completed
}

/// The label of a hero's play button: resuming or playing the recommended episode (numbers
/// default to one), else "Watch again" for a listed series watched before, else "▶  Play".
pub open spec fn play_label_of(recommended: Option<Episode>, videos_listed: bool, records: Option<Seq<WatchRecord>>,
    key: (Seq<char>, Seq<char>, Seq<char>)) -> Seq<char> {
    match recommended {
        Some(v) => {
            let resume = match records {
                Some(rs) => resumable(rs, key, v.id@),
                None => false,
            };
            (if resume { "Resume"@ } else { "Play"@ }) + " S"@ + decimal(match v.season { Some(n) => n as nat, None => 1 })
                + " · E"@ + decimal(match v.episode { Some(n) => n as nat, None => 1 })
        },
        None => if videos_listed && match records {
            Some(rs) => watched_before(rs, key),
            None => false,
        } {
            "Watch again"@
        } else {
            "▶  Play"@
        },
    }
}

/// The label of a hero's play button.
pub fn hero_play_label(recommended: Option<&Episode>, videos_listed: bool, records: Option<&Vec<WatchRecord>>, key: &ItemKey)
    -> (r: String)
    ensures
        r@ == play_label_of(match recommended {
            Some(e) => Some(*e),
            None => None,
        }, videos_listed, match records {
            Some(rs) => Some(rs@),
            None => None,
        }, key_view(*key)),
{
    match recommended {
        Some(v) => {
            let mut resume = false;
            match records {
                Some(rs) => {
                    let mut i: usize = 0;
                    while i < rs.len()
                        invariant
                            i <= rs@.len(),
                            resume == exists|j: int| 0 <= j < i && key_view(#[trigger] rs@[j].key) == key_view(*key)
                                && rs@[j].video_id@ == v.id@ && !rs@[j].completed && rs@[j].position_ms > 0,
                        decreases rs@.len() - i,
                    {
                        let rec = &rs[i];
                        if same_key(&rec.key, key) && rec.video_id == v.id && !rec.completed && rec.position_ms > 0 {
                            resume = true;
                        }
                        i = i + 1;
                    }
                },
                None => {},
            }
            let mut out = chars_of(if resume { "Resume" } else { "Play" });
            extend_chars(&mut out, chars_of(" S").as_slice());
            extend_chars(&mut out, decimal_chars(match v.season { Some(n) => n, None => 1 }).as_slice());
            extend_chars(&mut out, chars_of(" · E").as_slice());
            extend_chars(&mut out, decimal_chars(match v.episode { Some(n) => n, None => 1 }).as_slice());
            string_of(out.as_slice())
        },
        None => {
            let mut again = false;
            if videos_listed {
                match records {
                    Some(rs) => {
                        let mut i: usize = 0;
                        while i < rs.len()
                            invariant
                                i <= rs@.len(),
                                again == exists|j: int| 0 <= j < i && key_view(#[trigger] rs@[j].key) == key_view(*key) && rs@[j].completed,
                            decreases rs@.len() - i,
                        {
                            if same_key(&rs[i].key, key) && rs[i].completed {
                                again = true;
                            }
                            i = i + 1;
                        }
                    },
                    None => {},
                }
            }
            if again {
                string_of(chars_of("Watch again").as_slice())
            } else {
                string_of(chars_of("▶  Play").as_slice())
            }
        },
    }
}

} // verus!
