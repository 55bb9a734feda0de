//! How episodes and their viewing progress are described.
use vstd::prelude::*;
use crate::controls::two_digits;
use crate::text::{chars_of, decimal, decimal_chars, extend_chars, same_chars, string_of};

verus! {

/// An episode of a series as the episode lists need it.
#[derive(Debug)]
pub struct Episode {
    pub id: String,
    pub title: Option<String>,
    pub season: Option<u64>,
    pub episode: Option<u64>,
}

/// `S1 · E2 · Title`, or `Episode · Title` without season and episode numbers; the id
/// stands in for a missing title.
pub open spec fn episode_title_of(v: Episode) -> Seq<char> {
    let number = match (v.season, v.episode) {
        (Some(s), Some(e)) => "S"@ + decimal(s as nat) + " · E"@ + decimal(e as nat),
        _ => "Episode"@,
    };
    number + " · "@ + match v.title {
        Some(t) => t@,
        None => v.id@,
    }
}

/// The title of an episode in lists and tooltips.
pub fn episode_title(v: &Episode) -> (r: String)
    ensures
        r@ == episode_title_of(*v),
{
    let mut out = match (v.season, v.episode) {
        (Some(s), Some(e)) => {
            let mut n = chars_of("S");
            extend_chars(&mut n, decimal_chars(s).as_slice());
            extend_chars(&mut n, chars_of(" · E").as_slice());
            extend_chars(&mut n, decimal_chars(e).as_slice());
            n
        },
        _ => chars_of("Episode"),
    };
    extend_chars(&mut out, chars_of(" · ").as_slice());
    match &v.title {
        Some(t) => extend_chars(&mut out, chars_of(t.as_str()).as_slice()),
        None => extend_chars(&mut out, chars_of(v.id.as_str()).as_slice()),
    }
    string_of(out.as_slice())
}

/// Saved progress of an episode: whether it was completed, where playback stopped, and where
/// it would resume (zero when it restarts from the beginning).
#[derive(Clone, Copy, Debug)]
pub struct SavedProgress {
    pub completed: bool,
    pub position_ms: u64,
    pub resume_ms: u64,
}

/// The progress line of an episode.
pub open spec fn progress_text_of(p: Option<SavedProgress>) -> Seq<char> {
    match p {
        Some(p) => if p.completed {
            "Watched"@
        } else if p.position_ms > 0 && p.resume_ms == 0 {
            "Play from beginning"@
        } else if p.position_ms > 0 {
            "Resume at "@ + decimal((p.position_ms / 60000) as nat) + ":"@ + two_digits(((p.position_ms / 1000) % 60) as nat)
        } else {
            "Not watched"@
        },
        None => "Not watched"@,
    }
}

/// Describe an episode's saved progress.
pub fn progress_text(p: Option<SavedProgress>) -> (r: String)
    ensures
        r@ == progress_text_of(p),
{
    match p {
        Some(p) => {
            if p.completed {
                string_of(chars_of("Watched").as_slice())
            } else if p.position_ms > 0 && p.resume_ms == 0 {
                string_of(chars_of("Play from beginning").as_slice())
            } else if p.position_ms > 0 {
                let mut out = chars_of("Resume at ");
                extend_chars(&mut out, decimal_chars(p.position_ms / 60000).as_slice());
                extend_chars(&mut out, chars_of(":").as_slice());
                let seconds = p.position_ms / 1000 % 60;
                if seconds < 10 {
                    extend_chars(&mut out, chars_of("0").as_slice());
                }
                extend_chars(&mut out, decimal_chars(seconds).as_slice());
                proof {
                    if seconds < 10 {
                        assert(two_digits(seconds as nat) == seq!['0'] + decimal(seconds as nat));
                        assert("0"@ =~= seq!['0']) by {
                            reveal_strlit("0");
                        }
                    }
                }
                string_of(out.as_slice())
            } else {
                string_of(chars_of("Not watched").as_slice())
            }
        },
        None => string_of(chars_of("Not watched").as_slice()),
    }
}

/// A release date as ISO 8601 text: a bare `YYYY-MM-DD` (ten bytes) becomes midnight UTC.
pub open spec fn release_timestamp_of(value: Seq<char>) -> Seq<char> {
    if vstd::utf8::encode_utf8(value).len() == 10 {
        value + "T00:00:00Z"@
    } else {
        value
    }
}

/// The text of a reported release date to parse as an instant.
pub fn release_timestamp(value: &str) -> (r: String)
    requires
        vstd::utf8::encode_utf8(value@).len() <= usize::MAX,
    ensures
        r@ == release_timestamp_of(value@),
{
    let mut out = chars_of(value);
    if value.len() == 10 {
        extend_chars(&mut out, chars_of("T00:00:00Z").as_slice());
    }
    string_of(out.as_slice())
}

/// `a` sorts before `b` as optional numbers order: no number first, then ascending.
pub open spec fn number_before(a: Option<u64>, b: Option<u64>) -> bool {
    match (a, b) {
        (None, Some(_)) => true,
        (Some(x), Some(y)) => x < y,
        _ => false,
    }
}

pub(crate) proof fn lemma_number_order(a: Option<u64>, b: Option<u64>, c: Option<u64>)
    ensures
        a != b ==> number_before(a, b) || number_before(b, a),
        !(number_before(a, b) && number_before(b, a)),
        !number_before(a, a),
        number_before(a, b) && number_before(b, c) ==> number_before(a, c),
{
}

fn same_number(a: Option<u64>, b: Option<u64>) -> (r: bool)
    ensures
        r == (a == b),
{
    match (a, b) {
        (None, None) => true,
        (Some(x), Some(y)) => x == y,
        _ => false,
    }
}

fn number_precedes(a: Option<u64>, b: Option<u64>) -> (r: bool)
    ensures
        r == number_before(a, b),
{
    match (a, b) {
        (None, Some(_)) => true,
        (Some(x), Some(y)) => x < y,
        _ => false,
    }
}

/// Some video belongs to season `s`.
pub open spec fn has_season(videos: Seq<Episode>, s: Option<u64>) -> bool {
    exists|i: int| 0 <= i < videos.len() && #[trigger] videos[i].season == s
}

/// The seasons of a series' videos, each once, in order; videos without a season form a
/// group of their own, first.
pub fn seasons(videos: &Vec<Episode>) -> (r: Vec<Option<u64>>)
    ensures
        forall|i: int, j: int| 0 <= i < j < r@.len() ==> number_before(#[trigger] r@[i], #[trigger] r@[j]),
        forall|s: Option<u64>| r@.contains(s) <==> has_season(videos@, s),
{
    let mut r: Vec<Option<u64>> = Vec::new();
    let mut i: usize = 0;
    while i < videos.len()
        invariant
            i <= videos@.len(),
            forall|a: int, b: int| 0 <= a < b < r@.len() ==> number_before(#[trigger] r@[a], #[trigger] r@[b]),
            forall|s: Option<u64>| r@.contains(s) <==> has_season(videos@.subrange(0, i as int), s),
        decreases videos@.len() - i,
    {
        let s = videos[i].season;
        let ghost next = videos@.subrange(0, i + 1);
        assert forall|t: Option<u64>| has_season(next, t) <==> (has_season(videos@.subrange(0, i as int), t) || t == s) by {
            if has_season(next, t) {
                let q = choose|q: int| 0 <= q < next.len() && #[trigger] next[q].season == t;
                if q < i {
                    assert(videos@.subrange(0, i as int)[q] == next[q]);
                }
            }
            if has_season(videos@.subrange(0, i as int), t) {
                let q = choose|q: int| 0 <= q < i && #[trigger] videos@.subrange(0, i as int)[q].season == t;
                assert(next[q] == videos@.subrange(0, i as int)[q]);
            }
            if t == s {
                assert(next[i as int].season == s);
            }
        }
        let mut p: usize = 0;
        while p < r.len() && number_precedes(r[p], s)
            invariant
                p <= r@.len(),
                forall|q: int| 0 <= q < p ==> number_before(#[trigger] r@[q], s),
            decreases r@.len() - p,
        {
            p = p + 1;
        }
        if p < r.len() && same_number(r[p], s) {
            assert(r@[p as int] == s);
            assert(r@.contains(s));
            assert forall|t: Option<u64>| r@.contains(t) <==> has_season(next, t) by {
                assert(r@.contains(t) <==> has_season(videos@.subrange(0, i as int), t));
                assert(has_season(next, t) <==> (has_season(videos@.subrange(0, i as int), t) || t == s));
            }
        } else {
            let ghost before = r@;
            proof {
                assert forall|q: int| p <= q < before.len() implies number_before(s, #[trigger] before[q]) by {
                    lemma_number_order(before[p as int], s, s);
                    if q > p {
                        lemma_number_order(s, before[p as int], before[q]);
                    }
                }
            }
            r.insert(p, s);
            assert(r@ == before.insert(p as int, s));
            assert forall|a: int, b: int| 0 <= a < b < r@.len() implies number_before(#[trigger] r@[a], #[trigger] r@[b]) by {
                if b < p {
                } else if a < p && b == p {
                } else if a < p && b > p {
                    assert(r@[b] == before[b - 1]);
                    lemma_number_order(r@[a], s, r@[b]);
                } else if a == p {
                    assert(r@[b] == before[b - 1]);
                } else {
                    assert(r@[a] == before[a - 1] && r@[b] == before[b - 1]);
                }
            }
            assert forall|t: Option<u64>| r@.contains(t) <==> (before.contains(t) || t == s) by {
                if r@.contains(t) {
                    let q = choose|q: int| 0 <= q < r@.len() && r@[q] == t;
                    if q < p {
                        assert(before[q] == t);
                    } else if q > p {
                        assert(before[q - 1] == t);
                    }
                }
                if before.contains(t) {
                    let q = choose|q: int| 0 <= q < before.len() && before[q] == t;
                    if q < p {
                        assert(r@[q] == t);
                    } else {
                        assert(r@[q + 1] == t);
                    }
                }
                if t == s {
                    assert(r@[p as int] == s);
                }
            }
            assert forall|t: Option<u64>| r@.contains(t) <==> has_season(next, t) by {
                assert(r@.contains(t) <==> (before.contains(t) || t == s));
                assert(has_season(next, t) <==> (has_season(videos@.subrange(0, i as int), t) || t == s));
            }
        }
        i = i + 1;
    }
    assert(videos@.subrange(0, videos@.len() as int) =~= videos@);
    r
}

/// The name a season is listed under.
pub open spec fn season_name_of(s: Option<u64>) -> Seq<char> {
    match s {
        Some(n) => if n == 0 {
            "Specials"@
        } else {
            "Season "@ + decimal(n as nat)
        },
        None => "Episodes"@,
    }
}

/// The name of a season in the season selector.
pub fn season_name(s: Option<u64>) -> (r: String)
    ensures
        r@ == season_name_of(s),
{
    match s {
        Some(n) => if n == 0 {
            string_of(chars_of("Specials").as_slice())
        } else {
            let mut out = chars_of("Season ");
            extend_chars(&mut out, decimal_chars(n).as_slice());
            string_of(out.as_slice())
        },
        None => string_of(chars_of("Episodes").as_slice()),
    }
}

/// The season of the first video with this id; none when no video has it.
pub open spec fn season_of_video(videos: Seq<Episode>, id: Seq<char>) -> Option<u64>
    decreases videos.len(),
{
    if videos.len() == 0 {
        None
    } else if videos[0].id@ == id {
        videos[0].season
    } else {
        season_of_video(videos.drop_first(), id)
    }
}

/// `k` is the first position of `x` in `s`.
pub open spec fn first_at(s: Seq<Option<u64>>, x: Option<u64>, k: int) -> bool {
    0 <= k < s.len() && s[k] == x && forall|j: int| 0 <= j < k ==> s[j] != x
}

fn position_of(s: &Vec<Option<u64>>, x: Option<u64>) -> (r: Option<usize>)
    ensures
        match r {
            Some(k) => first_at(s@, x, k as int),
            None => !s@.contains(x),
        },
{
    let mut k: usize = 0;
    while k < s.len()
        invariant
            k <= s@.len(),
            forall|j: int| 0 <= j < k ==> s@[j] != x,
        decreases s@.len() - k,
    {
        if same_number(s[k], x) {
            return Some(k);
        }
        k = k + 1;
    }
    None
}

fn selected_season(videos: &Vec<Episode>, id: &str) -> (r: Option<u64>)
    ensures
        r == season_of_video(videos@, id@),
{
    let mut i: usize = 0;
    assert(videos@.skip(0) =~= videos@);
    while i < videos.len()
        invariant
            i <= videos@.len(),
            season_of_video(videos@, id@) == season_of_video(videos@.skip(i as int), id@),
        decreases videos@.len() - i,
    {
        assert(videos@.skip(i as int)[0] == videos@[i as int]);
        assert(videos@.skip(i as int).drop_first() =~= videos@.skip(i + 1));
        if same_chars(chars_of(videos[i].id.as_str()).as_slice(), id) {
            return videos[i].season;
        }
        i = i + 1;
    }
    assert(videos@.skip(i as int) =~= Seq::<Episode>::empty());
    None
}

/// The season the selector opens on: the season of the selected video, else season one,
/// else the first.
pub fn initial_season(videos: &Vec<Episode>, seasons: &Vec<Option<u64>>, selected: Option<&str>) -> (r: usize)
    ensures
        ({
            let current = match selected {
                Some(id) => season_of_video(videos@, id@),
                None => None,
            };
            &&& seasons@.contains(current) ==> first_at(seasons@, current, r as int)
            &&& !seasons@.contains(current) && seasons@.contains(Some(1u64)) ==> first_at(seasons@, Some(1u64), r as int)
            &&& !seasons@.contains(current) && !seasons@.contains(Some(1u64)) ==> r == 0
        }),
{
    let current = match selected {
        Some(id) => selected_season(videos, id),
        None => None,
    };
    match position_of(seasons, current) {
        Some(k) => k,
        None => match position_of(seasons, Some(1)) {
            Some(k) => k,
            None => 0,
        },
    }
}

/// Video `a` is listed before video `b` of the same season: by episode number, no number
/// first, and in the order given when the numbers are equal.
pub open spec fn listed_before(videos: Seq<Episode>, a: int, b: int) -> bool {
    number_before(videos[a].episode, videos[b].episode) || (videos[a].episode == videos[b].episode && a < b)
}

proof fn lemma_listing_order(videos: Seq<Episode>, a: int, b: int, c: int)
    ensures
        a != b ==> listed_before(videos, a, b) || listed_before(videos, b, a),
        !listed_before(videos, a, a),
        listed_before(videos, a, b) && listed_before(videos, b, c) ==> listed_before(videos, a, c),
{
    lemma_number_order(videos[a].episode, videos[b].episode, videos[c].episode);
}

/// Seasons and episodes are listed in numeric order: numbers ascend as numbers do, and what
/// has no number comes first. So a season's episode listed before another has no larger
/// number, and the seasons listed from numbered videos ascend.
pub proof fn lemma_listing_follows_numbers(videos: Seq<Episode>, a: int, b: int)
    ensures
        forall|x: u64, y: u64| #[trigger] number_before(Some(x), Some(y)) <==> x < y,
        forall|y: u64| #[trigger] number_before(None, Some(y)),
        forall|x: u64| !#[trigger] number_before(Some(x), None),
        0 <= a < videos.len() && 0 <= b < videos.len() && listed_before(videos, a, b)
            && videos[a].episode is Some && videos[b].episode is Some
            ==> videos[a].episode->0 <= videos[b].episode->0,
{
}

/// The videos of one season, by their positions in the list, ordered by episode number.
pub fn season_episodes(videos: &Vec<Episode>, season: Option<u64>) -> (r: Vec<usize>)
    ensures
        forall|i: int| 0 <= i < r@.len() ==> (#[trigger] r@[i]) < videos@.len() && videos@[r@[i] as int].season == season,
        forall|k: int| 0 <= k < videos@.len() && #[trigger] videos@[k].season == season ==> r@.contains(k as usize),
        forall|i: int, j: int| 0 <= i < j < r@.len() ==> listed_before(videos@, #[trigger] r@[i] as int, #[trigger] r@[j] as int),
{
    let mut r: Vec<usize> = Vec::new();
    let mut k: usize = 0;
    while k < videos.len()
        invariant
            k <= videos@.len(),
            forall|i: int| 0 <= i < r@.len() ==> (#[trigger] r@[i]) < k && videos@[r@[i] as int].season == season,
            forall|q: int| 0 <= q < k && #[trigger] videos@[q].season == season ==> r@.contains(q as usize),
            forall|i: int, j: int| 0 <= i < j < r@.len() ==> listed_before(videos@, #[trigger] r@[i] as int, #[trigger] r@[j] as int),
        decreases videos@.len() - k,
    {
        if same_number(videos[k].season, season) {
            let mut p: usize = 0;
            while p < r.len() && (number_precedes(videos[r[p]].episode, videos[k].episode)
                || (same_number(videos[r[p]].episode, videos[k].episode)))
                invariant
                    k < videos@.len(),
                    p <= r@.len(),
                    forall|i: int| 0 <= i < r@.len() ==> (#[trigger] r@[i]) < k,
                    forall|q: int| 0 <= q < p ==> listed_before(videos@, #[trigger] r@[q] as int, k as int),
                decreases r@.len() - p,
            {
                p = p + 1;
            }
            let ghost before = r@;
            proof {
                assert forall|q: int| p <= q < before.len() implies listed_before(videos@, k as int, #[trigger] before[q] as int) by {
                    lemma_listing_order(videos@, before[p as int] as int, k as int, k as int);
                    if q > p {
                        lemma_listing_order(videos@, k as int, before[p as int] as int, before[q] as int);
                    }
                }
            }
            r.insert(p, k);
            assert(r@ == before.insert(p as int, k));
            assert forall|a: int, b: int| 0 <= a < b < r@.len() implies listed_before(videos@, #[trigger] r@[a] as int, #[trigger] r@[b] as int) by {
                if b < p {
                } else if a < p && b == p {
                } else if a < p && b > p {
                    assert(r@[b] == before[b - 1]);
                    lemma_listing_order(videos@, r@[a] as int, k as int, r@[b] as int);
                } else if a == p {
                    assert(r@[b] == before[b - 1]);
                } else {
                    assert(r@[a] == before[a - 1] && r@[b] == before[b - 1]);
                }
            }
            assert forall|i: int| 0 <= i < r@.len() implies (#[trigger] r@[i]) < k + 1 && videos@[r@[i] as int].season == season by {
                if i < p {
                    assert(r@[i] == before[i]);
                } else if i > p {
                    assert(r@[i] == before[i - 1]);
                }
            }
            assert forall|q: int| 0 <= q < k + 1 && #[trigger] videos@[q].season == season implies r@.contains(q as usize) by {
                if q < k {
                    let i = choose|i: int| 0 <= i < before.len() && before[i] == q as usize;
                    if i < p {
                        assert(r@[i] == q as usize);
                    } else {
                        assert(r@[i + 1] == q as usize);
                    }
                } else {
                    assert(r@[p as int] == k);
                }
            }
        }
        k = k + 1;
    }
    r
}

/// The status line of an episode row.
pub fn episode_status(available: bool, saved: Option<SavedProgress>) -> (r: String)
    ensures
        r@ == if !available { "Not yet released"@ } else { progress_text_of(saved) },
{
    if !available {
        string_of(chars_of("Not yet released").as_slice())
    } else {
        progress_text(saved)
    }
}

/// The icon at the end of an episode row: playing now, watched, or open.
pub fn episode_icon(playing: bool, watched: bool) -> (r: &'static str)
    ensures
        r@ == if playing {
            "media-playback-start-symbolic"@
        } else if watched {
            "object-select-symbolic"@
        } else {
            "go-next-symbolic"@
        },
{
    if playing {
        "media-playback-start-symbolic"
    } else if watched {
        "object-select-symbolic"
    } else {
        "go-next-symbolic"
    }
}

} // verus!
