//! Presentation decisions for video sources: addon filter tabs and source card text.
use vstd::prelude::*;
use crate::text::{
    chars_of, decimal, equal_chars, decimal_chars, extend_chars, join_chars, joined, lemma_split_nonempty, same_chars,
    split_chars, split_on, string_of, trim, trimmed, views,
};
use crate::tracks::{keep_non_blank, non_blank};
use crate::player::{fingerprint, source_fingerprint};
use crate::episodes::{episode_title, episode_title_of, Episode};

verus! {

/// One addon's streams as the filter counts them: installation id, addon name, stream count.
pub open spec fn group_view(g: (String, String, usize)) -> (Seq<char>, Seq<char>, int) {
    (g.0@, g.1@, g.2 as int)
}

/// The first entry of `m` with installation id `id`, if any.
pub open spec fn first_with_id(m: Seq<(Seq<char>, Seq<char>, int)>, id: Seq<char>) -> Option<int>
    decreases m.len(),
{
    if m.len() == 0 {
        None
    } else {
        match first_with_id(m.drop_last(), id) {
            Some(j) => Some(j),
            None => if m.last().0 == id {
                Some(m.len() - 1)
            } else {
                None
            },
        }
    }
}

proof fn lemma_first_with_id(m: Seq<(Seq<char>, Seq<char>, int)>, id: Seq<char>)
    ensures
        first_with_id(m, id) matches Some(j) ==> 0 <= j < m.len() && m[j].0 == id,
        first_with_id(m, id) is None ==> forall|k: int| 0 <= k < m.len() ==> m[k].0 != id,
    decreases m.len(),
{
    if m.len() > 0 {
        lemma_first_with_id(m.drop_last(), id);
        assert forall|k: int| 0 <= k < m.len() - 1 implies m.drop_last()[k] == m[k] by {}
    }
}

/// Stream groups merged per installation id, in order of first appearance, keeping the
/// first name seen and adding up the counts.
pub open spec fn merged_addons(groups: Seq<(Seq<char>, Seq<char>, int)>) -> Seq<(Seq<char>, Seq<char>, int)>
    decreases groups.len(),
{
    if groups.len() == 0 {
        Seq::empty()
    } else {
        let m = merged_addons(groups.drop_last());
        let g = groups.last();
        match first_with_id(m, g.0) {
            Some(j) => m.update(j, (m[j].0, m[j].1, m[j].2 + g.2)),
            None => m.push(g),
        }
    }
}

/// All streams counted together.
pub open spec fn total_streams(groups: Seq<(Seq<char>, Seq<char>, int)>) -> int
    decreases groups.len(),
{
    if groups.len() == 0 {
        0
    } else {
        total_streams(groups.drop_last()) + groups.last().2
    }
}

/// How many of the first `upto` addons carry `name`.
pub open spec fn named_before(m: Seq<(Seq<char>, Seq<char>, int)>, upto: int, name: Seq<char>) -> nat
    decreases upto,
{
    if upto <= 0 {
        0
    } else if m[upto - 1].1 == name {
        named_before(m, upto - 1, name) + 1
    } else {
        named_before(m, upto - 1, name)
    }
}

/// The tab title of addon `i`: its name, numbered from `(2)` on when earlier addons share it.
pub open spec fn tab_name(m: Seq<(Seq<char>, Seq<char>, int)>, i: int) -> Seq<char> {
    let dup = named_before(m, i, m[i].1);
    if dup == 0 {
        m[i].1
    } else {
        m[i].1 + " ("@ + decimal(dup + 1) + ")"@
    }
}

proof fn lemma_merged_counts(groups: Seq<(Seq<char>, Seq<char>, int)>)
    requires
        forall|i: int| 0 <= i < groups.len() ==> groups[i].2 >= 0,
    ensures
        forall|j: int| 0 <= j < merged_addons(groups).len() ==> 0 <= #[trigger] merged_addons(groups)[j].2
            <= total_streams(groups),
        merged_addons(groups).len() <= groups.len(),
        total_streams(groups) >= 0,
    decreases groups.len(),
{
    if groups.len() > 0 {
        let rest = groups.drop_last();
        lemma_merged_counts(rest);
        let m = merged_addons(rest);
        let g = groups.last();
        let t = total_streams(rest);
        assert(total_streams(groups) == t + g.2);
        assert(g.2 >= 0);
        match first_with_id(m, g.0) {
            Some(j) => {
                lemma_first_with_id(m, g.0);
                assert(0 <= j < m.len());
                assert(m[j].2 <= t);
                let n = m.update(j, (m[j].0, m[j].1, m[j].2 + g.2));
                assert(merged_addons(groups) == n);
                assert forall|q: int| 0 <= q < n.len() implies 0 <= #[trigger] n[q].2 <= t + g.2 by {
                    if q != j {
                        assert(n[q] == m[q]);
                    }
                }
            },
            None => {
                let n = m.push(g);
                assert(merged_addons(groups) == n);
                assert forall|q: int| 0 <= q < n.len() implies 0 <= #[trigger] n[q].2 <= t + g.2 by {
                    if q < m.len() {
                        assert(n[q] == m[q]);
                    }
                }
            },
        }
    }
}

fn find_id(addons: &Vec<(String, String, usize)>, id: &String) -> (r: Option<usize>)
    ensures
        r matches Some(j) ==> j < addons@.len(),
        first_with_id(addons@.map_values(|g: (String, String, usize)| group_view(g)), id@)
            == match r {
            Some(j) => Some(j as int),
            None => None::<int>,
        },
{
    let ghost m = addons@.map_values(|g: (String, String, usize)| group_view(g));
    let mut j: usize = 0;
    while j < addons.len()
        invariant
            m == addons@.map_values(|g: (String, String, usize)| group_view(g)),
            j <= addons@.len(),
            first_with_id(m.subrange(0, j as int), id@) is None,
        decreases addons@.len() - j,
    {
        assert(m.subrange(0, j + 1).drop_last() =~= m.subrange(0, j as int));
        if addons[j].0 == *id {
            proof {
                lemma_first_prefix(m, id@, j as int + 1);
            }
            return Some(j);
        }
        j = j + 1;
    }
    assert(m.subrange(0, m.len() as int) =~= m);
    None
}

proof fn lemma_first_prefix(m: Seq<(Seq<char>, Seq<char>, int)>, id: Seq<char>, n: int)
    requires
        0 < n <= m.len(),
        first_with_id(m.subrange(0, n - 1), id) is None,
        m[n - 1].0 == id,
    ensures
        first_with_id(m, id) == Some(n - 1),
    decreases m.len() - n,
{
    assert(m.subrange(0, n).drop_last() =~= m.subrange(0, n - 1));
    if n < m.len() {
        assert(m.subrange(0, n + 1).drop_last() =~= m.subrange(0, n));
        lemma_first_prefix_extend(m, id, n, n - 1);
    } else {
        assert(m.subrange(0, n) =~= m);
    }
}

proof fn lemma_first_prefix_extend(m: Seq<(Seq<char>, Seq<char>, int)>, id: Seq<char>, n: int, j: int)
    requires
        0 < n <= m.len(),
        first_with_id(m.subrange(0, n), id) == Some(j),
    ensures
        first_with_id(m, id) == Some(j),
    decreases m.len() - n,
{
    if n < m.len() {
        assert(m.subrange(0, n + 1).drop_last() =~= m.subrange(0, n));
        assert(first_with_id(m.subrange(0, n + 1), id) == Some(j));
        lemma_first_prefix_extend(m, id, n + 1, j);
    } else {
        assert(m.subrange(0, n) =~= m);
    }
}

fn count_named(addons: &Vec<(String, String, usize)>, upto: usize, name: &String) -> (r: usize)
    requires
        upto <= addons@.len(),
    ensures
        r == named_before(addons@.map_values(|g: (String, String, usize)| group_view(g)), upto as int, name@),
        r <= upto,
{
    let ghost m = addons@.map_values(|g: (String, String, usize)| group_view(g));
    let mut n: usize = 0;
    let mut j: usize = 0;
    while j < upto
        invariant
            m == addons@.map_values(|g: (String, String, usize)| group_view(g)),
            j <= upto <= addons@.len(),
            n == named_before(m, j as int, name@),
            n <= j,
        decreases upto - j,
    {
        if addons[j].1 == *name {
            n = n + 1;
        }
        j = j + 1;
    }
    n
}

/// Which streams a source-list tab shows, in the list's order: the "All addons" tab (`None`)
/// shows every stream, an addon's tab those of that installation only.
pub fn visible_streams(installations: &Vec<String>, selected: Option<&str>) -> (r: Vec<bool>)
    ensures
        r@.len() == installations@.len(),
        forall|i: int| 0 <= i < r@.len() ==> #[trigger] r@[i] == match selected {
            Some(id) => installations@[i]@ == id@,
            None => true,
        },
{
    let mut r: Vec<bool> = Vec::new();
    let mut i: usize = 0;
    while i < installations.len()
        invariant
            i <= installations@.len(),
            r@.len() == i,
            forall|j: int| 0 <= j < i ==> #[trigger] r@[j] == match selected {
                Some(id) => installations@[j]@ == id@,
                None => true,
            },
        decreases installations@.len() - i,
    {
        let shown = match selected {
            Some(id) => equal_chars(chars_of(installations[i].as_str()).as_slice(), chars_of(id).as_slice()),
            None => true,
        };
        r.push(shown);
        i = i + 1;
    }
    r
}

/// The filter tabs for a source list: "All addons" with every stream, then one tab per
/// installation in order of appearance, with its summed stream count.
pub fn addon_choices(groups: &Vec<(String, String, usize)>) -> (r: Vec<(Option<String>, String, usize)>)
    requires
        total_streams(groups@.map_values(|g: (String, String, usize)| group_view(g))) <= usize::MAX,
    ensures
        ({
            let g = groups@.map_values(|g: (String, String, usize)| group_view(g));
            let m = merged_addons(g);
            &&& r@.len() == m.len() + 1
            &&& r@[0].0 is None
            &&& r@[0].1@ == "All addons"@
            &&& r@[0].2 == total_streams(g)
            &&& forall|i: int| 0 <= i < m.len() ==> {
                &&& #[trigger] r@[i + 1].0 matches Some(id) && id@ == m[i].0
                &&& r@[i + 1].1@ == tab_name(m, i)
                &&& r@[i + 1].2 == m[i].2
            }
        }),
{
    let ghost g = groups@.map_values(|g: (String, String, usize)| group_view(g));
    proof {
        lemma_merged_counts(g);
    }
    let mut addons: Vec<(String, String, usize)> = Vec::new();
    let mut total: usize = 0;
    let mut i: usize = 0;
    assert(g.subrange(0, 0) =~= Seq::<(Seq<char>, Seq<char>, int)>::empty());
    while i < groups.len()
        invariant
            g == groups@.map_values(|g: (String, String, usize)| group_view(g)),
            total_streams(g) <= usize::MAX,
            forall|k: int| 0 <= k < g.len() ==> g[k].2 >= 0,
            i <= g.len(),
            addons@.map_values(|g: (String, String, usize)| group_view(g)) == merged_addons(g.subrange(0, i as int)),
            total == total_streams(g.subrange(0, i as int)),
        decreases g.len() - i,
    {
        let ghost prefix = g.subrange(0, i + 1);
        assert(prefix.drop_last() =~= g.subrange(0, i as int));
        assert(prefix.last() == group_view(groups@[i as int]));
        proof {
            lemma_total_prefix(g, i as int + 1);
            lemma_merged_counts(prefix);
        }
        let ghost before = addons@;
        let found = find_id(&addons, &groups[i].0);
        let count = groups[i].2;
        match found {
            Some(j) => {
                assert(merged_addons(prefix)[j as int].2 == before[j as int].2 + count);
                assert(merged_addons(prefix)[j as int].2 <= total_streams(prefix));
                let entry = addons.remove(j);
                let merged = (entry.0, entry.1, entry.2 + count);
                addons.insert(j, merged);
                assert(addons@.map_values(|g: (String, String, usize)| group_view(g))
                    =~= merged_addons(prefix));
            },
            None => {
                let id = groups[i].0.clone();
                let name = groups[i].1.clone();
                addons.push((id, name, count));
                assert(addons@.map_values(|g: (String, String, usize)| group_view(g))
                    =~= merged_addons(prefix));
            },
        }
        total = total + count;
        i = i + 1;
    }
    assert(g.subrange(0, g.len() as int) =~= g);
    let ghost m = merged_addons(g);
    let mut choices: Vec<(Option<String>, String, usize)> = Vec::new();
    choices.push((None, string_of(chars_of("All addons").as_slice()), total));
    let mut k: usize = 0;
    while k < addons.len()
        invariant
            m == addons@.map_values(|g: (String, String, usize)| group_view(g)),
            k <= m.len(),
            choices@.len() == k + 1,
            choices@[0].0 is None,
            choices@[0].1@ == "All addons"@,
            choices@[0].2 == total_streams(g),
            forall|q: int| 0 <= q < k ==> {
                &&& #[trigger] choices@[q + 1].0 matches Some(id) && id@ == m[q].0
                &&& choices@[q + 1].1@ == tab_name(m, q)
                &&& choices@[q + 1].2 == m[q].2
            },
        decreases m.len() - k,
    {
        let dup = count_named(&addons, k, &addons[k].1);
        let mut title = chars_of(addons[k].1.as_str());
        if dup > 0 {
            let open = chars_of(" (");
            extend_chars(&mut title, open.as_slice());
            let number = decimal_chars((dup + 1) as u64);
            extend_chars(&mut title, number.as_slice());
            let close = chars_of(")");
            extend_chars(&mut title, close.as_slice());
        }
        let id = addons[k].0.clone();
        choices.push((Some(id), string_of(title.as_slice()), addons[k].2));
        k = k + 1;
    }
    choices
}

proof fn lemma_total_prefix(g: Seq<(Seq<char>, Seq<char>, int)>, n: int)
    requires
        0 <= n <= g.len(),
        forall|k: int| 0 <= k < g.len() ==> g[k].2 >= 0,
    ensures
        total_streams(g.subrange(0, n)) <= total_streams(g),
    decreases g.len() - n,
{
    if n < g.len() {
        lemma_total_prefix(g, n + 1);
        assert(g.subrange(0, n + 1).drop_last() =~= g.subrange(0, n));
    } else {
        assert(g.subrange(0, n) =~= g);
    }
}

/// The pieces of `s` between line feeds, each but the last without a carriage return
/// that ended it; with blank pieces left out this is what std's `str::lines` yields
/// once blank lines are filtered.
pub open spec fn line_pieces(s: Seq<char>) -> Seq<Seq<char>> {
    let ps = split_on(s, '\n');
    Seq::new(ps.len(), |i: int| if i < ps.len() - 1 && ps[i].len() > 0 && ps[i].last() == '\r' {
        ps[i].drop_last()
    } else {
        ps[i]
    })
}

/// The non-blank lines of `s`.
pub open spec fn text_lines(s: Seq<char>) -> Seq<Seq<char>> {
    keep_non_blank(line_pieces(s))
}

/// The first line, and the other lines joined with ` · `.
pub open spec fn head_and_rest(lines: Seq<Seq<char>>) -> (Option<Seq<char>>, Seq<char>) {
    if lines.len() == 0 {
        (None, Seq::<char>::empty())
    } else {
        (Some(lines[0]), joined(lines.skip(1), " · "@))
    }
}

/// The text of a source card.
pub struct SourceCard {
    /// First line of the stream name, or "Video source".
    pub heading: String,
    /// Remaining name lines, usually quality details.
    pub quality: String,
    /// First line of the stream title, when there is one.
    pub title: Option<String>,
    /// Remaining title lines.
    pub details: String,
    /// What kind of source this is.
    pub kind: String,
    /// Name, title and file name on separate lines, trimmed.
    pub tooltip: String,
}

/// What kind of source a card shows: the one playing, a torrent, a direct stream, or an
/// external source.
pub open spec fn source_kind(selected: bool, has_info_hash: bool, url: Option<Seq<char>>) -> Seq<char> {
    if selected {
        "Now playing"@
    } else if has_info_hash || (url matches Some(u) && u.len() >= 7 && u.subrange(0, 7) == "magnet:"@) {
        "Torrent"@
    } else if url is Some {
        "Direct stream"@
    } else {
        "External source"@
    }
}

fn non_blank_lines(s: &[char]) -> (r: Vec<Vec<char>>)
    ensures
        views(r@) == text_lines(s@),
{
    let pieces = split_chars(s, '\n');
    let ghost ps = split_on(s@, '\n');
    proof {
        lemma_split_nonempty(s@, '\n');
    }
    let mut r: Vec<Vec<char>> = Vec::new();
    let mut i: usize = 0;
    let ghost lp = line_pieces(s@);
    assert(lp.subrange(0, 0) =~= Seq::<Seq<char>>::empty());
    while i < pieces.len()
        invariant
            views(pieces@) == ps,
            ps == split_on(s@, '\n'),
            lp == line_pieces(s@),
            lp.len() == ps.len(),
            i <= ps.len(),
            views(r@) == keep_non_blank(lp.subrange(0, i as int)),
        decreases ps.len() - i,
    {
        assert(pieces@[i as int]@ == ps[i as int]);
        let mut line: Vec<char> = Vec::new();
        let p = &pieces[i];
        let strip = i + 1 < pieces.len() && p.len() > 0 && p[p.len() - 1] == '\r';
        let keep = if strip { p.len() - 1 } else { p.len() };
        let mut k: usize = 0;
        while k < keep
            invariant
                keep <= p@.len(),
                k <= keep,
                line@ == p@.subrange(0, k as int),
            decreases keep - k,
        {
            line.push(p[k]);
            k = k + 1;
        }
        assert(line@ == lp[i as int]) by {
            if strip {
                assert(line@ =~= ps[i as int].drop_last());
            } else {
                assert(line@ =~= ps[i as int]);
            }
        }
        assert(lp.subrange(0, i + 1).drop_last() =~= lp.subrange(0, i as int));
        assert(lp.subrange(0, i + 1).last() == lp[i as int]);
        let t = trim(line.as_slice());
        if t.len() > 0 {
            let ghost before = r@;
            let ghost lv = line@;
            r.push(line);
            assert(views(r@) =~= views(before).push(lv));
        }
        i = i + 1;
    }
    assert(lp.subrange(0, lp.len() as int) =~= lp);
    r
}

fn first_and_rest(lines: &Vec<Vec<char>>) -> (r: (Option<String>, String))
    ensures
        (match r.0 {
            Some(x) => Some(x@),
            None => None::<Seq<char>>,
        }, r.1@) == head_and_rest(views(lines@)),
{
    if lines.len() == 0 {
        return (None, String::new());
    }
    let mut rest: Vec<Vec<char>> = Vec::new();
    let mut i: usize = 1;
    while i < lines.len()
        invariant
            1 <= i <= lines@.len(),
            views(rest@) == views(lines@).subrange(1, i as int),
        decreases lines@.len() - i,
    {
        let mut copy: Vec<char> = Vec::new();
        extend_chars(&mut copy, lines[i].as_slice());
        let ghost before = rest@;
        let ghost cv = copy@;
        rest.push(copy);
        assert(views(rest@) =~= views(before).push(cv));
        assert(views(lines@).subrange(1, i + 1) =~= views(lines@).subrange(1, i as int).push(lines@[i as int]@));
        i = i + 1;
    }
    assert(views(lines@).subrange(1, lines@.len() as int) =~= views(lines@).skip(1));
    let joined_rest = join_chars(&rest, " · ");
    (Some(string_of(lines[0].as_slice())), string_of(joined_rest.as_slice()))
}

fn starts_with_magnet(url: &str) -> (b: bool)
    ensures
        b == (url@.len() >= 7 && url@.subrange(0, 7) == "magnet:"@),
{
    let u = chars_of(url);
    if u.len() < 7 {
        return false;
    }
    let mut head: Vec<char> = Vec::new();
    let mut i: usize = 0;
    while i < 7
        invariant
            u@ == url@,
            u@.len() >= 7,
            i <= 7,
            head@ == u@.subrange(0, i as int),
        decreases 7 - i,
    {
        head.push(u[i]);
        i = i + 1;
    }
    same_chars(head.as_slice(), "magnet:")
}

/// The text of a source card: heading and quality from the stream's name, title line and
/// details from its title, the kind of source, and a tooltip.
pub fn source_card(
    name: Option<&str>,
    title: Option<&str>,
    has_info_hash: bool,
    url: Option<&str>,
    filename: &str,
    selected: bool,
) -> (card: SourceCard)
    ensures
        ({
            let n = match name {
                Some(x) => x@,
                None => "Video source"@,
            };
            let t = match title {
                Some(x) => x@,
                None => Seq::<char>::empty(),
            };
            let names = head_and_rest(text_lines(n));
            let titles = head_and_rest(text_lines(t));
            &&& card.heading@ == match names.0 {
                Some(h) => h,
                None => "Video source"@,
            }
            &&& card.quality@ == names.1
            &&& match card.title {
                Some(x) => titles.0 == Some(x@),
                None => titles.0 is None,
            }
            &&& card.details@ == titles.1
            &&& card.kind@ == source_kind(selected, has_info_hash, match url {
                Some(u) => Some(u@),
                None => None::<Seq<char>>,
            })
            &&& card.tooltip@ == trimmed(n + "\n"@ + t + "\n"@ + filename@)
        }),
{
    let n = match name {
        Some(x) => chars_of(x),
        None => chars_of("Video source"),
    };
    let t = match title {
        Some(x) => chars_of(x),
        None => Vec::new(),
    };
    let name_lines = non_blank_lines(n.as_slice());
    let (first_name, quality) = first_and_rest(&name_lines);
    let heading = match first_name {
        Some(h) => h,
        None => string_of(chars_of("Video source").as_slice()),
    };
    let title_lines = non_blank_lines(t.as_slice());
    let (first_title, details) = first_and_rest(&title_lines);
    let kind_text = if selected {
        "Now playing"
    } else if has_info_hash || match url {
        Some(u) => starts_with_magnet(u),
        None => false,
    } {
        "Torrent"
    } else if url.is_some() {
        "Direct stream"
    } else {
        "External source"
    };
    let mut tip: Vec<char> = Vec::new();
    extend_chars(&mut tip, n.as_slice());
    extend_chars(&mut tip, chars_of("\n").as_slice());
    extend_chars(&mut tip, t.as_slice());
    extend_chars(&mut tip, chars_of("\n").as_slice());
    extend_chars(&mut tip, chars_of(filename).as_slice());
    let tip = trim(tip.as_slice());
    SourceCard {
        heading,
        quality,
        title: first_title,
        details,
        kind: string_of(chars_of(kind_text).as_slice()),
        tooltip: string_of(tip.as_slice()),
    }
}

/// A stream offered for continuing playback.
pub struct Continuation {
    /// Installation id of the addon that offered it.
    pub provider: String,
    /// The stream belongs to the binge group being continued.
    pub same_group: bool,
    /// The stream's JSON text.
    pub source_json: String,
}

/// The stream may continue playback: same binge group, and not tried before.
pub open spec fn eligible(c: Continuation, attempted: Seq<Seq<char>>) -> bool {
    c.same_group && !attempted.contains(source_fingerprint(c.provider@, c.source_json@))
}

/// `i` is the first eligible stream, among those of `provider` when `only_provider` is set.
pub open spec fn first_eligible(cs: Seq<Continuation>, attempted: Seq<Seq<char>>, i: int, provider: Option<Seq<char>>) -> bool {
    &&& 0 <= i < cs.len()
    &&& eligible(cs[i], attempted)
    &&& (provider matches Some(p) ==> cs[i].provider@ == p)
    &&& forall|j: int| 0 <= j < i && eligible(#[trigger] cs[j], attempted) ==> match provider {
        Some(p) => cs[j].provider@ != p,
        None => false,
    }
}

/// The stream chosen to continue: the first eligible one of the preferred provider, else the
/// first eligible one of any provider.
pub open spec fn continuation_choice(cs: Seq<Continuation>, attempted: Seq<Seq<char>>, preferred: Seq<char>) -> Option<int> {
    if exists|i: int| first_eligible(cs, attempted, i, Some(preferred)) {
        Some(choose|i: int| first_eligible(cs, attempted, i, Some(preferred)))
    } else if exists|i: int| first_eligible(cs, attempted, i, None) {
        Some(choose|i: int| first_eligible(cs, attempted, i, None))
    } else {
        None
    }
}

fn tried(attempted: &Vec<String>, print: &String) -> (b: bool)
    ensures
        b == attempted@.map_values(|s: String| s@).contains(print@),
{
    let mut i: usize = 0;
    while i < attempted.len()
        invariant
            i <= attempted@.len(),
            forall|j: int| 0 <= j < i ==> #[trigger] attempted@[j]@ != print@,
        decreases attempted@.len() - i,
    {
        if attempted[i] == *print {
            assert(attempted@.map_values(|s: String| s@)[i as int] == print@);
            return true;
        }
        i = i + 1;
    }
    false
}

proof fn lemma_first_unique(cs: Seq<Continuation>, attempted: Seq<Seq<char>>, a: int, b: int, provider: Option<Seq<char>>)
    requires
        first_eligible(cs, attempted, a, provider),
        first_eligible(cs, attempted, b, provider),
    ensures
        a == b,
{
    if a < b {
        assert(eligible(cs[a], attempted));
    } else if b < a {
        assert(eligible(cs[b], attempted));
    }
}

/// Pick the stream that continues a binge group, skipping streams already tried and
/// preferring the provider played before; the offered streams are left as they are.
pub fn matching_source(candidates: &Vec<Continuation>, preferred: &String, attempted: &Vec<String>) -> (r: Option<usize>)
    ensures
        match r {
            Some(i) => continuation_choice(candidates@, attempted@.map_values(|s: String| s@), preferred@) == Some(i as int),
            None => continuation_choice(candidates@, attempted@.map_values(|s: String| s@), preferred@) is None,
        },
{
    let ghost tried_prints = attempted@.map_values(|s: String| s@);
    let mut any: Option<usize> = None;
    let mut i: usize = 0;
    while i < candidates.len()
        invariant
            tried_prints == attempted@.map_values(|s: String| s@),
            i <= candidates@.len(),
            forall|j: int| 0 <= j < i && eligible(#[trigger] candidates@[j], tried_prints) ==> candidates@[j].provider@ != preferred@,
            match any {
                Some(k) => first_eligible(candidates@, tried_prints, k as int, None),
                None => forall|j: int| 0 <= j < i ==> !eligible(#[trigger] candidates@[j], tried_prints),
            },
        decreases candidates@.len() - i,
    {
        let c = &candidates[i];
        if c.same_group {
            let print = fingerprint(c.provider.as_str(), c.source_json.as_str());
            if !tried(attempted, &print) {
                assert(eligible(candidates@[i as int], tried_prints));
                if c.provider == *preferred {
                    assert(first_eligible(candidates@, tried_prints, i as int, Some(preferred@)));
                    proof {
                        let w = choose|w: int| first_eligible(candidates@, tried_prints, w, Some(preferred@));
                        lemma_first_unique(candidates@, tried_prints, w, i as int, Some(preferred@));
                    }
                    return Some(i);
                }
                if any.is_none() {
                    any = Some(i);
                    assert(first_eligible(candidates@, tried_prints, i as int, None));
                }
            }
        }
        i = i + 1;
    }
    assert(!exists|w: int| first_eligible(candidates@, tried_prints, w, Some(preferred@)));
    match any {
        Some(k) => {
            proof {
                let w = choose|w: int| first_eligible(candidates@, tried_prints, w, None);
                lemma_first_unique(candidates@, tried_prints, w, k as int, None);
            }
            Some(k)
        },
        None => {
            assert(!exists|w: int| first_eligible(candidates@, tried_prints, w, None));
            None
        },
    }
}

/// Continuation never leaves the binge group nor retries a failed source: the chosen stream is
/// one of the offered ones, of the same group and not tried before. When the preferred
/// provider offers such a stream, the chosen one is the first of them.
pub proof fn lemma_continuation_stays_in_group(cs: Seq<Continuation>, attempted: Seq<Seq<char>>, preferred: Seq<char>)
    ensures
        continuation_choice(cs, attempted, preferred) matches Some(i) ==> (0 <= i < cs.len() && cs[i].same_group
            && !attempted.contains(source_fingerprint(cs[i].provider@, cs[i].source_json@))),
        (exists|j: int| 0 <= j < cs.len() && eligible(cs[j], attempted) && cs[j].provider@ == preferred)
            ==> (continuation_choice(cs, attempted, preferred) matches Some(i) && cs[i].provider@ == preferred
            && forall|j: int| 0 <= j < i && eligible(#[trigger] cs[j], attempted) ==> cs[j].provider@ != preferred),
        (forall|j: int| 0 <= j < cs.len() ==> !eligible(#[trigger] cs[j], attempted))
            ==> continuation_choice(cs, attempted, preferred) is None,
{
    if exists|j: int| 0 <= j < cs.len() && eligible(cs[j], attempted) && cs[j].provider@ == preferred {
        let j = choose|j: int| 0 <= j < cs.len() && eligible(cs[j], attempted) && cs[j].provider@ == preferred;
        lemma_first_preferred_exists(cs, attempted, preferred, j);
    }
    if exists|i: int| first_eligible(cs, attempted, i, Some(preferred)) {
        let i = choose|i: int| first_eligible(cs, attempted, i, Some(preferred));
        assert(first_eligible(cs, attempted, i, Some(preferred)));
    } else if exists|i: int| first_eligible(cs, attempted, i, None) {
        let i = choose|i: int| first_eligible(cs, attempted, i, None);
        assert(first_eligible(cs, attempted, i, None));
    }
}

/// Without a usable stream of the preferred provider, continuation takes the first usable
/// stream in the offered order: every stream before the chosen one is of another group or was
/// tried already. And whenever some offered stream is usable, one is chosen.
pub proof fn lemma_continuation_takes_first(cs: Seq<Continuation>, attempted: Seq<Seq<char>>, preferred: Seq<char>)
    ensures
        (forall|j: int| 0 <= j < cs.len() && eligible(#[trigger] cs[j], attempted) ==> cs[j].provider@ != preferred)
            ==> (continuation_choice(cs, attempted, preferred) matches Some(i)
                ==> 0 <= i < cs.len() && eligible(cs[i], attempted)
                && forall|j: int| 0 <= j < i ==> !eligible(#[trigger] cs[j], attempted)),
        (exists|j: int| 0 <= j < cs.len() && eligible(#[trigger] cs[j], attempted))
            ==> continuation_choice(cs, attempted, preferred) is Some,
{
    if forall|j: int| 0 <= j < cs.len() && eligible(#[trigger] cs[j], attempted) ==> cs[j].provider@ != preferred {
        assert(!exists|i: int| first_eligible(cs, attempted, i, Some(preferred))) by {
            if exists|i: int| first_eligible(cs, attempted, i, Some(preferred)) {
                let i = choose|i: int| first_eligible(cs, attempted, i, Some(preferred));
                assert(eligible(cs[i], attempted));
            }
        }
        if exists|i: int| first_eligible(cs, attempted, i, None) {
            let i = choose|i: int| first_eligible(cs, attempted, i, None);
            assert(first_eligible(cs, attempted, i, None));
        }
    }
    if exists|j: int| 0 <= j < cs.len() && eligible(#[trigger] cs[j], attempted) {
        let j = choose|j: int| 0 <= j < cs.len() && eligible(#[trigger] cs[j], attempted);
        lemma_first_any_exists(cs, attempted, j);
    }
}

proof fn lemma_first_any_exists(cs: Seq<Continuation>, attempted: Seq<Seq<char>>, j: int)
    requires
        0 <= j < cs.len(),
        eligible(cs[j], attempted),
    ensures
        exists|i: int| first_eligible(cs, attempted, i, None),
    decreases j,
{
    if forall|k: int| 0 <= k < j ==> !eligible(#[trigger] cs[k], attempted) {
        assert(first_eligible(cs, attempted, j, None));
    } else {
        let k = choose|k: int| 0 <= k < j && eligible(#[trigger] cs[k], attempted);
        lemma_first_any_exists(cs, attempted, k);
    }
}

proof fn lemma_first_preferred_exists(cs: Seq<Continuation>, attempted: Seq<Seq<char>>, preferred: Seq<char>, j: int)
    requires
        0 <= j < cs.len(),
        eligible(cs[j], attempted),
        cs[j].provider@ == preferred,
    ensures
        exists|i: int| first_eligible(cs, attempted, i, Some(preferred)),
    decreases j,
{
    if forall|k: int| 0 <= k < j && eligible(#[trigger] cs[k], attempted) ==> cs[k].provider@ != preferred {
        assert(first_eligible(cs, attempted, j, Some(preferred)));
    } else {
        let k = choose|k: int| 0 <= k < j && eligible(#[trigger] cs[k], attempted) && cs[k].provider@ == preferred;
        lemma_first_preferred_exists(cs, attempted, preferred, k);
    }
}

/// How the player's source list marks a stream: by its addon's name ("Addon" when the addon
/// is no longer installed), and whether it is the one playing.
pub open spec fn addon_name_of(addons: Seq<(String, String)>, provider: Seq<char>) -> Seq<char>
    decreases addons.len(),
{
    if addons.len() == 0 {
        "Addon"@
    } else if addons[0].0@ == provider {
        addons[0].1@
    } else {
        addon_name_of(addons.drop_first(), provider)
    }
}

fn addon_name(addons: &Vec<(String, String)>, provider: &String) -> (r: String)
    ensures
        r@ == addon_name_of(addons@, provider@),
{
    let mut i: usize = 0;
    assert(addons@.skip(0) =~= addons@);
    while i < addons.len()
        invariant
            i <= addons@.len(),
            addon_name_of(addons@, provider@) == addon_name_of(addons@.skip(i as int), provider@),
        decreases addons@.len() - i,
    {
        assert(addons@.skip(i as int)[0] == addons@[i as int]);
        assert(addons@.skip(i as int).drop_first() =~= addons@.skip(i + 1));
        if addons[i].0 == *provider {
            return string_of(chars_of(addons[i].1.as_str()).as_slice());
        }
        i = i + 1;
    }
    assert(addons@.skip(i as int) =~= Seq::<(String, String)>::empty());
    string_of(chars_of("Addon").as_slice())
}

/// The labels of the player's source list: for each offered stream `(provider, JSON)`, its
/// addon's name among the installed `(id, name)` pairs, and whether its fingerprint is the
/// current source's.
pub fn source_labels(choices: &Vec<(String, String)>, current: &String, addons: &Vec<(String, String)>)
    -> (r: Vec<(String, bool)>)
    ensures
        r@.len() == choices@.len(),
        forall|i: int| 0 <= i < r@.len() ==> (#[trigger] r@[i]).0@ == addon_name_of(addons@, choices@[i].0@)
            && r@[i].1 == (current@ == source_fingerprint(choices@[i].0@, choices@[i].1@)),
{
    let mut r: Vec<(String, bool)> = Vec::new();
    let mut i: usize = 0;
    while i < choices.len()
        invariant
            i <= choices@.len(),
            r@.len() == i,
            forall|k: int| 0 <= k < i ==> (#[trigger] r@[k]).0@ == addon_name_of(addons@, choices@[k].0@)
                && r@[k].1 == (current@ == source_fingerprint(choices@[k].0@, choices@[k].1@)),
        decreases choices@.len() - i,
    {
        let print = fingerprint(choices[i].0.as_str(), choices[i].1.as_str());
        let selected = *current == print;
        r.push((addon_name(addons, &choices[i].0), selected));
        i = i + 1;
    }
    r
}

/// The most sources continuation tries before it lets the viewer choose.
pub const CONTINUATION_ATTEMPTS: usize = 3;

/// What continuing playback with the next video does first.
#[derive(Clone, Copy, Debug, PartialEq, Eq)]
pub enum ContinueStep {
    /// Open the source list for the video.
    ChooseSource,
    /// Look for a stream of the same binge group among the video's sources.
    MatchGroup,
}

/// Continuation needs a binge group, and gives up after three tried sources (the count starts
/// again for a new episode).
pub fn continue_step(has_group: bool, attempted: usize, new_episode: bool) -> (r: ContinueStep)
    ensures
        r == if !has_group || (!new_episode && attempted >= CONTINUATION_ATTEMPTS) {
            ContinueStep::ChooseSource
        } else {
            ContinueStep::MatchGroup
        },
{
    let tried = if new_episode { 0 } else { attempted };
    if !has_group || tried >= CONTINUATION_ATTEMPTS {
        ContinueStep::ChooseSource
    } else {
        ContinueStep::MatchGroup
    }
}

/// Transcoding is used only when it was asked for and an external companion server is set.
pub fn transcode_enabled(requested: bool, external_companion: bool) -> (b: bool)
    ensures
        b == (requested && external_companion),
{
    requested && external_companion
}

/// How a prepared source is delivered.
#[derive(Clone, Copy, Debug, PartialEq, Eq)]
pub enum DeliveryKind {
    /// A URL the player opens itself, with its request headers.
    Direct,
    /// A torrent file served by the companion.
    Torrent,
    /// An external application, or nothing the player supports.
    Other,
}

/// What the player is started with for a prepared source.
#[derive(Clone, Copy, Debug, PartialEq, Eq)]
pub struct LaunchPlan {
    /// Play the companion's transcode path rather than the direct one.
    pub transcode_path: bool,
    /// Send the source's request headers.
    pub with_headers: bool,
    /// Where the player seeks to at the start.
    pub resume_ms: u64,
    /// How far into the video the player's clock starts.
    pub offset_ms: u64,
}

/// Start a prepared source: direct URLs resume at the saved position with their headers;
/// torrents play from the companion, transcoded ones from the prepared start offset (the
/// player then starts at zero); anything else cannot be played, with a hint that depends on
/// whether a companion is set.
pub fn launch_plan(delivery: DeliveryKind, transcode: bool, has_companion: bool, internal_companion: bool, plan_resume_ms: u64,
    transcode_start_ms: u64) -> (r: Result<LaunchPlan, &'static str>)
    requires
        delivery == DeliveryKind::Torrent ==> has_companion,
    ensures
        match delivery {
            DeliveryKind::Direct => r == Ok::<LaunchPlan, &'static str>(LaunchPlan { transcode_path: false, with_headers: true,
                resume_ms: plan_resume_ms, offset_ms: 0 }),
            DeliveryKind::Torrent => r == Ok::<LaunchPlan, &'static str>(if transcode && !internal_companion {
                LaunchPlan { transcode_path: true, with_headers: false, resume_ms: 0, offset_ms: transcode_start_ms }
            } else {
                LaunchPlan { transcode_path: false, with_headers: false, resume_ms: plan_resume_ms, offset_ms: 0 }
            }),
            DeliveryKind::Other => r matches Err(m) && m@ == if has_companion {
                "This source type is not supported by the Linux player. Choose another source."@
            } else {
                "This source needs a companion or an unsupported player feature. Configure a companion in Settings for torrents."@
            },
        },
{
    match delivery {
        DeliveryKind::Direct => Ok(LaunchPlan { transcode_path: false, with_headers: true, resume_ms: plan_resume_ms, offset_ms: 0 }),
        DeliveryKind::Torrent => Ok(if transcode && !internal_companion {
            LaunchPlan { transcode_path: true, with_headers: false, resume_ms: 0, offset_ms: transcode_start_ms }
        } else {
            LaunchPlan { transcode_path: false, with_headers: false, resume_ms: plan_resume_ms, offset_ms: 0 }
        }),
        DeliveryKind::Other => Err(if has_companion {
            "This source type is not supported by the Linux player. Choose another source."
        } else {
            "This source needs a companion or an unsupported player feature. Configure a companion in Settings for torrents."
        }),
    }
}

/// The title shown while playing: the title's name ("Now playing" when unknown), followed by
/// the episode when the video is a known episode.
pub fn playing_title(stored: Option<&str>, episode: Option<&Episode>) -> (r: String)
    ensures
        ({
            let base = match stored {
                Some(t) => t@,
                None => "Now playing"@,
            };
            r@ == match episode {
                Some(e) => base + " · "@ + episode_title_of(*e),
                None => base,
            }
        }),
{
    let mut out = match stored {
        Some(t) => chars_of(t),
        None => chars_of("Now playing"),
    };
    match episode {
        Some(e) => {
            extend_chars(&mut out, chars_of(" · ").as_slice());
            extend_chars(&mut out, chars_of(episode_title(e).as_str()).as_slice());
        },
        None => {},
    }
    string_of(out.as_slice())
}

/// A source can be offered for transcoding: an external companion is set and the stream is a
/// torrent (an info hash, or a magnet link).
pub fn offers_transcode(external_companion: bool, has_info_hash: bool, url: Option<&str>) -> (b: bool)
    ensures
        b == (external_companion && (has_info_hash || match url {
            Some(u) => u@.len() >= 7 && u@.subrange(0, 7) == "magnet:"@,
            None => false,
        })),
{
    if !external_companion {
        return false;
    }
    if has_info_hash {
        return true;
    }
    match url {
        Some(u) => {
            let c = chars_of(u);
            if c.len() < 7 {
                return false;
            }
            let mut head: Vec<char> = Vec::new();
            let mut i: usize = 0;
            while i < 7
                invariant
                    c@.len() >= 7,
                    i <= 7,
                    head@ == c@.subrange(0, i as int),
                decreases 7 - i,
            {
                head.push(c[i]);
                i = i + 1;
            }
            same_chars(head.as_slice(), "magnet:")
        },
        None => false,
    }
}

/// The line a provider's failure adds to the source list; an addon that does not offer
/// streams for the title adds nothing.
pub fn failure_line(provider: &str, unsupported: bool, message: &str) -> (r: Option<String>)
    ensures
        unsupported ==> r is None,
        !unsupported ==> (r matches Some(t) && t@ == provider@ + ": "@ + message@),
{
    if unsupported {
        None
    } else {
        let mut out = chars_of(provider);
        extend_chars(&mut out, chars_of(": ").as_slice());
        extend_chars(&mut out, chars_of(message).as_slice());
        Some(string_of(out.as_slice()))
    }
}

} // verus!
