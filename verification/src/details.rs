//! Title details from addon metadata, without exposing raw provider fields.
use vstd::prelude::*;
use crate::player::{parse_url, url_parse};
use crate::languages::{language_display, name};
use crate::text::{chars_of, equal_chars, extend_chars, join_chars, joined, same_chars, string_of, trim, trimmed, views};

verus! {

/// A JSON value as addons send it; numbers keep the text JSON gives them.
#[derive(Debug)]
pub enum Json {
    Null,
    Bool(bool),
    Number(String),
    Text(String),
    Array(Vec<Json>),
    Object(Vec<(String, Json)>),
}

/// The value stored under `key` in an object's fields, the first one when a key repeats.
pub open spec fn lookup(fields: Seq<(String, Json)>, key: Seq<char>) -> Option<Json>
    decreases fields.len(),
{
    if fields.len() == 0 {
        None
    } else if fields[0].0@ == key {
        Some(fields[0].1)
    } else {
        lookup(fields.drop_first(), key)
    }
}

/// The displayable texts in a value: trimmed non-blank strings, numbers, the texts of every
/// array item in order, and the `name` of an object.
pub open spec fn json_texts(v: Json) -> Seq<Seq<char>>
    decreases v,
{
    match v {
        Json::Text(s) => if trimmed(s@).len() > 0 { seq![trimmed(s@)] } else { Seq::empty() },
        Json::Number(n) => seq![n@],
        Json::Array(items) => all_texts(items@),
        Json::Object(fields) => object_name_texts(fields@),
        _ => Seq::empty(),
    }
}

/// The texts of the `name` field of an object.
pub open spec fn object_name_texts(fields: Seq<(String, Json)>) -> Seq<Seq<char>>
    decreases fields,
{
    if fields.len() == 0 {
        Seq::empty()
    } else if fields[0].0@ == "name"@ {
        json_texts(fields[0].1)
    } else {
        object_name_texts(fields.drop_first())
    }
}

/// The texts of all items, in order.
pub open spec fn all_texts(items: Seq<Json>) -> Seq<Seq<char>>
    decreases items,
{
    if items.len() == 0 {
        Seq::empty()
    } else {
        all_texts(items.drop_last()) + json_texts(items.last())
    }
}

fn texts_of(v: &Json) -> (r: Vec<Vec<char>>)
    ensures
        views(r@) == json_texts(*v),
    decreases v,
{
    match v {
        Json::Text(s) => {
            let t = trim(chars_of(s.as_str()).as_slice());
            let mut r: Vec<Vec<char>> = Vec::new();
            if t.len() > 0 {
                let ghost tv = t@;
                r.push(t);
                assert(views(r@) =~= seq![tv]);
            } else {
                assert(views(r@) =~= Seq::<Seq<char>>::empty());
            }
            r
        },
        Json::Number(n) => {
            let mut r: Vec<Vec<char>> = Vec::new();
            r.push(chars_of(n.as_str()));
            assert(views(r@) =~= seq![n@]);
            r
        },
        Json::Array(items) => {
            let mut r: Vec<Vec<char>> = Vec::new();
            let mut i: usize = 0;
            assert(items@.subrange(0, 0) =~= Seq::<Json>::empty());
            assert(views(r@) =~= Seq::<Seq<char>>::empty());
            while i < items.len()
                invariant
                    *v == Json::Array(*items),
                    i <= items@.len(),
                    views(r@) == all_texts(items@.subrange(0, i as int)),
                decreases items@.len() - i,
            {
                assert(decreases_to!(*v => (*v)->Array_0));
                assert((*v)->Array_0 == *items);
                assert(decreases_to!(*items => items@));
                assert(decreases_to!(items@ => items@[i as int]));
                assert(decreases_to!(*v => items@[i as int]));
                let part = texts_of(&items[i]);
                let ghost before = views(r@);
                let mut k: usize = 0;
                while k < part.len()
                    invariant
                        k <= part@.len(),
                        views(r@) == before + views(part@).subrange(0, k as int),
                    decreases part@.len() - k,
                {
                    let mut copy: Vec<char> = Vec::new();
                    extend_chars(&mut copy, part[k].as_slice());
                    let ghost prev = r@;
                    let ghost cv = copy@;
                    r.push(copy);
                    assert(views(r@) =~= views(prev).push(cv));
                    assert(views(part@).subrange(0, k + 1) =~= views(part@).subrange(0, k as int).push(part@[k as int]@));
                    k = k + 1;
                }
                assert(views(part@).subrange(0, part@.len() as int) =~= views(part@));
                assert(items@.subrange(0, i + 1).drop_last() =~= items@.subrange(0, i as int));
                assert(items@.subrange(0, i + 1).last() == items@[i as int]);
                i = i + 1;
            }
            assert(items@.subrange(0, items@.len() as int) =~= items@);
            r
        },
        Json::Object(fields) => {
            let mut i: usize = 0;
            assert(fields@.skip(0) =~= fields@);
            while i < fields.len()
                invariant
                    *v == Json::Object(*fields),
                    i <= fields@.len(),
                    object_name_texts(fields@) == object_name_texts(fields@.skip(i as int)),
                decreases fields@.len() - i,
            {
                let key = chars_of(fields[i].0.as_str());
                if same_chars(key.as_slice(), "name") {
                    assert(fields@.skip(i as int)[0] == fields@[i as int]);
                    assert(decreases_to!(*v => (*v)->Object_0));
                    assert((*v)->Object_0 == *fields);
                    assert(decreases_to!(*fields => fields@));
                    assert(decreases_to!(fields@ => fields@[i as int]));
                    assert(decreases_to!(fields@[i as int] => fields@[i as int].1));
                    assert(decreases_to!(*v => fields@[i as int].1));
                    return texts_of(&fields[i].1);
                }
                assert(fields@.skip(i as int).drop_first() =~= fields@.skip(i + 1));
                i = i + 1;
            }
            Vec::new()
        },
        _ => Vec::new(),
    }
}

/// Title metadata as an addon describes it: id, content type, name, and its other fields.
#[derive(Debug)]
pub struct TitleMeta {
    pub id: String,
    pub content_type: String,
    pub name: String,
    pub extra: Vec<(String, Json)>,
}

fn find_field(fields: &Vec<(String, Json)>, key: &str) -> (r: Option<usize>)
    ensures
        match r {
            Some(i) => i < fields@.len() && lookup(fields@, key@) == Some(fields@[i as int].1),
            None => lookup(fields@, key@) is None,
        },
{
    let mut i: usize = 0;
    assert(fields@.skip(0) =~= fields@);
    while i < fields.len()
        invariant
            i <= fields@.len(),
            lookup(fields@, key@) == lookup(fields@.skip(i as int), key@),
        decreases fields@.len() - i,
    {
        let k = chars_of(fields[i].0.as_str());
        if same_chars(k.as_slice(), key) {
            assert(fields@.skip(i as int)[0] == fields@[i as int]);
            return Some(i);
        }
        assert(fields@.skip(i as int).drop_first() =~= fields@.skip(i + 1));
        i = i + 1;
    }
    None
}

/// The texts of the first of `aliases` whose field holds any.
pub open spec fn field_texts(fields: Seq<(String, Json)>, aliases: Seq<Seq<char>>) -> Seq<Seq<char>>
    decreases aliases.len(),
{
    if aliases.len() == 0 {
        Seq::empty()
    } else {
        match lookup(fields, aliases[0]) {
            Some(v) => if json_texts(v).len() > 0 {
                json_texts(v)
            } else {
                field_texts(fields, aliases.drop_first())
            },
            None => field_texts(fields, aliases.drop_first()),
        }
    }
}

fn field_chars(fields: &Vec<(String, Json)>, aliases: &[&str]) -> (r: Vec<Vec<char>>)
    ensures
        views(r@) == field_texts(fields@, aliases@.map_values(|a: &str| a@)),
{
    let ghost names = aliases@.map_values(|a: &str| a@);
    let mut i: usize = 0;
    assert(names.skip(0) =~= names);
    while i < aliases.len()
        invariant
            names == aliases@.map_values(|a: &str| a@),
            i <= aliases@.len(),
            field_texts(fields@, names) == field_texts(fields@, names.skip(i as int)),
        decreases aliases@.len() - i,
    {
        assert(names.skip(i as int)[0] == aliases@[i as int]@);
        assert(names.skip(i as int).drop_first() =~= names.skip(i + 1));
        match find_field(fields, aliases[i]) {
            Some(k) => {
                let t = texts_of(&fields[k].1);
                if t.len() > 0 {
                    return t;
                }
            },
            None => {},
        }
        i = i + 1;
    }
    Vec::new()
}

fn strings_of(v: Vec<Vec<char>>) -> (r: Vec<String>)
    ensures
        r@.map_values(|s: String| s@) == views(v@),
{
    let mut r: Vec<String> = Vec::new();
    let mut i: usize = 0;
    while i < v.len()
        invariant
            i <= v@.len(),
            r@.map_values(|s: String| s@) == views(v@).subrange(0, i as int),
        decreases v@.len() - i,
    {
        let ghost before = r@;
        r.push(string_of(v[i].as_slice()));
        assert(r@.map_values(|s: String| s@) =~= before.map_values(|s: String| s@).push(v@[i as int]@));
        assert(views(v@).subrange(0, i + 1) =~= views(v@).subrange(0, i as int).push(v@[i as int]@));
        i = i + 1;
    }
    assert(views(v@).subrange(0, v@.len() as int) =~= views(v@));
    r
}

/// The texts of a metadata field, found under the first alias that has any.
pub fn field(meta: &TitleMeta, aliases: &[&str]) -> (r: Vec<String>)
    ensures
        r@.map_values(|s: String| s@) == field_texts(meta.extra@, aliases@.map_values(|a: &str| a@)),
{
    strings_of(field_chars(&meta.extra, aliases))
}

/// The facts shown in a title's header: release, runtime and age rating (each the texts of
/// its first present alias, joined with commas, when there are any), the IMDb rating out of
/// ten, and at most three genres.
pub open spec fn hero_facts_of(fields: Seq<(String, Json)>) -> Seq<Seq<char>> {
    let release = joined(field_texts(fields, seq!["releaseInfo"@, "year"@]), ", "@);
    let runtime = joined(field_texts(fields, seq!["runtime"@]), ", "@);
    let rating = joined(field_texts(fields, seq!["certification"@, "contentRating"@, "ageRating"@]), ", "@);
    let basic = keep_filled(seq![release, runtime, rating]);
    let imdb = field_texts(fields, seq!["imdbRating"@]);
    let rated = if imdb.len() > 0 { basic.push("IMDb "@ + imdb[0] + "/10"@) } else { basic };
    let genres = field_texts(fields, seq!["genres"@, "genre"@]);
    rated + genres.take(if genres.len() < 3 { genres.len() as int } else { 3 })
}

/// The non-empty texts, in order.
pub open spec fn keep_filled(xs: Seq<Seq<char>>) -> Seq<Seq<char>>
    decreases xs.len(),
{
    if xs.len() == 0 {
        Seq::empty()
    } else if xs.last().len() > 0 {
        keep_filled(xs.drop_last()).push(xs.last())
    } else {
        keep_filled(xs.drop_last())
    }
}

fn push_filled(facts: &mut Vec<Vec<char>>, text: Vec<char>)
    ensures
        views(final(facts)@) == if text@.len() > 0 { views(old(facts)@).push(text@) } else { views(old(facts)@) },
{
    if text.len() > 0 {
        let ghost tv = text@;
        facts.push(text);
        assert(views(facts@) =~= views(old(facts)@).push(tv));
    }
}

/// The facts shown in a title's header.
pub fn hero_facts(meta: &TitleMeta) -> (r: Vec<String>)
    ensures
        r@.map_values(|s: String| s@) == hero_facts_of(meta.extra@),
{
    let fields = &meta.extra;
    let mut facts: Vec<Vec<char>> = Vec::new();
    let a_release: &[&str] = &["releaseInfo", "year"];
    let a_runtime: &[&str] = &["runtime"];
    let a_rating: &[&str] = &["certification", "contentRating", "ageRating"];
    let a_imdb: &[&str] = &["imdbRating"];
    let a_genres: &[&str] = &["genres", "genre"];
    assert(a_release@.map_values(|a: &str| a@) =~= seq!["releaseInfo"@, "year"@]);
    assert(a_runtime@.map_values(|a: &str| a@) =~= seq!["runtime"@]);
    assert(a_rating@.map_values(|a: &str| a@) =~= seq!["certification"@, "contentRating"@, "ageRating"@]);
    assert(a_imdb@.map_values(|a: &str| a@) =~= seq!["imdbRating"@]);
    assert(a_genres@.map_values(|a: &str| a@) =~= seq!["genres"@, "genre"@]);
    let release = join_chars(&field_chars(fields, a_release), ", ");
    let runtime = join_chars(&field_chars(fields, a_runtime), ", ");
    let rating = join_chars(&field_chars(fields, a_rating), ", ");
    let ghost all = seq![release@, runtime@, rating@];
    assert(keep_filled(all.subrange(0, 0)) =~= Seq::<Seq<char>>::empty());
    push_filled(&mut facts, release);
    assert(all.subrange(0, 1).drop_last() =~= all.subrange(0, 0));
    assert(views(facts@) =~= keep_filled(all.subrange(0, 1)));
    push_filled(&mut facts, runtime);
    assert(all.subrange(0, 2).drop_last() =~= all.subrange(0, 1));
    assert(views(facts@) =~= keep_filled(all.subrange(0, 2)));
    push_filled(&mut facts, rating);
    assert(all.subrange(0, 3).drop_last() =~= all.subrange(0, 2));
    assert(all.subrange(0, 3) =~= all);
    assert(views(facts@) =~= keep_filled(all));
    let imdb = field_chars(fields, a_imdb);
    if imdb.len() > 0 {
        let mut text = chars_of("IMDb ");
        extend_chars(&mut text, imdb[0].as_slice());
        extend_chars(&mut text, chars_of("/10").as_slice());
        let ghost before = views(facts@);
        let ghost tv = text@;
        facts.push(text);
        assert(views(facts@) =~= before.push(tv));
    }
    let genres = field_chars(fields, a_genres);
    let ghost rated = views(facts@);
    let mut g: usize = 0;
    while g < genres.len() && g < 3
        invariant
            g <= genres@.len(),
            g <= 3,
            views(facts@) == rated + views(genres@).take(g as int),
        decreases genres@.len() - g,
    {
        let mut copy: Vec<char> = Vec::new();
        extend_chars(&mut copy, genres[g].as_slice());
        let ghost before = views(facts@);
        let ghost cv = copy@;
        facts.push(copy);
        assert(views(facts@) =~= before.push(cv));
        assert(views(genres@).take(g + 1) =~= views(genres@).take(g as int).push(genres@[g as int]@));
        g = g + 1;
    }
    strings_of(facts)
}

/// A link that may open in the browser: an `http` or `https` URL without user name or
/// password, written as the `url` crate serializes it.
pub open spec fn web_link_of(s: Seq<char>) -> Option<Seq<char>> {
    match url_parse(s) {
        Some(p) => if (p.0 == "https"@ || p.0 == "http"@) && p.1.len() == 0 && !p.2 {
            Some(p.3)
        } else {
            None
        },
        None => None,
    }
}

/// The browser link for a provider URL, if it is safe to open.
pub fn web_link(value: &str) -> (r: Option<String>)
    ensures
        match r {
            Some(u) => web_link_of(value@) == Some(u@),
            None => web_link_of(value@) is None,
        },
{
    match parse_url(value) {
        Some(p) => {
            let scheme = chars_of(p.scheme.as_str());
            let web = same_chars(scheme.as_slice(), "https") || same_chars(scheme.as_slice(), "http");
            if web && p.username.as_str().unicode_len() == 0 && !p.has_password {
                Some(p.serialized)
            } else {
                None
            }
        },
        None => None,
    }
}

/// The value stored under `key` when `v` is an object.
pub open spec fn item_get(v: Json, key: Seq<char>) -> Option<Json> {
    match v {
        Json::Object(fields) => lookup(fields@, key),
        _ => None,
    }
}

/// The string a value holds, when it is a JSON string.
pub open spec fn as_text(v: Option<Json>) -> Option<Seq<char>> {
    match v {
        Some(Json::Text(s)) => Some(s@),
        _ => None,
    }
}

/// The first of two looked-up values that is present.
pub open spec fn first_present(a: Option<Json>, b: Option<Json>) -> Option<Json> {
    if a is Some {
        a
    } else {
        b
    }
}

/// An ASCII letter or digit, `_` or `-`.
pub open spec fn video_id_char(c: char) -> bool {
    ('0' <= c && c <= '9') || ('a' <= c && c <= 'z') || ('A' <= c && c <= 'Z') || c == '_' || c == '-'
}

/// A YouTube video id: exactly eleven ASCII letters, digits, `_` or `-`.
pub open spec fn video_id(id: Seq<char>) -> bool {
    id.len() == 11 && forall|i: int| 0 <= i < id.len() ==> video_id_char(#[trigger] id[i])
}

/// Where a trailer item can be watched: its `url` when that is a safe web link, else the
/// YouTube page of its `ytId` (or, without one, its `source`) when that is a video id.
pub open spec fn trailer_url(item: Json) -> Option<Seq<char>> {
    let direct = match as_text(item_get(item, "url"@)) {
        Some(u) => web_link_of(u),
        None => None,
    };
    if direct is Some {
        direct
    } else {
        match as_text(first_present(item_get(item, "ytId"@), item_get(item, "source"@))) {
            Some(id) => if video_id(id) {
                Some("https://www.youtube.com/watch?v="@ + id)
            } else {
                None
            },
            None => None,
        }
    }
}

/// A trailer's title: its `title`, else its `type`, else "Trailer".
pub open spec fn trailer_title(item: Json) -> Seq<char> {
    match as_text(first_present(item_get(item, "title"@), item_get(item, "type"@))) {
        Some(t) => t,
        None => "Trailer"@,
    }
}

/// Whether a trailer with this URL is already listed.
pub open spec fn has_url(list: Seq<(Seq<char>, Seq<char>)>, u: Seq<char>) -> bool {
    exists|j: int| 0 <= j < list.len() && (#[trigger] list[j]).1 == u
}

/// The list with `item` added at the end, when it has a URL not listed yet.
pub open spec fn add_trailer(list: Seq<(Seq<char>, Seq<char>)>, item: Json) -> Seq<(Seq<char>, Seq<char>)> {
    match trailer_url(item) {
        Some(u) => if has_url(list, u) {
            list
        } else {
            list.push((trailer_title(item), u))
        },
        None => list,
    }
}

/// The list with the items added in order.
pub open spec fn add_trailers(list: Seq<(Seq<char>, Seq<char>)>, items: Seq<Json>) -> Seq<(Seq<char>, Seq<char>)>
    decreases items.len(),
{
    if items.len() == 0 {
        list
    } else {
        add_trailers(add_trailer(list, items[0]), items.drop_first())
    }
}

/// The items of the array stored under `key`; none when it is missing or not an array.
pub open spec fn array_items(fields: Seq<(String, Json)>, key: Seq<char>) -> Seq<Json> {
    match lookup(fields, key) {
        Some(Json::Array(items)) => items@,
        _ => Seq::empty(),
    }
}

/// The trailers of a title, as (title, URL) pairs: those under `trailers`, then those under
/// `trailerStreams`, each URL once.
pub open spec fn trailers_of(fields: Seq<(String, Json)>) -> Seq<(Seq<char>, Seq<char>)> {
    add_trailers(add_trailers(Seq::empty(), array_items(fields, "trailers"@)), array_items(fields, "trailerStreams"@))
}

/// The pairs of strings as pairs of character sequences.
pub open spec fn pair_views(v: Seq<(String, String)>) -> Seq<(Seq<char>, Seq<char>)> {
    v.map_values(|p: (String, String)| (p.0@, p.1@))
}

spec fn present(v: Option<&Json>) -> Option<Json> {
    match v {
        Some(x) => Some(*x),
        None => None,
    }
}

fn get_item<'a>(v: &'a Json, key: &str) -> (r: Option<&'a Json>)
    ensures
        present(r) == item_get(*v, key@),
{
    match v {
        Json::Object(fields) => match find_field(fields, key) {
            Some(i) => Some(&fields[i].1),
            None => None,
        },
        _ => None,
    }
}

fn text_of<'a>(v: Option<&'a Json>) -> (r: Option<&'a String>)
    ensures
        match r {
            Some(s) => as_text(present(v)) == Some(s@),
            None => as_text(present(v)) is None,
        },
{
    match v {
        Some(Json::Text(s)) => Some(s),
        _ => None,
    }
}

fn either<'a>(a: Option<&'a Json>, b: Option<&'a Json>) -> (r: Option<&'a Json>)
    ensures
        present(r) == first_present(present(a), present(b)),
{
    match a {
        Some(x) => Some(x),
        None => b,
    }
}

fn is_video_id(id: &[char]) -> (b: bool)
    ensures
        b == video_id(id@),
{
    if id.len() != 11 {
        return false;
    }
    let mut i: usize = 0;
    while i < id.len()
        invariant
            i <= id@.len(),
            forall|k: int| 0 <= k < i ==> video_id_char(#[trigger] id@[k]),
        decreases id@.len() - i,
    {
        let c = id[i];
        let ok = ('0' <= c && c <= '9') || ('a' <= c && c <= 'z') || ('A' <= c && c <= 'Z') || c == '_' || c == '-';
        if !ok {
            assert(!video_id_char(id@[i as int]));
            return false;
        }
        i = i + 1;
    }
    true
}

fn trailer_link(item: &Json) -> (r: Option<String>)
    ensures
        match r {
            Some(u) => trailer_url(*item) == Some(u@),
            None => trailer_url(*item) is None,
        },
{
    let direct = match text_of(get_item(item, "url")) {
        Some(u) => web_link(u.as_str()),
        None => None,
    };
    if direct.is_some() {
        return direct;
    }
    match text_of(either(get_item(item, "ytId"), get_item(item, "source"))) {
        Some(id) => {
            let idc = chars_of(id.as_str());
            if is_video_id(idc.as_slice()) {
                let mut u = chars_of("https://www.youtube.com/watch?v=");
                extend_chars(&mut u, idc.as_slice());
                Some(string_of(u.as_slice()))
            } else {
                None
            }
        },
        None => None,
    }
}

fn trailer_name(item: &Json) -> (r: String)
    ensures
        r@ == trailer_title(*item),
{
    match text_of(either(get_item(item, "title"), get_item(item, "type"))) {
        Some(t) => string_of(chars_of(t.as_str()).as_slice()),
        None => string_of(chars_of("Trailer").as_slice()),
    }
}

fn lists_url(list: &Vec<(String, String)>, u: &[char]) -> (b: bool)
    ensures
        b == has_url(pair_views(list@), u@),
{
    let mut i: usize = 0;
    while i < list.len()
        invariant
            i <= list@.len(),
            forall|j: int| 0 <= j < i ==> list@[j].1@ != u@,
        decreases list@.len() - i,
    {
        let c = chars_of(list[i].1.as_str());
        if equal_chars(c.as_slice(), u) {
            assert(pair_views(list@)[i as int].1 == u@);
            return true;
        }
        i = i + 1;
    }
    assert forall|j: int| 0 <= j < pair_views(list@).len() implies (#[trigger] pair_views(list@)[j]).1 != u@ by {
        assert(pair_views(list@)[j].1 == list@[j].1@);
    }
    false
}

fn add_trailer_to(list: &mut Vec<(String, String)>, item: &Json)
    ensures
        pair_views(final(list)@) == add_trailer(pair_views(old(list)@), *item),
{
    match trailer_link(item) {
        Some(u) => {
            let uc = chars_of(u.as_str());
            if !lists_url(list, uc.as_slice()) {
                let title = trailer_name(item);
                let ghost before = list@;
                let ghost entry = (title@, u@);
                list.push((title, u));
                assert(pair_views(list@) =~= pair_views(before).push(entry));
            }
        },
        None => {},
    }
}

fn add_trailers_to(list: &mut Vec<(String, String)>, items: &Vec<Json>)
    ensures
        pair_views(final(list)@) == add_trailers(pair_views(old(list)@), items@),
{
    let mut i: usize = 0;
    assert(items@.skip(0) =~= items@);
    while i < items.len()
        invariant
            i <= items@.len(),
            add_trailers(pair_views(list@), items@.skip(i as int)) == add_trailers(pair_views(old(list)@), items@),
        decreases items@.len() - i,
    {
        assert(items@.skip(i as int)[0] == items@[i as int]);
        assert(items@.skip(i as int).drop_first() =~= items@.skip(i + 1));
        add_trailer_to(list, &items[i]);
        i = i + 1;
    }
}

fn add_array_trailers(list: &mut Vec<(String, String)>, fields: &Vec<(String, Json)>, key: &str)
    ensures
        pair_views(final(list)@) == add_trailers(pair_views(old(list)@), array_items(fields@, key@)),
{
    match find_field(fields, key) {
        Some(k) => match &fields[k].1 {
            Json::Array(items) => add_trailers_to(list, items),
            _ => {},
        },
        None => {},
    }
}

/// The trailers of a title, as (title, URL) pairs, each URL once.
pub fn trailers(meta: &TitleMeta) -> (r: Vec<(String, String)>)
    ensures
        pair_views(r@) == trailers_of(meta.extra@),
{
    let mut r: Vec<(String, String)> = Vec::new();
    assert(pair_views(r@) =~= Seq::<(Seq<char>, Seq<char>)>::empty());
    add_array_trailers(&mut r, &meta.extra, "trailers");
    add_array_trailers(&mut r, &meta.extra, "trailerStreams");
    r
}

/// Every URL appears once in the list.
pub open spec fn distinct_urls(list: Seq<(Seq<char>, Seq<char>)>) -> bool {
    forall|i: int, j: int| 0 <= i < j < list.len() ==> (#[trigger] list[i]).1 != (#[trigger] list[j]).1
}

/// A URL a trailer may open: a safe web link, or the YouTube page of a video id.
pub open spec fn safe_trailer_url(u: Seq<char>) -> bool {
    ||| exists|s: Seq<char>| web_link_of(s) == Some(u)
    ||| exists|id: Seq<char>| video_id(id) && u == "https://www.youtube.com/watch?v="@ + id
}

proof fn lemma_add_trailers_keeps_urls_safe(list: Seq<(Seq<char>, Seq<char>)>, items: Seq<Json>)
    requires
        distinct_urls(list),
        forall|i: int| 0 <= i < list.len() ==> safe_trailer_url(#[trigger] list[i].1),
    ensures
        distinct_urls(add_trailers(list, items)),
        forall|i: int| 0 <= i < add_trailers(list, items).len() ==> safe_trailer_url(#[trigger] add_trailers(list, items)[i].1),
    decreases items.len(),
{
    if items.len() > 0 {
        let next = add_trailer(list, items[0]);
        match trailer_url(items[0]) {
            Some(u) => {
                if !has_url(list, u) {
                    assert(safe_trailer_url(u)) by {
                        let item = items[0];
                        let direct = match as_text(item_get(item, "url"@)) {
                            Some(x) => web_link_of(x),
                            None => None,
                        };
                        if direct is Some {
                            let x = as_text(item_get(item, "url"@))->0;
                            assert(web_link_of(x) == Some(u));
                        } else {
                            let id = as_text(first_present(item_get(item, "ytId"@), item_get(item, "source"@)))->0;
                            assert(video_id(id) && u == "https://www.youtube.com/watch?v="@ + id);
                        }
                    }
                    assert forall|i: int, j: int| 0 <= i < j < next.len() implies (#[trigger] next[i]).1 != (#[trigger] next[j]).1 by {
                        if j == list.len() {
                            assert(next[i] == list[i]);
                        } else {
                            assert(next[i] == list[i] && next[j] == list[j]);
                        }
                    }
                    assert forall|i: int| 0 <= i < next.len() implies safe_trailer_url(#[trigger] next[i].1) by {
                        if i < list.len() {
                            assert(next[i] == list[i]);
                        }
                    }
                }
            },
            None => {},
        }
        lemma_add_trailers_keeps_urls_safe(next, items.drop_first());
    }
}

/// A title's trailers list each URL once, and every one of them is a safe web link or the
/// YouTube page of a video id.
pub proof fn lemma_trailers_are_safe_and_unique(fields: Seq<(String, Json)>)
    ensures
        distinct_urls(trailers_of(fields)),
        forall|i: int| 0 <= i < trailers_of(fields).len() ==> safe_trailer_url(#[trigger] trailers_of(fields)[i].1),
{
    let empty = Seq::<(Seq<char>, Seq<char>)>::empty();
    lemma_add_trailers_keeps_urls_safe(empty, array_items(fields, "trailers"@));
    lemma_add_trailers_keeps_urls_safe(add_trailers(empty, array_items(fields, "trailers"@)), array_items(fields, "trailerStreams"@));
}

/// The titles of the rows of a title's details table, in order.
pub open spec fn info_title(i: int) -> Seq<char> {
    if i == 0 { "Director"@ } else if i == 1 { "Writer"@ } else if i == 2 { "Creators"@ } else if i == 3 {
        "Release"@
    } else if i == 4 { "Runtime"@ } else if i == 5 { "Rating"@ } else if i == 6 { "IMDb"@ } else if i == 7 {
        "Country"@
    } else if i == 8 { "Language"@ } else if i == 9 { "Status"@ } else if i == 10 { "Network"@ } else {
        "Awards"@
    }
}

/// The metadata fields each row of the details table reads, first alias first.
pub open spec fn info_aliases(i: int) -> Seq<Seq<char>> {
    if i == 0 { seq!["director"@, "directors"@] } else if i == 1 { seq!["writer"@, "writers"@] } else if i == 2 {
        seq!["creator"@, "creators"@]
    } else if i == 3 { seq!["releaseInfo"@, "year"@, "released"@] } else if i == 4 { seq!["runtime"@] } else if i == 5 {
        seq!["certification"@, "contentRating"@, "ageRating"@]
    } else if i == 6 { seq!["imdbRating"@] } else if i == 7 { seq!["country"@, "countries"@] } else if i == 8 {
        seq!["language"@, "languages"@]
    } else if i == 9 { seq!["status"@] } else if i == 10 { seq!["network"@, "networks"@] } else { seq!["awards"@] }
}

/// The values of a details row; languages are shown by name.
pub open spec fn info_values(fields: Seq<(String, Json)>, i: int) -> Seq<Seq<char>> {
    let v = field_texts(fields, info_aliases(i));
    if i == 8 {
        v.map_values(|c: Seq<char>| language_display(c))
    } else {
        v
    }
}

/// The details table over its first `n` rows: each row with any value, its values joined
/// with commas.
pub open spec fn info_rows(fields: Seq<(String, Json)>, n: int) -> Seq<(Seq<char>, Seq<char>)>
    decreases n,
{
    if n <= 0 {
        Seq::empty()
    } else {
        let rest = info_rows(fields, n - 1);
        let v = info_values(fields, n - 1);
        if v.len() > 0 {
            rest.push((info_title(n - 1), joined(v, ", "@)))
        } else {
            rest
        }
    }
}

fn info_row(i: usize) -> (r: (&'static str, Vec<&'static str>))
    requires
        i < 12,
    ensures
        r.0@ == info_title(i as int),
        r.1@.map_values(|a: &str| a@) == info_aliases(i as int),
{
    let r: (&'static str, Vec<&'static str>) = if i == 0 {
        ("Director", vec!["director", "directors"])
    } else if i == 1 {
        ("Writer", vec!["writer", "writers"])
    } else if i == 2 {
        ("Creators", vec!["creator", "creators"])
    } else if i == 3 {
        ("Release", vec!["releaseInfo", "year", "released"])
    } else if i == 4 {
        ("Runtime", vec!["runtime"])
    } else if i == 5 {
        ("Rating", vec!["certification", "contentRating", "ageRating"])
    } else if i == 6 {
        ("IMDb", vec!["imdbRating"])
    } else if i == 7 {
        ("Country", vec!["country", "countries"])
    } else if i == 8 {
        ("Language", vec!["language", "languages"])
    } else if i == 9 {
        ("Status", vec!["status"])
    } else if i == 10 {
        ("Network", vec!["network", "networks"])
    } else {
        ("Awards", vec!["awards"])
    };
    assert(r.1@.map_values(|a: &str| a@) =~= info_aliases(i as int));
    r
}

/// The rows of a title's details table: (title, values joined with commas).
pub fn detail_rows(meta: &TitleMeta) -> (r: Vec<(String, String)>)
    ensures
        pair_views(r@) == info_rows(meta.extra@, 12),
{
    let fields = &meta.extra;
    let mut r: Vec<(String, String)> = Vec::new();
    let mut i: usize = 0;
    while i < 12
        invariant
            i <= 12,
            fields == &meta.extra,
            pair_views(r@) == info_rows(meta.extra@, i as int),
        decreases 12 - i,
    {
        let (title, aliases) = info_row(i);
        let values = field_chars(fields, aliases.as_slice());
        let shown = if i == 8 {
            let mut named: Vec<Vec<char>> = Vec::new();
            let mut k: usize = 0;
            while k < values.len()
                invariant
                    k <= values@.len(),
                    views(named@) == views(values@).take(k as int).map_values(|c: Seq<char>| language_display(c)),
                decreases values@.len() - k,
            {
                let n = chars_of(name(string_of(values[k].as_slice()).as_str()).as_str());
                let ghost before = views(named@);
                let ghost nv = n@;
                named.push(n);
                assert(views(named@) =~= before.push(nv));
                assert(views(values@).take(k + 1).map_values(|c: Seq<char>| language_display(c))
                    =~= views(values@).take(k as int).map_values(|c: Seq<char>| language_display(c)).push(language_display(values@[k as int]@)));
                k = k + 1;
            }
            assert(views(values@).take(values@.len() as int) =~= views(values@));
            named
        } else {
            values
        };
        assert(views(shown@) == info_values(meta.extra@, i as int));
        if shown.len() > 0 {
            let text = join_chars(&shown, ", ");
            let ghost before = pair_views(r@);
            let pair = (string_of(chars_of(title).as_slice()), string_of(text.as_slice()));
            let ghost pv = (pair.0@, pair.1@);
            r.push(pair);
            assert(pair_views(r@) =~= before.push(pv));
        }
        i = i + 1;
    }
    r
}

/// A link of the "Explore more" list: an item's name and its safe web link, when it has both.
pub open spec fn link_of(item: Json) -> Option<(Seq<char>, Seq<char>)> {
    match (as_text(item_get(item, "name"@)), as_text(item_get(item, "url"@))) {
        (Some(n), Some(u)) => match web_link_of(u) {
            Some(w) => Some((n, w)),
            None => None,
        },
        _ => None,
    }
}

/// The links of the items, in order.
pub open spec fn links_of(items: Seq<Json>) -> Seq<(Seq<char>, Seq<char>)>
    decreases items.len(),
{
    if items.len() == 0 {
        Seq::empty()
    } else {
        match link_of(items.last()) {
            Some(l) => links_of(items.drop_last()).push(l),
            None => links_of(items.drop_last()),
        }
    }
}

/// The most items of the "links" field that are looked at.
pub const LINK_LIMIT: usize = 12;

/// The "Explore more" links of a title: from its first twelve `links` items, those with a name
/// and a safe web link.
pub fn extra_links(meta: &TitleMeta) -> (r: Vec<(String, String)>)
    ensures
        ({
            let items = array_items(meta.extra@, "links"@);
            pair_views(r@) == links_of(items.take(if items.len() < LINK_LIMIT { items.len() as int } else { LINK_LIMIT as int }))
        }),
{
    let mut r: Vec<(String, String)> = Vec::new();
    match find_field(&meta.extra, "links") {
        Some(f) => match &meta.extra[f].1 {
            Json::Array(items) => {
                let n = if items.len() < LINK_LIMIT { items.len() } else { LINK_LIMIT };
                let mut i: usize = 0;
                assert(items@.take(0) =~= Seq::<Json>::empty());
                while i < n
                    invariant
                        n <= items@.len(),
                        i <= n,
                        pair_views(r@) == links_of(items@.take(i as int)),
                    decreases n - i,
                {
                    let item = &items[i];
                    assert(items@.take(i + 1).drop_last() =~= items@.take(i as int));
                    assert(items@.take(i + 1).last() == *item);
                    let name_text = text_of(get_item(item, "name"));
                    let url_text = text_of(get_item(item, "url"));
                    match (name_text, url_text) {
                        (Some(nm), Some(u)) => match web_link(u.as_str()) {
                            Some(w) => {
                                let ghost before = pair_views(r@);
                                let pair = (string_of(chars_of(nm.as_str()).as_slice()), w);
                                let ghost pv = (pair.0@, pair.1@);
                                r.push(pair);
                                assert(pair_views(r@) =~= before.push(pv));
                            },
                            None => {},
                        },
                        _ => {},
                    }
                    i = i + 1;
                }
                r
            },
            _ => r,
        },
        None => r,
    }
}

} // verus!
