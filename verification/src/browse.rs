//! Browsing addon catalogs: which catalogs Home and Search show, the filters a catalog asks
//! for, and the paging of a catalog grid.
use vstd::prelude::*;
use crate::catalogs::{item_key, CatalogItem};
use crate::settings::texts;
use crate::text::{chars_of, decimal, decimal_chars, extend_chars, same_chars, string_of, trim, trimmed};

verus! {

/// An extra property a catalog takes, such as `search`, `genre` or `skip`.
#[derive(Debug)]
pub struct CatalogExtra {
    pub name: String,
    pub required: bool,
    /// The only values the addon accepts, when it lists them.
    pub options: Option<Vec<String>>,
}

/// A catalog of an addon, as browsing reads it.
#[derive(Debug)]
pub struct CatalogInfo {
    pub content_type: String,
    pub id: String,
    pub name: Option<String>,
    pub extras: Vec<CatalogExtra>,
    /// The catalog can only be searched, not browsed.
    pub search_only: bool,
    /// The catalog can be searched.
    pub searchable: bool,
}

/// An installed addon with its catalogs.
#[derive(Debug)]
pub struct AddonInfo {
    pub installation_id: String,
    pub name: String,
    pub enabled: bool,
    pub catalogs: Vec<CatalogInfo>,
}

/// The catalog declares an extra of this name.
pub open spec fn has_extra(c: CatalogInfo, name: Seq<char>) -> bool {
    exists|i: int| 0 <= i < c.extras@.len() && (#[trigger] c.extras@[i]).name@ == name
}

/// Home shows the catalog: its addon is enabled, its type is the one chosen (if any), it
/// can be browsed, and it is not a feed of series updates.
pub open spec fn home_catalog(addon: AddonInfo, c: CatalogInfo, filter: Option<Seq<char>>) -> bool {
    &&& addon.enabled
    &&& match filter {
        Some(f) => c.content_type@ == f,
        None => true,
    }
    &&& !c.search_only
    &&& !has_extra(c, "lastVideosIds"@)
}

/// Search queries the catalog: its addon is enabled and it can be searched.
pub open spec fn search_catalog(addon: AddonInfo, c: CatalogInfo) -> bool {
    addon.enabled && c.searchable
}

/// Position `p` comes before position `q` when listing catalogs addon by addon.
pub open spec fn pair_before(p: (usize, usize), q: (usize, usize)) -> bool {
    p.0 < q.0 || (p.0 == q.0 && p.1 < q.1)
}

/// `(a, c)` names catalog `c` of addon `a`.
pub open spec fn valid_pair(addons: Seq<AddonInfo>, p: (usize, usize)) -> bool {
    p.0 < addons.len() && p.1 < addons[p.0 as int].catalogs@.len()
}

fn declares_extra(c: &CatalogInfo, name: &str) -> (b: bool)
    ensures
        b == has_extra(*c, name@),
{
    let mut i: usize = 0;
    while i < c.extras.len()
        invariant
            i <= c.extras@.len(),
            forall|j: int| 0 <= j < i ==> (#[trigger] c.extras@[j]).name@ != name@,
        decreases c.extras@.len() - i,
    {
        if same_chars(chars_of(c.extras[i].name.as_str()).as_slice(), name) {
            return true;
        }
        i = i + 1;
    }
    false
}

fn shows_on_home(addon: &AddonInfo, c: &CatalogInfo, filter: Option<&str>) -> (b: bool)
    ensures
        b == home_catalog(*addon, *c, match filter {
            Some(f) => Some(f@),
            None => None,
        }),
{
    let type_ok = match filter {
        Some(f) => same_chars(chars_of(c.content_type.as_str()).as_slice(), f),
        None => true,
    };
    addon.enabled && type_ok && !c.search_only && !declares_extra(c, "lastVideosIds")
}

/// The catalogs Home shows, addon by addon, each by its addon's and its own position.
pub fn home_catalogs(addons: &Vec<AddonInfo>, filter: Option<&str>) -> (r: Vec<(usize, usize)>)
    ensures
        forall|i: int| 0 <= i < r@.len() ==> valid_pair(addons@, #[trigger] r@[i])
            && home_catalog(addons@[r@[i].0 as int], addons@[r@[i].0 as int].catalogs@[r@[i].1 as int], match filter {
                Some(f) => Some(f@),
                None => None,
            }),
        forall|a: usize, c: usize| valid_pair(addons@, (a, c)) && home_catalog(addons@[a as int], #[trigger] addons@[a as int].catalogs@[c as int], match filter {
                Some(f) => Some(f@),
                None => None,
            }) ==> r@.contains((a, c)),
        forall|i: int, j: int| 0 <= i < j < r@.len() ==> pair_before(#[trigger] r@[i], #[trigger] r@[j]),
{
    let ghost wanted = match filter {
        Some(f) => Some(f@),
        None => None::<Seq<char>>,
    };
    let mut r: Vec<(usize, usize)> = Vec::new();
    let mut a: usize = 0;
    while a < addons.len()
        invariant
            a <= addons@.len(),
            wanted == match filter {
                Some(f) => Some(f@),
                None => None::<Seq<char>>,
            },
            forall|i: int| 0 <= i < r@.len() ==> valid_pair(addons@, #[trigger] r@[i]) && r@[i].0 < a
                && home_catalog(addons@[r@[i].0 as int], addons@[r@[i].0 as int].catalogs@[r@[i].1 as int], wanted),
            forall|x: usize, c: usize| x < a && valid_pair(addons@, (x, c)) && home_catalog(addons@[x as int], #[trigger] addons@[x as int].catalogs@[c as int], wanted)
                ==> r@.contains((x, c)),
            forall|i: int, j: int| 0 <= i < j < r@.len() ==> pair_before(#[trigger] r@[i], #[trigger] r@[j]),
        decreases addons@.len() - a,
    {
        let addon = &addons[a];
        let mut c: usize = 0;
        let ghost start = r@.len();
        while c < addon.catalogs.len()
            invariant
                a < addons@.len(),
                *addon == addons@[a as int],
                c <= addon.catalogs@.len(),
                start <= r@.len(),
                wanted == match filter {
                    Some(f) => Some(f@),
                    None => None::<Seq<char>>,
                },
                forall|i: int| 0 <= i < r@.len() ==> valid_pair(addons@, #[trigger] r@[i])
                    && home_catalog(addons@[r@[i].0 as int], addons@[r@[i].0 as int].catalogs@[r@[i].1 as int], wanted),
                forall|i: int| 0 <= i < start ==> (#[trigger] r@[i]).0 < a,
                forall|i: int| start <= i < r@.len() ==> (#[trigger] r@[i]).0 == a && r@[i].1 < c,
                forall|x: usize, k: usize| x < a && valid_pair(addons@, (x, k)) && home_catalog(addons@[x as int], #[trigger] addons@[x as int].catalogs@[k as int], wanted)
                    ==> r@.contains((x, k)),
                forall|k: usize| k < c && home_catalog(addons@[a as int], #[trigger] addons@[a as int].catalogs@[k as int], wanted)
                    ==> r@.contains((a, k)),
                forall|i: int, j: int| 0 <= i < j < r@.len() ==> pair_before(#[trigger] r@[i], #[trigger] r@[j]),
            decreases addon.catalogs@.len() - c,
        {
            let show = shows_on_home(addon, &addon.catalogs[c], filter);
            assert(addon.catalogs@[c as int] == addons@[a as int].catalogs@[c as int]);
            assert(show == home_catalog(addons@[a as int], addons@[a as int].catalogs@[c as int], wanted));
            if show {
                let ghost before = r@;
                r.push((a, c));
                assert forall|x: (usize, usize)| before.contains(x) implies r@.contains(x) by {
                    let i = choose|i: int| 0 <= i < before.len() && before[i] == x;
                    assert(r@[i] == x);
                }
                assert(r@[before.len() as int] == (a, c));
            }
            c = c + 1;
        }
        a = a + 1;
    }
    r
}

fn catalog_searchable(addon: &AddonInfo, c: &CatalogInfo) -> (b: bool)
    ensures
        b == search_catalog(*addon, *c),
{
    addon.enabled && c.searchable
}

/// The catalogs a search queries, addon by addon.
pub fn search_catalogs(addons: &Vec<AddonInfo>) -> (r: Vec<(usize, usize)>)
    ensures
        forall|i: int| 0 <= i < r@.len() ==> valid_pair(addons@, #[trigger] r@[i])
            && search_catalog(addons@[r@[i].0 as int], addons@[r@[i].0 as int].catalogs@[r@[i].1 as int]),
        forall|a: usize, c: usize| valid_pair(addons@, (a, c)) && search_catalog(addons@[a as int], #[trigger] addons@[a as int].catalogs@[c as int])
            ==> r@.contains((a, c)),
        forall|i: int, j: int| 0 <= i < j < r@.len() ==> pair_before(#[trigger] r@[i], #[trigger] r@[j]),
{
    let mut r: Vec<(usize, usize)> = Vec::new();
    let mut a: usize = 0;
    while a < addons.len()
        invariant
            a <= addons@.len(),
            forall|i: int| 0 <= i < r@.len() ==> valid_pair(addons@, #[trigger] r@[i]) && r@[i].0 < a
                && search_catalog(addons@[r@[i].0 as int], addons@[r@[i].0 as int].catalogs@[r@[i].1 as int]),
            forall|x: usize, c: usize| x < a && valid_pair(addons@, (x, c)) && search_catalog(addons@[x as int], #[trigger] addons@[x as int].catalogs@[c as int])
                ==> r@.contains((x, c)),
            forall|i: int, j: int| 0 <= i < j < r@.len() ==> pair_before(#[trigger] r@[i], #[trigger] r@[j]),
        decreases addons@.len() - a,
    {
        let addon = &addons[a];
        let mut c: usize = 0;
        let ghost start = r@.len();
        while c < addon.catalogs.len()
            invariant
                a < addons@.len(),
                *addon == addons@[a as int],
                c <= addon.catalogs@.len(),
                start <= r@.len(),
                forall|i: int| 0 <= i < r@.len() ==> valid_pair(addons@, #[trigger] r@[i])
                    && search_catalog(addons@[r@[i].0 as int], addons@[r@[i].0 as int].catalogs@[r@[i].1 as int]),
                forall|i: int| 0 <= i < start ==> (#[trigger] r@[i]).0 < a,
                forall|i: int| start <= i < r@.len() ==> (#[trigger] r@[i]).0 == a && r@[i].1 < c,
                forall|x: usize, k: usize| x < a && valid_pair(addons@, (x, k)) && search_catalog(addons@[x as int], #[trigger] addons@[x as int].catalogs@[k as int])
                    ==> r@.contains((x, k)),
                forall|k: usize| k < c && search_catalog(addons@[a as int], #[trigger] addons@[a as int].catalogs@[k as int])
                    ==> r@.contains((a, k)),
                forall|i: int, j: int| 0 <= i < j < r@.len() ==> pair_before(#[trigger] r@[i], #[trigger] r@[j]),
            decreases addon.catalogs@.len() - c,
        {
            if catalog_searchable(addon, &addon.catalogs[c]) {
                let ghost before = r@;
                r.push((a, c));
                assert forall|x: (usize, usize)| before.contains(x) implies r@.contains(x) by {
                    let i = choose|i: int| 0 <= i < before.len() && before[i] == x;
                    assert(r@[i] == x);
                }
                assert(r@[before.len() as int] == (a, c));
            }
            c = c + 1;
        }
        a = a + 1;
    }
    r
}

/// The catalog needs filter values before it can be browsed: it requires an extra other than
/// `skip` (and, when searching, other than `search`, which the search term fills).
pub open spec fn needs_filter_values(c: CatalogInfo, searching: bool) -> bool {
    exists|i: int| 0 <= i < c.extras@.len() && (#[trigger] c.extras@[i]).required && c.extras@[i].name@ != "skip"@
        && !(searching && c.extras@[i].name@ == "search"@)
}

/// Whether a catalog must ask for filters first.
pub fn needs_filters(c: &CatalogInfo, searching: bool) -> (b: bool)
    ensures
        b == needs_filter_values(*c, searching),
{
    let mut i: usize = 0;
    while i < c.extras.len()
        invariant
            i <= c.extras@.len(),
            forall|j: int| 0 <= j < i ==> !((#[trigger] c.extras@[j]).required && c.extras@[j].name@ != "skip"@
                && !(searching && c.extras@[j].name@ == "search"@)),
        decreases c.extras@.len() - i,
    {
        let e = &c.extras[i];
        let n = chars_of(e.name.as_str());
        if e.required && !same_chars(n.as_slice(), "skip") && !(searching && same_chars(n.as_slice(), "search")) {
            return true;
        }
        i = i + 1;
    }
    false
}

/// A catalog's title: its name, or its id when it has none.
pub open spec fn catalog_title_of(c: CatalogInfo) -> Seq<char> {
    match c.name {
        Some(n) => n@,
        None => c.id@,
    }
}

/// The heading of a catalog: its title, followed by its addon's name in search results.
pub fn catalog_heading(c: &CatalogInfo, addon_name: Option<&str>) -> (r: String)
    ensures
        r@ == match addon_name {
            Some(a) => catalog_title_of(*c) + " · "@ + a@,
            None => catalog_title_of(*c),
        },
{
    let mut out = match &c.name {
        Some(n) => chars_of(n.as_str()),
        None => chars_of(c.id.as_str()),
    };
    match addon_name {
        Some(a) => {
            extend_chars(&mut out, chars_of(" · ").as_slice());
            extend_chars(&mut out, chars_of(a).as_slice());
        },
        None => {},
    }
    string_of(out.as_slice())
}

/// The navigation section a content-type filter belongs to.
pub fn section_for(filter: Option<&str>) -> (r: &'static str)
    ensures
        r@ == match filter {
            Some(f) => if f@ == "movie"@ {
                "Movies"@
            } else if f@ == "series"@ {
                "Series"@
            } else {
                "Home"@
            },
            None => "Home"@,
        },
{
    match filter {
        Some(f) => {
            let t = chars_of(f);
            if same_chars(t.as_slice(), "movie") {
                "Movies"
            } else if same_chars(t.as_slice(), "series") {
                "Series"
            } else {
                "Home"
            }
        },
        None => "Home",
    }
}

/// What an empty Home suggests: kids need an adult to choose addons.
pub fn empty_home_text(kids: bool) -> (r: &'static str)
    ensures
        r@ == if kids {
            "An adult can choose addons to fill your home with movies and shows."@
        } else {
            "Add your favorite addons in Settings to discover movies and shows."@
        },
{
    if kids {
        "An adult can choose addons to fill your home with movies and shows."
    } else {
        "Add your favorite addons in Settings to discover movies and shows."
    }
}

/// The extras a catalog's filter form asks for: all but `skip`, by position.
pub open spec fn form_extra(c: CatalogInfo, i: int) -> bool {
    0 <= i < c.extras@.len() && c.extras@[i].name@ != "skip"@
}

/// The positions of the extras a catalog's filter form asks for, in order.
pub fn filter_fields(c: &CatalogInfo) -> (r: Vec<usize>)
    ensures
        forall|i: int| 0 <= i < r@.len() ==> form_extra(*c, #[trigger] r@[i] as int),
        forall|k: int| form_extra(*c, k) ==> r@.contains(k as usize),
        forall|i: int, j: int| 0 <= i < j < r@.len() ==> #[trigger] r@[i] < #[trigger] r@[j],
{
    let mut r: Vec<usize> = Vec::new();
    let mut i: usize = 0;
    while i < c.extras.len()
        invariant
            i <= c.extras@.len(),
            forall|q: int| 0 <= q < r@.len() ==> form_extra(*c, #[trigger] r@[q] as int) && r@[q] < i,
            forall|k: int| 0 <= k < i && form_extra(*c, k) ==> r@.contains(k as usize),
            forall|a: int, b: int| 0 <= a < b < r@.len() ==> #[trigger] r@[a] < #[trigger] r@[b],
        decreases c.extras@.len() - i,
    {
        if !same_chars(chars_of(c.extras[i].name.as_str()).as_slice(), "skip") {
            let ghost before = r@;
            r.push(i);
            assert forall|k: int| 0 <= k < i + 1 && form_extra(*c, k) implies r@.contains(k as usize) by {
                if k < i {
                    let q = choose|q: int| 0 <= q < before.len() && before[q] == k as usize;
                    assert(r@[q] == k as usize);
                } else {
                    assert(r@[before.len() as int] == i);
                }
            }
        }
        i = i + 1;
    }
    r
}

/// The label of a filter field: the extra's name, marked when required.
pub fn field_label(e: &CatalogExtra) -> (r: String)
    ensures
        r@ == if e.required { e.name@ + " (required)"@ } else { e.name@ },
{
    let mut out = chars_of(e.name.as_str());
    if e.required {
        extend_chars(&mut out, chars_of(" (required)").as_slice());
    }
    string_of(out.as_slice())
}

/// A value the field accepts: required fields need a value, and a value must be one of
/// the listed choices when the addon lists them.
pub open spec fn value_accepted(e: CatalogExtra, value: Seq<char>) -> bool {
    !(e.required && value.len() == 0) && !(value.len() > 0 && match e.options {
        Some(o) => !texts(o@).contains(value),
        None => false,
    })
}

/// The result of submitting a filter form: the first field whose trimmed value is not
/// accepted, else the non-empty trimmed values by name, in form order.
pub open spec fn form_result(extras: Seq<CatalogExtra>, values: Seq<Seq<char>>) -> Result<Seq<(Seq<char>, Seq<char>)>, Seq<char>>
    decreases extras.len(),
{
    if extras.len() == 0 || values.len() == 0 {
        Ok(Seq::empty())
    } else {
        let v = trimmed(values[0]);
        if !value_accepted(extras[0], v) {
            Err("Enter a valid value for "@ + extras[0].name@ + "."@)
        } else {
            match form_result(extras.drop_first(), values.drop_first()) {
                Ok(rest) => if v.len() > 0 {
                    Ok(seq![(extras[0].name@, v)] + rest)
                } else {
                    Ok(rest)
                },
                Err(e) => Err(e),
            }
        }
    }
}

fn accepted(e: &CatalogExtra, value: &[char]) -> (b: bool)
    ensures
        b == value_accepted(*e, value@),
{
    if e.required && value.len() == 0 {
        return false;
    }
    if value.len() > 0 {
        match &e.options {
            Some(o) => {
                let mut i: usize = 0;
                while i < o.len()
                    invariant
                        i <= o@.len(),
                        !(e.required && value@.len() == 0),
                        value@.len() > 0,
                        e.options == Some(*o),
                        forall|j: int| 0 <= j < i ==> (#[trigger] o@[j])@ != value@,
                    decreases o@.len() - i,
                {
                    if crate::text::equal_chars(chars_of(o[i].as_str()).as_slice(), value) {
                        assert(texts(o@)[i as int] == value@);
                        assert(texts(o@).contains(value@));
                        return true;
                    }
                    i = i + 1;
                }
                assert forall|j: int| 0 <= j < texts(o@).len() implies
                    #[trigger] texts(o@)[j] != value@ by {
                    assert(texts(o@)[j] == o@[j]@);
                }
                return false;
            },
            None => {},
        }
    }
    true
}

/// Check the values entered in a filter form, one per field of `extras`, in order.
pub fn form_values(extras: &Vec<&CatalogExtra>, values: &Vec<String>) -> (r: Result<Vec<(String, String)>, String>)
    ensures
        match r {
            Ok(pairs) => form_result(extras@.map_values(|e: &CatalogExtra| *e), values@.map_values(|s: String| s@))
                == Ok::<Seq<(Seq<char>, Seq<char>)>, Seq<char>>(pairs@.map_values(|p: (String, String)| (p.0@, p.1@))),
            Err(e) => form_result(extras@.map_values(|e: &CatalogExtra| *e), values@.map_values(|s: String| s@))
                == Err::<Seq<(Seq<char>, Seq<char>)>, Seq<char>>(e@),
        },
{
    let ghost es = extras@.map_values(|e: &CatalogExtra| *e);
    let ghost vs = values@.map_values(|s: String| s@);
    let mut out: Vec<(String, String)> = Vec::new();
    let mut i: usize = 0;
    assert(es.skip(0) =~= es);
    assert(vs.skip(0) =~= vs);
    while i < extras.len() && i < values.len()
        invariant
            es == extras@.map_values(|e: &CatalogExtra| *e),
            vs == values@.map_values(|s: String| s@),
            i <= extras@.len(),
            i <= values@.len(),
            form_result(es, vs) == match form_result(es.skip(i as int), vs.skip(i as int)) {
                Ok(rest) => Ok(out@.map_values(|p: (String, String)| (p.0@, p.1@)) + rest),
                Err(e) => Err::<Seq<(Seq<char>, Seq<char>)>, Seq<char>>(e),
            },
        decreases extras@.len() - i,
    {
        let e = extras[i];
        let v = trim(chars_of(values[i].as_str()).as_slice());
        assert(es.skip(i as int)[0] == *e);
        assert(vs.skip(i as int)[0] == values@[i as int]@);
        assert(es.skip(i as int).drop_first() =~= es.skip(i + 1));
        assert(vs.skip(i as int).drop_first() =~= vs.skip(i + 1));
        if !accepted(e, v.as_slice()) {
            let mut msg = chars_of("Enter a valid value for ");
            extend_chars(&mut msg, chars_of(e.name.as_str()).as_slice());
            extend_chars(&mut msg, chars_of(".").as_slice());
            return Err(string_of(msg.as_slice()));
        }
        if v.len() > 0 {
            let ghost before = out@.map_values(|p: (String, String)| (p.0@, p.1@));
            let pair = (string_of(chars_of(e.name.as_str()).as_slice()), string_of(v.as_slice()));
            let ghost pv = (pair.0@, pair.1@);
            out.push(pair);
            assert(out@.map_values(|p: (String, String)| (p.0@, p.1@)) =~= before.push(pv));
            proof {
                match form_result(es.skip(i + 1), vs.skip(i + 1)) {
                    Ok(rest) => {
                        assert(before + (seq![pv] + rest) =~= before.push(pv) + rest);
                    },
                    Err(_) => {},
                }
            }
        }
        i = i + 1;
    }
    proof {
        if i == extras@.len() {
            assert(es.skip(i as int).len() == 0);
        } else {
            assert(vs.skip(i as int).len() == 0);
        }
        assert(out@.map_values(|p: (String, String)| (p.0@, p.1@)) + Seq::<(Seq<char>, Seq<char>)>::empty()
            =~= out@.map_values(|p: (String, String)| (p.0@, p.1@)));
    }
    Ok(out)
}

/// The `skip` value a catalog page request sends: the offset, only for catalogs that declare
/// paging.
pub fn skip_value(paginated: bool, offset: usize) -> (r: Option<String>)
    ensures
        match r {
            Some(s) => paginated && s@ == decimal(offset as nat),
            None => !paginated,
        },
{
    if paginated {
        Some(string_of(decimal_chars(offset as u64).as_slice()))
    } else {
        None
    }
}

/// The loading state of a catalog grid.
#[derive(Clone, Copy, Debug, PartialEq, Eq)]
pub struct GridLoad {
    pub loading: bool,
    pub failed: bool,
    pub exhausted: bool,
}

/// What a grid's periodic check decides.
#[derive(Clone, Copy, Debug, PartialEq, Eq)]
pub enum GridPoll {
    /// Every page is in; checking stops.
    Stop,
    /// Request the next page.
    Load,
    /// Nothing to do now.
    Wait,
}

impl GridLoad {
    /// A grid before its first page.
    pub fn new() -> (g: GridLoad)
        ensures
            g == (GridLoad { loading: false, failed: false, exhausted: false }),
    {
        GridLoad { loading: false, failed: false, exhausted: false }
    }

    /// Start requesting a page; `false` when a request is already running, and then
    /// nothing changes.
    pub fn begin(&mut self) -> (started: bool)
        ensures
            started == !old(self).loading,
            started ==> *final(self) == (GridLoad { loading: true, failed: false, ..*old(self) }),
            !started ==> *final(self) == *old(self),
    {
        if self.loading {
            return false;
        }
        self.loading = true;
        self.failed = false;
        true
    }

    /// The page request failed; returns the message shown with a retry button.
    pub fn fail(&mut self) -> (message: &'static str)
        ensures
            *final(self) == (GridLoad { loading: false, failed: true, ..*old(self) }),
            message@ == "Couldn’t load titles. Check your connection and retry."@,
    {
        self.loading = false;
        self.failed = true;
        "Couldn’t load titles. Check your connection and retry."
    }

    /// A page arrived; `exhausted` is what paging decided about it.
    pub fn arrived(&mut self, exhausted: bool)
        ensures
            *final(self) == (GridLoad { exhausted, ..*old(self) }),
    {
        self.exhausted = exhausted;
    }

    /// The arrived page is on screen; returns the grid's status line, given whether any
    /// title was shown so far.
    pub fn shown(&mut self, any_titles: bool) -> (status: &'static str)
        ensures
            *final(self) == (GridLoad { loading: false, ..*old(self) }),
            status@ == if !any_titles {
                "No titles found."@
            } else if old(self).exhausted {
                "All titles loaded."@
            } else {
                "Scroll for more"@
            },
    {
        self.loading = false;
        if !any_titles {
            "No titles found."
        } else if self.exhausted {
            "All titles loaded."
        } else {
            "Scroll for more"
        }
    }

    /// The periodic check: stop once exhausted; load the next page when idle, not failed,
    /// scrolled near the end, and the status line is in view.
    pub fn poll(&self, near_end: bool, in_view: bool) -> (r: GridPoll)
        ensures
            r == if self.exhausted {
                GridPoll::Stop
            } else if !self.loading && !self.failed && near_end && in_view {
                GridPoll::Load
            } else {
                GridPoll::Wait
            },
    {
        if self.exhausted {
            GridPoll::Stop
        } else if !self.loading && !self.failed && near_end && in_view {
            GridPoll::Load
        } else {
            GridPoll::Wait
        }
    }
}

/// What a search with `term` shows before any result: a prompt for an empty term.
pub fn search_prompt(term: &str) -> (r: Option<&'static str>)
    ensures
        trimmed(term@).len() == 0 ==> (r matches Some(t) && t@ == "Enter a movie or show title."@),
        trimmed(term@).len() > 0 ==> r is None,
{
    let t = trim(chars_of(term).as_slice());
    if t.len() == 0 {
        Some("Enter a movie or show title.")
    } else {
        None
    }
}

/// The most titles of one catalog that may be featured on Home.
pub const FEATURED_PER_CATALOG: usize = 24;

/// The featured titles after considering `items` in order: each title not featured yet is
/// added at the end.
pub open spec fn featured_after(pool: Seq<(Seq<char>, Seq<char>)>, items: Seq<CatalogItem>) -> Seq<(Seq<char>, Seq<char>)>
    decreases items.len(),
{
    if items.len() == 0 {
        pool
    } else {
        let p = featured_after(pool, items.drop_last());
        if p.contains(item_key(items.last())) {
            p
        } else {
            p.push(item_key(items.last()))
        }
    }
}

/// The first titles of a catalog, as many as may be featured.
pub open spec fn featured_part(items: Seq<CatalogItem>) -> Seq<CatalogItem> {
    items.take(if items.len() < FEATURED_PER_CATALOG { items.len() as int } else { FEATURED_PER_CATALOG as int })
}

/// The featured titles by key, as character sequences.
pub open spec fn pool_view(pool: Seq<(String, String)>) -> Seq<(Seq<char>, Seq<char>)> {
    pool.map_values(|k: (String, String)| (k.0@, k.1@))
}

/// Add the first titles of a loaded catalog to the titles Home may feature, each title once;
/// returns the positions of the titles added, in order.
pub fn add_featured(pool: &mut Vec<(String, String)>, items: &Vec<CatalogItem>) -> (added: Vec<usize>)
    ensures
        pool_view(final(pool)@) == featured_after(pool_view(old(pool)@), featured_part(items@)),
        final(pool)@.len() == old(pool)@.len() + added@.len(),
        forall|j: int| 0 <= j < added@.len() ==> (#[trigger] added@[j]) < items@.len()
            && pool_view(final(pool)@)[old(pool)@.len() + j] == item_key(items@[added@[j] as int]),
{
    let n = if items.len() < FEATURED_PER_CATALOG { items.len() } else { FEATURED_PER_CATALOG };
    let ghost part = featured_part(items@);
    let ghost start = pool_view(pool@);
    let ghost start_len = pool@.len();
    let mut added: Vec<usize> = Vec::new();
    let mut i: usize = 0;
    assert(part.take(0) =~= Seq::<CatalogItem>::empty());
    while i < n
        invariant
            n == part.len(),
            n <= items@.len(),
            part == featured_part(items@),
            i <= n,
            pool_view(pool@) == featured_after(start, part.take(i as int)),
            pool@.len() == start_len + added@.len(),
            forall|j: int| 0 <= j < added@.len() ==> (#[trigger] added@[j]) < items@.len()
                && pool_view(pool@)[start_len + j] == item_key(items@[added@[j] as int]),
        decreases n - i,
    {
        let item = &items[i];
        assert(part[i as int] == items@[i as int]);
        assert(part.take(i + 1).drop_last() =~= part.take(i as int));
        assert(part.take(i + 1).last() == items@[i as int]);
        let mut found = false;
        let mut k: usize = 0;
        while k < pool.len()
            invariant
                k <= pool@.len(),
                !found ==> forall|q: int| 0 <= q < k ==> pool_view(pool@)[q] != item_key(*item),
                found ==> pool_view(pool@).contains(item_key(*item)),
            decreases pool@.len() - k,
        {
            if pool[k].0 == item.content_type && pool[k].1 == item.id {
                assert(pool_view(pool@)[k as int] == item_key(*item));
                found = true;
            }
            k = k + 1;
        }
        if !found {
            let ghost before = pool@;
            let key = (string_of(chars_of(item.content_type.as_str()).as_slice()), string_of(chars_of(item.id.as_str()).as_slice()));
            pool.push(key);
            assert(pool_view(pool@) =~= pool_view(before).push(item_key(*item)));
            added.push(i);
        }
        i = i + 1;
    }
    assert(part.take(n as int) =~= part);
    added
}

} // verus!
