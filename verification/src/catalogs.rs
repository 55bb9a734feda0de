//! Incremental catalog pages: standard offsets, and titles shown once per collection.
use vstd::prelude::*;

verus! {

/// A catalog entry as the grid needs it: its content type, its id and its name.
#[derive(Debug)]
pub struct CatalogItem {
    pub content_type: String,
    pub id: String,
    pub name: String,
}

/// What identifies a title across pages: its content type and id.
pub open spec fn item_key(item: CatalogItem) -> (Seq<char>, Seq<char>) {
    (item.content_type@, item.id@)
}

/// The titles of a page that were not shown before, in page order, with the keys known
/// afterwards; a title that repeats inside the page is kept the first time only.
pub open spec fn fresh_items(seen: Set<(Seq<char>, Seq<char>)>, items: Seq<CatalogItem>)
    -> (Seq<CatalogItem>, Set<(Seq<char>, Seq<char>)>)
    decreases items.len(),
{
    if items.len() == 0 {
        (Seq::<CatalogItem>::empty(), seen)
    } else {
        let (fresh, known) = fresh_items(seen, items.drop_last());
        let k = item_key(items.last());
        if known.contains(k) {
            (fresh, known)
        } else {
            (fresh.push(items.last()), known.insert(k))
        }
    }
}

/// Paging state of one catalog collection.
pub struct Pages {
    pub offset: usize,
    pub seen: Vec<(String, String)>,
}

impl Default for Pages {
    /// A collection before its first page.
    fn default() -> (p: Pages)
        ensures
            p.offset == 0,
            p.seen@.len() == 0,
    {
        Pages { offset: 0, seen: Vec::new() }
    }
}

impl Pages {
    /// The keys of the titles shown so far.
    pub open spec fn seen_keys(&self) -> Set<(Seq<char>, Seq<char>)> {
        Set::new(|k: (Seq<char>, Seq<char>)| exists|i: int| 0 <= i < self.seen@.len()
            && #[trigger] self.seen@[i].0@ == k.0 && self.seen@[i].1@ == k.1)
    }

    fn knows(&self, content_type: &String, id: &String) -> (b: bool)
        ensures
            b == self.seen_keys().contains((content_type@, id@)),
    {
        let mut i: usize = 0;
        while i < self.seen.len()
            invariant
                i <= self.seen@.len(),
                forall|j: int| 0 <= j < i ==> !(#[trigger] self.seen@[j].0@ == content_type@
                    && self.seen@[j].1@ == id@),
            decreases self.seen@.len() - i,
        {
            if self.seen[i].0 == *content_type && self.seen[i].1 == *id {
                assert(self.seen_keys().contains((content_type@, id@)));
                return true;
            }
            i = i + 1;
        }
        false
    }

    /// Take in one page of results. Moves the offset on by a standard page of 100, returns
    /// the titles not shown before, and whether the collection is exhausted: unpaginated,
    /// a short page, or a page with nothing new.
    pub fn append(&mut self, items: Vec<CatalogItem>, paginated: bool) -> (r: (Vec<CatalogItem>, bool))
        ensures
            final(self).offset == if old(self).offset + 100 > usize::MAX {
                usize::MAX as int
            } else {
                old(self).offset + 100
            },
            r.0@ == fresh_items(old(self).seen_keys(), items@).0,
            final(self).seen_keys() == fresh_items(old(self).seen_keys(), items@).1,
            r.1 == (!paginated || items@.len() < 100 || r.0@.len() == 0),
    {
        let count = items.len();
        self.offset = self.offset.saturating_add(100);
        let new_offset = self.offset;
        let ghost all = items@;
        let ghost start = self.seen_keys();
        let mut rest = items;
        let mut fresh: Vec<CatalogItem> = Vec::new();
        let mut taken: usize = 0;
        assert(all.subrange(0, 0) =~= Seq::<CatalogItem>::empty());
        while rest.len() > 0
            invariant
                count == all.len(),
                self.offset == new_offset,
                taken + rest@.len() == count,
                rest@ == all.subrange(taken as int, count as int),
                fresh_items(start, all.subrange(0, taken as int)) == (fresh@, self.seen_keys()),
            decreases rest@.len(),
        {
            let item = rest.remove(0);
            assert(item == all[taken as int]);
            assert(all.subrange(0, taken + 1).drop_last() =~= all.subrange(0, taken as int));
            assert(all.subrange(0, taken + 1).last() == item);
            let known = self.knows(&item.content_type, &item.id);
            if !known {
                let ghost before = self.seen_keys();
                let ghost old_seen = self.seen@;
                let key = (item.content_type.clone(), item.id.clone());
                self.seen.push(key);
                assert(self.seen@ == old_seen.push(key));
                assert(self.seen_keys() =~= before.insert(item_key(item))) by {
                    assert forall|k: (Seq<char>, Seq<char>)| self.seen_keys().contains(k)
                        implies #[trigger] before.insert(item_key(item)).contains(k) by {
                        let j = choose|j: int| 0 <= j < self.seen@.len() && #[trigger] self.seen@[j].0@ == k.0
                            && self.seen@[j].1@ == k.1;
                        if j < old_seen.len() {
                            assert(old_seen[j] == self.seen@[j]);
                            assert(before.contains(k));
                        }
                    }
                    assert forall|k: (Seq<char>, Seq<char>)| before.insert(item_key(item)).contains(k)
                        implies #[trigger] self.seen_keys().contains(k) by {
                        if k == item_key(item) {
                            assert(self.seen@[old_seen.len() as int].0@ == k.0);
                        } else {
                            assert(before.contains(k));
                            let j = choose|j: int| 0 <= j < old_seen.len() && #[trigger] old_seen[j].0@ == k.0
                                && old_seen[j].1@ == k.1;
                            assert(self.seen@[j] == old_seen[j]);
                            assert(self.seen@[j].0@ == k.0);
                        }
                    }
                }
                fresh.push(item);
            }
            taken = taken + 1;
            assert(rest@ =~= all.subrange(taken as int, count as int));
        }
        assert(all.subrange(0, count as int) =~= all);
        let exhausted = !paginated || count < 100 || fresh.len() == 0;
        (fresh, exhausted)
    }
}

/// Titles are shown once per collection: the titles a page adds were not shown before and
/// differ from each other, each of them comes from the page, and afterwards every title of the
/// page counts as shown, along with everything shown before and nothing else.
pub proof fn lemma_pages_show_titles_once(seen: Set<(Seq<char>, Seq<char>)>, items: Seq<CatalogItem>)
    ensures
        ({
            let (fresh, known) = fresh_items(seen, items);
            &&& forall|i: int| 0 <= i < fresh.len() ==> !seen.contains(#[trigger] item_key(fresh[i]))
            &&& forall|i: int, j: int| 0 <= i < j < fresh.len() ==> item_key(#[trigger] fresh[i]) != item_key(#[trigger] fresh[j])
            &&& forall|i: int| 0 <= i < fresh.len() ==> items.contains(#[trigger] fresh[i])
            &&& forall|i: int| 0 <= i < items.len() ==> known.contains(#[trigger] item_key(items[i]))
            &&& forall|k: (Seq<char>, Seq<char>)| #[trigger] known.contains(k) <==> (seen.contains(k)
                || exists|i: int| 0 <= i < items.len() && item_key(#[trigger] items[i]) == k)
        }),
    decreases items.len(),
{
    if items.len() > 0 {
        let init = items.drop_last();
        lemma_pages_show_titles_once(seen, init);
        let (fresh0, known0) = fresh_items(seen, init);
        let last = items.last();
        let k = item_key(last);
        let (fresh, known) = fresh_items(seen, items);
        assert forall|i: int| 0 <= i < fresh0.len() implies items.contains(#[trigger] fresh0[i]) by {
            let j = choose|j: int| 0 <= j < init.len() && init[j] == fresh0[i];
            assert(items[j] == init[j]);
        }
        if !known0.contains(k) {
            assert forall|i: int| 0 <= i < fresh0.len() implies item_key(#[trigger] fresh0[i]) != k by {
                let j = choose|j: int| 0 <= j < init.len() && init[j] == fresh0[i];
                assert(known0.contains(item_key(init[j])));
            }
            assert(items[items.len() - 1] == last);
        }
        assert forall|i: int| 0 <= i < items.len() implies known.contains(#[trigger] item_key(items[i])) by {
            if i < items.len() - 1 {
                assert(items[i] == init[i]);
            }
        }
        assert forall|q: (Seq<char>, Seq<char>)| #[trigger] known.contains(q) <==> (seen.contains(q)
            || exists|i: int| 0 <= i < items.len() && item_key(#[trigger] items[i]) == q) by {
            if known0.contains(q) && !seen.contains(q) {
                let i = choose|i: int| 0 <= i < init.len() && item_key(#[trigger] init[i]) == q;
                assert(items[i] == init[i]);
            }
            if exists|i: int| 0 <= i < items.len() && item_key(#[trigger] items[i]) == q {
                let i = choose|i: int| 0 <= i < items.len() && item_key(#[trigger] items[i]) == q;
                if i < items.len() - 1 {
                    assert(items[i] == init[i]);
                }
            }
        }
    }
}

/// Paging moves in standard steps: from a multiple of 100, the next offset is the next
/// multiple of 100, until it would pass the largest offset and stays there.
pub proof fn lemma_offsets_are_standard(offset: usize)
    requires
        offset % 100 == 0,
    ensures
        offset + 100 <= usize::MAX ==> (offset + 100) % 100 == 0,
{
}

} // verus!
