//! The paginated item fetcher's decisions, and the per-library catalog scan
//! of the enumeration fallback: which page to request next, when to stop
//! paginating, and which wanted event an observed item claims.

use vstd::prelude::*;
use crate::model::Item;

verus! {

/// Items requested per page.
pub const PAGE_SIZE: usize = 1000;

/// Pagination state for one library's item stream. Page `k` is requested
/// with offset `k` times the page size; a page shorter than the page size is
/// the last one. A page of exactly the page size — even one that happens to
/// exhaust the library — demands one further request, which then comes back
/// empty.
pub struct Pager {
    pub next_offset: usize,
    pub finished: bool,
}

impl Pager {
    pub fn new() -> (p: Pager)
        ensures
            p.next_offset == 0,
            !p.finished,
    {
        Pager { next_offset: 0, finished: false }
    }

    /// The offset the next page request must carry.
    pub fn offset(&self) -> (r: usize)
        ensures
            r == self.next_offset,
    {
        self.next_offset
    }

    /// Accounts one fetched page of `count` items: a short page ends the
    /// stream, a full page moves the offset forward by one page.
    pub fn on_page(&mut self, count: usize)
        requires
            !old(self).finished,
            count <= PAGE_SIZE,
            old(self).next_offset + PAGE_SIZE <= usize::MAX,
        ensures
            final(self).finished == (count < PAGE_SIZE),
            !final(self).finished ==> final(self).next_offset == old(self).next_offset
                + PAGE_SIZE,
            final(self).finished ==> final(self).next_offset == old(self).next_offset,
    {
        if count < PAGE_SIZE {
            self.finished = true;
        } else {
            self.next_offset = self.next_offset + PAGE_SIZE;
        }
    }
}

/// The first wanted entry whose path equals `p`, if any: the entry an item
/// with path `p` claims.
pub open spec fn first_path_match(wanted: Seq<(usize, String)>, p: Seq<char>) -> Option<int>
    decreases wanted.len(),
{
    if wanted.len() == 0 {
        Option::None
    } else if wanted[0].1@ == p {
        Option::Some(0int)
    } else {
        match first_path_match(wanted.drop_first(), p) {
            Option::Some(k) => Option::Some(k + 1),
            Option::None => Option::None,
        }
    }
}

pub proof fn lemma_first_path_match_at(wanted: Seq<(usize, String)>, p: Seq<char>, j: int)
    requires
        0 <= j < wanted.len(),
        forall|k: int| 0 <= k < j ==> (#[trigger] wanted[k]).1@ != p,
        wanted[j].1@ == p,
    ensures
        first_path_match(wanted, p) == Option::Some(j),
    decreases j,
{
    if j == 0 {
    } else {
        assert(wanted[0].1@ != p);
        assert(forall|k: int|
            0 <= k < j - 1 ==> (#[trigger] wanted.drop_first()[k]) == wanted[k + 1]);
        lemma_first_path_match_at(wanted.drop_first(), p, j - 1);
    }
}

pub proof fn lemma_first_path_match_none(wanted: Seq<(usize, String)>, p: Seq<char>)
    requires
        forall|k: int| 0 <= k < wanted.len() ==> (#[trigger] wanted[k]).1@ != p,
    ensures
        first_path_match(wanted, p) is None,
    decreases wanted.len(),
{
    if wanted.len() > 0 {
        assert(forall|k: int|
            0 <= k < wanted.len() - 1 ==> (#[trigger] wanted.drop_first()[k]) == wanted[k + 1]);
        lemma_first_path_match_none(wanted.drop_first(), p);
    }
}

/// Law: an item whose path equals some wanted entry's path always claims an
/// entry — the first one carrying that path.
pub proof fn lemma_matching_item_claims(wanted: Seq<(usize, String)>, p: Seq<char>)
    requires
        exists|k: int| 0 <= k < wanted.len() && (#[trigger] wanted[k]).1@ == p,
    ensures
        first_path_match(wanted, p) matches Option::Some(j) && 0 <= j < wanted.len()
            && wanted[j].1@ == p && (forall|k: int|
            0 <= k < j ==> (#[trigger] wanted[k]).1@ != p),
    decreases wanted.len(),
{
    if wanted[0].1@ == p {
        lemma_first_path_match_at(wanted, p, 0);
    } else {
        let k0 = choose|k: int| 0 <= k < wanted.len() && (#[trigger] wanted[k]).1@ == p;
        assert(wanted.drop_first()[k0 - 1].1@ == p);
        lemma_matching_item_claims(wanted.drop_first(), p);
        let j1 = choose|j: int|
            first_path_match(wanted.drop_first(), p) == Option::Some(j) && 0 <= j
                < wanted.drop_first().len() && wanted.drop_first()[j].1@ == p;
        assert(forall|k: int|
            1 <= k < j1 + 1 ==> (#[trigger] wanted[k]).1@ == wanted.drop_first()[k - 1].1@);
        lemma_first_path_match_at(wanted, p, j1 + 1);
    }
}

/// The item carries a path and it equals `p`.
pub open spec fn item_path_matches(it: Item, p: Seq<char>) -> bool {
    it.path matches Option::Some(q) && q@ == p
}

/// The first item of a fetched batch whose path equals the one sought, as an
/// index into the batch; `None` when no item matches.
pub fn find_item_by_path(items: &Vec<Item>, path: &String) -> (r: Option<usize>)
    ensures
        (match r {
            Option::Some(i) => i < items@.len() && item_path_matches(items@[i as int], path@)
                && (forall|k: int| 0 <= k < i ==> !item_path_matches(#[trigger] items@[k], path@)),
            Option::None => forall|k: int|
                0 <= k < items@.len() ==> !item_path_matches(#[trigger] items@[k], path@),
        }),
{
    let mut i: usize = 0;
    while i < items.len()
        invariant
            i <= items@.len(),
            forall|k: int| 0 <= k < i ==> !item_path_matches(#[trigger] items@[k], path@),
        decreases items@.len() - i,
    {
        match &items[i].path {
            Option::Some(q) => {
                if *q == *path {
                    return Option::Some(i);
                }
            },
            Option::None => {},
        }
        i = i + 1;
    }
    Option::None
}

/// The consumer side of one library's enumeration: the events still wanted
/// there (record index and path), and the matches made so far (record index
/// and the matching item's id), each awaiting one explicit refresh.
pub struct CatalogScan {
    pub wanted: Vec<(usize, String)>,
    pub found: Vec<(usize, String)>,
}

impl CatalogScan {
    /// No record index occurs twice: an event is claimed by at most one
    /// item, so at most one refresh is ever issued for it.
    pub open spec fn wf(self) -> bool {
        &&& forall|a: int, b: int|
            0 <= a < b < self.wanted@.len() ==> (#[trigger] self.wanted@[a]).0 != (
            #[trigger] self.wanted@[b]).0
        &&& forall|a: int, b: int|
            0 <= a < b < self.found@.len() ==> (#[trigger] self.found@[a]).0 != (
            #[trigger] self.found@[b]).0
        &&& forall|a: int, b: int|
            0 <= a < self.wanted@.len() && 0 <= b < self.found@.len() ==> (
            #[trigger] self.wanted@[a]).0 != (#[trigger] self.found@[b]).0
    }

    /// Starts the scan of one library from the wanted set the engine
    /// computed for it.
    pub fn new(wanted: Vec<(usize, String)>) -> (s: CatalogScan)
        requires
            forall|a: int, b: int|
                0 <= a < b < wanted@.len() ==> (#[trigger] wanted@[a]).0 != (
                #[trigger] wanted@[b]).0,
        ensures
            s.wf(),
            s.wanted@ == wanted@,
            s.found@ == Seq::<(usize, String)>::empty(),
    {
        CatalogScan { wanted, found: Vec::new() }
    }

    /// True while this library's catalog is still worth streaming: once the
    /// wanted set empties, the consumer cancels and no further page is
    /// requested.
    pub fn wants_more(&self) -> (r: bool)
        ensures
            r == (self.wanted@.len() > 0),
    {
        self.wanted.len() > 0
    }

    /// Tests one observed item against the wanted set. An item with no path
    /// claims nothing; otherwise it claims the first wanted entry whose path
    /// equals the item's, which leaves the wanted set for good and is paired
    /// with the item's id for the refresh step.
    pub fn on_item(&mut self, item: &Item)
        requires
            old(self).wf(),
        ensures
            final(self).wf(),
            (match item.path {
                Option::Some(p) => match first_path_match(old(self).wanted@, p@) {
                    Option::Some(j) => final(self).wanted@ == old(self).wanted@.remove(j)
                        && final(self).found@ == old(self).found@.push(
                        (old(self).wanted@[j].0, item.id),
                    ),
                    Option::None => final(self).wanted@ == old(self).wanted@
                        && final(self).found@ == old(self).found@,
                },
                Option::None => final(self).wanted@ == old(self).wanted@ && final(self).found@
                    == old(self).found@,
            }),
    {
        let p = match &item.path {
            Option::Some(p) => p,
            Option::None => {
                return ;
            },
        };
        let mut j: usize = 0;
        while j < self.wanted.len()
            invariant
                j <= self.wanted@.len(),
                forall|k: int| 0 <= k < j ==> (#[trigger] self.wanted@[k]).1@ != p@,
                *self == *old(self),
                old(self).wf(),
                item.path matches Option::Some(q) && q == *p,
            decreases self.wanted@.len() - j,
        {
            if self.wanted[j].1 == *p {
                proof {
                    lemma_first_path_match_at(self.wanted@, p@, j as int);
                }
                let ghost w0 = self.wanted@;
                let ghost f0 = self.found@;
                let entry = self.wanted.remove(j);
                self.found.push((entry.0, item.id.clone()));
                proof {
                    assert(forall|a: int|
                        0 <= a < w0.len() - 1 ==> #[trigger] self.wanted@[a] == (if a < j {
                            w0[a]
                        } else {
                            w0[a + 1]
                        }));
                    assert(forall|b: int|
                        0 <= b < f0.len() ==> #[trigger] self.found@[b] == f0[b]);
                    assert(self.found@[f0.len() as int].0 == w0[j as int].0);
                    assert(w0 == old(self).wanted@);
                    assert(f0 == old(self).found@);
                    assert forall|a: int, b: int|
                        0 <= a < b < self.wanted@.len() implies (#[trigger] self.wanted@[a]).0 != (
                    #[trigger] self.wanted@[b]).0 by {
                        let a0: int = if a < j { a } else { a + 1 };
                        let b0: int = if b < j { b } else { b + 1 };
                        assert(self.wanted@[a] == old(self).wanted@[a0]);
                        assert(self.wanted@[b] == old(self).wanted@[b0]);
                        assert((old(self).wanted@[a0]).0 != (old(self).wanted@[b0]).0);
                    }
                    assert forall|a: int, b: int|
                        0 <= a < b < self.found@.len() implies (#[trigger] self.found@[a]).0 != (
                    #[trigger] self.found@[b]).0 by {
                        if b == f0.len() {
                            assert(self.found@[a] == old(self).found@[a]);
                            assert((old(self).wanted@[j as int]).0 != (old(self).found@[a]).0);
                        } else {
                            assert((old(self).found@[a]).0 != (old(self).found@[b]).0);
                        }
                    }
                    assert forall|a: int, b: int|
                        0 <= a < self.wanted@.len() && 0 <= b < self.found@.len() implies (
                    #[trigger] self.wanted@[a]).0 != (#[trigger] self.found@[b]).0 by {
                        let a0: int = if a < j { a } else { a + 1 };
                        assert(self.wanted@[a] == old(self).wanted@[a0]);
                        if b == f0.len() {
                            assert((old(self).wanted@[a0]).0 != (old(self).wanted@[j as int]).0);
                        } else {
                            assert((old(self).wanted@[a0]).0 != (old(self).found@[b]).0);
                        }
                    }
                }
                return ;
            }
            j = j + 1;
        }
        proof {
            lemma_first_path_match_none(self.wanted@, p@);
        }
    }
}

} // verus!
