//! Paginated listing.
//!
//! A pager is a per-call, forward-only cursor over listing results. It yields
//! `Some(entries)` while results remain and `None` on exhaustion; a yielded
//! page is never empty — an implementation that returns an empty non-final
//! page is defective. Once a pager has signalled exhaustion, every further
//! call keeps returning `None`.

use vstd::prelude::*;

use crate::error::Error;
use crate::meta::{EntryView, ObjectEntry};

verus! {

/// A paginated cursor over listing results.
pub trait Page: Sized {
    /// The entries not yet yielded, in yield order.
    spec fn remaining_entries(&self) -> Seq<EntryView>;

    /// Whether the pager has already signalled exhaustion.
    spec fn exhausted(&self) -> bool;

    /// Whether this pager is failure-free.
    spec fn infallible(&self) -> bool;

    /// The next page: a non-empty prefix of the remaining entries, or `None`
    /// exactly when nothing remains. After exhaustion every call returns
    /// `None` again.
    fn next_page(&mut self) -> (r: Result<Option<Vec<ObjectEntry>>, Error>)
        ensures
            match r {
                Ok(Some(page)) => {
                    &&& page.len() > 0
                    &&& page@.len() <= old(self).remaining_entries().len()
                    &&& (forall|i: int|
                        0 <= i < page@.len() ==> #[trigger] page@[i]@ == old(
                            self,
                        ).remaining_entries()[i])
                    &&& final(self).remaining_entries() == old(self).remaining_entries().skip(
                        page@.len() as int,
                    )
                    &&& !old(self).exhausted()
                    &&& !final(self).exhausted()
                },
                Ok(None) => {
                    &&& old(self).remaining_entries().len() == 0
                    &&& final(self).remaining_entries().len() == 0
                    &&& final(self).exhausted()
                },
                Err(_) => {
                    &&& final(self).remaining_entries() == old(self).remaining_entries()
                    &&& final(self).exhausted() == old(self).exhausted()
                },
            },
            old(self).exhausted() ==> r matches Ok(None),
            old(self).infallible() ==> r is Ok && final(self).infallible(),
    ;
}

/// The pager over one directory's entries, collected at list time.
///
/// It hands the collected entries out in pages of at most `page_size`,
/// then signals exhaustion; a page is either non-empty or the listing is
/// done, never an empty intermediate page.
pub struct DirPager {
    entries: Vec<ObjectEntry>,
    cursor: usize,
    page_size: usize,
    done: bool,
}

impl DirPager {
    /// Wrap collected entries. A page size of zero is treated as one.
    pub fn new(entries: Vec<ObjectEntry>, page_size: usize) -> (r: DirPager)
        ensures
            r.remaining_entries() == entries@.map_values(|e: ObjectEntry| e@),
            !r.exhausted(),
            r.infallible(),
    {
        let size = if page_size == 0 {
            1
        } else {
            page_size
        };
        let r = DirPager { entries, cursor: 0, page_size: size, done: false };
        proof {
            assert(r.remaining_entries() =~= r.entries@.map_values(|e: ObjectEntry| e@));
        }
        r
    }
}

impl Page for DirPager {
    closed spec fn remaining_entries(&self) -> Seq<EntryView> {
        if self.done {
            Seq::empty()
        } else if self.cursor <= self.entries@.len() {
            self.entries@.skip(self.cursor as int).map_values(|e: ObjectEntry| e@)
        } else {
            Seq::empty()
        }
    }

    closed spec fn exhausted(&self) -> bool {
        self.done
    }

    closed spec fn infallible(&self) -> bool {
        true
    }

    fn next_page(&mut self) -> (r: Result<Option<Vec<ObjectEntry>>, Error>)
        ensures
            match r {
                Ok(Some(page)) => {
                    &&& page.len() > 0
                    &&& page@.len() <= old(self).remaining_entries().len()
                    &&& (forall|i: int|
                        0 <= i < page@.len() ==> #[trigger] page@[i]@ == old(
                            self,
                        ).remaining_entries()[i])
                    &&& final(self).remaining_entries() == old(self).remaining_entries().skip(
                        page@.len() as int,
                    )
                    &&& !old(self).exhausted()
                    &&& !final(self).exhausted()
                },
                Ok(None) => {
                    &&& old(self).remaining_entries().len() == 0
                    &&& final(self).remaining_entries().len() == 0
                    &&& final(self).exhausted()
                },
                Err(_) => {
                    &&& final(self).remaining_entries() == old(self).remaining_entries()
                    &&& final(self).exhausted() == old(self).exhausted()
                },
            },
            old(self).exhausted() ==> r matches Ok(None),
            r is Ok,
            old(self).remaining_entries().len() > 0 ==> r matches Ok(Some(_)),
    {
        let n = self.entries.len();
        if self.done || self.cursor >= n {
            self.done = true;
            proof {
                assert(self.remaining_entries().len() == 0);
            }
            return Ok(None);
        }
        let left = n - self.cursor;
        let ps = if self.page_size == 0 {
            1
        } else {
            self.page_size
        };
        let k = if ps <= left {
            ps
        } else {
            left
        };
        let mut page: Vec<ObjectEntry> = Vec::new();
        let mut i: usize = 0;
        while i < k
            invariant
                self.cursor + k <= self.entries@.len(),
                self.entries@.len() <= usize::MAX,
                i <= k,
                page@.len() == i,
                forall|j: int|
                    0 <= j < i ==> #[trigger] page@[j]@ == self.entries@[self.cursor + j]@,
            decreases k - i,
    {
            proof {
                assert(self.cursor + i < self.entries@.len());
            }
            let e = self.entries[self.cursor + i].duplicate();
            page.push(e);
            i = i + 1;
        }
        proof {
            assert(forall|j: int|
                0 <= j < k ==> #[trigger] page@[j]@ == old(self).remaining_entries()[j]);
        }
        self.cursor = self.cursor + k;
        proof {
            assert(self.remaining_entries() =~= old(self).remaining_entries().skip(k as int));
        }
        Ok(Some(page))
    }
}

} // verus!
