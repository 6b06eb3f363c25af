//! Gathering a whole collection page by page.
//!
//! The first page is at the collection's URL; each page names the URL of the
//! next, until the last. The records of all pages come out as one list, in
//! page order.
use vstd::prelude::*;

use crate::entity::PageResponse;

verus! {

/// The number of records on all of `pages`.
pub open spec fn total_records<T>(pages: Seq<Seq<T>>) -> int
    decreases pages.len(),
{
    if pages.len() == 0 {
        0
    } else {
        total_records(pages.drop_last()) + pages.last().len()
    }
}

/// A walk through the pages of a collection: the pages received so far and
/// their records, concatenated.
pub struct PageWalk<T> {
    collected: Vec<T>,
    pages: Ghost<Seq<Seq<T>>>,
}

impl<T> PageWalk<T> {
    /// The records of each page received, page by page.
    pub closed spec fn pages(&self) -> Seq<Seq<T>> {
        self.pages@
    }

    /// The records gathered so far.
    pub closed spec fn collected(&self) -> Seq<T> {
        self.collected@
    }

    /// The records gathered are those of the pages received, in page order.
    pub open spec fn wf(&self) -> bool {
        self.collected() == self.pages().flatten()
    }

    /// A walk that has received no page.
    pub fn new() -> (r: PageWalk<T>)
        ensures
            r.wf(),
            r.pages() == Seq::<Seq<T>>::empty(),
    {
        PageWalk { collected: Vec::new(), pages: Ghost(Seq::empty()) }
    }

    /// Takes in the next page, and returns the URL of the page after it, or
    /// `None` when it was the last.
    pub fn on_page(&mut self, page: PageResponse<T>) -> (r: Option<String>)
        requires
            old(self).wf(),
        ensures
            final(self).wf(),
            final(self).pages() == old(self).pages().push(page.results@),
            r == page.info.next,
    {
        let PageResponse { results, info } = page;
        let mut results = results;
        let ghost received = results@;
        proof {
            self.pages@.lemma_flatten_push(received);
            self.pages = Ghost(self.pages@.push(received));
        }
        self.collected.append(&mut results);
        info.next
    }

    /// The records of all pages received, in page order.
    pub fn into_results(self) -> (r: Vec<T>)
        requires
            self.wf(),
        ensures
            r@ == self.pages().flatten(),
    {
        self.collected
    }
}

/// There are as many records in the concatenation as on all pages.
pub proof fn lemma_all_records_kept<T>(pages: Seq<Seq<T>>)
    ensures
        pages.flatten().len() == total_records(pages),
    decreases pages.len(),
{
    if pages.len() > 0 {
        let prev = pages.drop_last();
        lemma_all_records_kept(prev);
        prev.lemma_flatten_push(pages.last());
        assert(prev.push(pages.last()) =~= pages);
    }
}

/// Record `j` of page `p` stands in the concatenation after the records of
/// all earlier pages: the pages keep their order, and so do the records of
/// each page.
pub proof fn lemma_page_order<T>(pages: Seq<Seq<T>>, p: int, j: int)
    requires
        0 <= p < pages.len(),
        0 <= j < pages[p].len(),
    ensures
        pages.flatten()[total_records(pages.take(p)) + j] == pages[p][j],
    decreases pages.len(),
{
    let prev = pages.drop_last();
    prev.lemma_flatten_push(pages.last());
    assert(prev.push(pages.last()) =~= pages);
    lemma_all_records_kept(prev);
    if p < pages.len() - 1 {
        lemma_page_order(prev, p, j);
        assert(prev.take(p) =~= pages.take(p));
        lemma_records_prefix(prev, p + 1);
        assert(prev.take(p + 1).drop_last() =~= prev.take(p));
        assert(prev.take(p + 1).last() == prev[p]);
        let i = total_records(pages.take(p)) + j;
        assert(i < prev.flatten().len());
        lemma_all_records_kept(pages.take(p));
    } else {
        assert(pages.take(p) =~= prev);
    }
}

proof fn lemma_records_prefix<T>(pages: Seq<Seq<T>>, p: int)
    requires
        0 <= p <= pages.len(),
    ensures
        total_records(pages.take(p)) <= total_records(pages),
    decreases pages.len() - p,
{
    if p < pages.len() {
        lemma_records_prefix(pages, p + 1);
        assert(pages.take(p + 1).drop_last() =~= pages.take(p));
    } else {
        assert(pages.take(p) =~= pages);
    }
}

} // verus!
