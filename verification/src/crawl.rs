//! Walking the paginated index of a user's bookmarks.
//!
//! The fetch of each page is network I/O and stays outside the library; the
//! loop's decisions live here. A page's HTML is parsed into the cache
//! identifiers it shows and the path of the earlier page, if any; the
//! identifiers are folded into an accumulator that stores each one exactly
//! once, however they are spread over page boundaries; the crawl goes on
//! while an earlier-page path is found.

use vstd::prelude::*;
use crate::html::{cached_hrefs_of, extract_cached_hrefs, extract_next_href, next_href_of};
use crate::text::{bytes_eq, copy_bytes};

verus! {

/// An index page fetch failed. Fatal to the whole archive attempt: no
/// partial crawl result is salvaged.
#[derive(Clone, Copy, PartialEq, Eq, Structural, Debug)]
pub enum FetchError {
    /// The service answered with a status code outside the success range.
    Status(u16),
    /// The request did not complete at all.
    Transport,
}

/// Decide from its status code whether an index page fetch succeeded.
pub fn classify_fetch_status(status: u16) -> (r: Result<(), FetchError>)
    ensures
        r is Ok <==> 200 <= status < 300,
        r is Err ==> r == Err::<(), FetchError>(FetchError::Status(status)),
{
    if 200 <= status && status < 300 {
        Ok(())
    } else {
        Err(FetchError::Status(status))
    }
}

/// What one index page hands the crawl: the cache identifiers it shows and
/// the path of the earlier page, if it links one.
pub struct IndexPage {
    pub cache_ids: Vec<Vec<u8>>,
    pub next_path: Option<Vec<u8>>,
}

impl IndexPage {
    /// The set of cache identifiers the page shows.
    pub open spec fn id_set(&self) -> Set<Seq<u8>> {
        self.cache_ids.deep_view().to_set()
    }
}

/// Parse one index page's HTML. Markup that is missing yields an empty
/// extraction and no earlier-page path, never an error.
pub fn parse_index_page(html: &str) -> (p: IndexPage)
    ensures
        p.cache_ids.deep_view() == cached_hrefs_of(html@),
        p.next_path.deep_view() == next_href_of(html@),
{
    IndexPage { cache_ids: extract_cached_hrefs(html), next_path: extract_next_href(html) }
}

/// The accumulator of the crawl: every cache identifier seen so far, each
/// stored exactly once.
pub struct CrawlState {
    ids: Vec<Vec<u8>>,
}

impl CrawlState {
    /// The set of cache identifiers accumulated so far.
    pub closed spec fn id_set(&self) -> Set<Seq<u8>> {
        self.ids.deep_view().to_set()
    }

    /// No identifier is stored twice.
    pub closed spec fn wf(&self) -> bool {
        self.ids.deep_view().no_duplicates()
    }

    pub fn new() -> (s: CrawlState)
        ensures
            s.wf(),
            s.id_set() == Set::<Seq<u8>>::empty(),
    {
        let s = CrawlState { ids: Vec::new() };
        proof {
            assert(s.ids.deep_view() =~= Seq::<Seq<u8>>::empty());
            assert(s.id_set() =~= Set::<Seq<u8>>::empty());
        }
        s
    }

    /// Whether an identifier was already accumulated.
    pub fn contains_id(&self, id: &Vec<u8>) -> (r: bool)
        ensures
            r == self.id_set().contains(id@),
    {
        let mut i: usize = 0;
        while i < self.ids.len()
            invariant
                i <= self.ids@.len(),
                forall|j: int| 0 <= j < i ==> self.ids.deep_view()[j] != id@,
            decreases self.ids@.len() - i,
        {
            proof {
                assert(self.ids.deep_view()[i as int] =~= self.ids@[i as int]@);
            }
            if bytes_eq(&self.ids[i], id) {
                proof {
                    assert(self.ids.deep_view().contains(id@));
                }
                return true;
            }
            i = i + 1;
        }
        proof {
            assert(!self.ids.deep_view().contains(id@));
        }
        false
    }

    /// Add one identifier; one already there is left alone.
    pub fn insert_id(&mut self, id: Vec<u8>)
        requires
            old(self).wf(),
        ensures
            final(self).wf(),
            final(self).id_set() == old(self).id_set().insert(id@),
    {
        let already = self.contains_id(&id);
        let ghost old_dv = self.ids.deep_view();
        if !already {
            self.ids.push(id);
            proof {
                let dv = self.ids.deep_view();
                assert(dv =~~= old_dv.push(id@));
                lemma_no_dup_after_push(old_dv, id@);
                old_dv.lemma_push_to_set_commute(id@);
            }
        } else {
            proof {
                assert(old_dv.to_set().insert(id@) =~= old_dv.to_set());
            }
        }
    }

    /// Fold one parsed page into the accumulator.
    pub fn absorb_page(&mut self, page: &IndexPage)
        requires
            old(self).wf(),
        ensures
            final(self).wf(),
            final(self).id_set() == old(self).id_set().union(page.id_set()),
    {
        let ghost orig = old(self).id_set();
        let ghost dv = page.cache_ids.deep_view();
        proof {
            assert(dv.take(0).to_set() =~= Set::<Seq<u8>>::empty());
            assert(self.id_set() =~= orig.union(dv.take(0).to_set()));
        }
        let mut k: usize = 0;
        while k < page.cache_ids.len()
            invariant
                self.wf(),
                k <= page.cache_ids@.len(),
                dv == page.cache_ids.deep_view(),
                self.id_set() == orig.union(dv.take(k as int).to_set()),
            decreases page.cache_ids@.len() - k,
        {
            proof {
                assert(dv[k as int] =~= page.cache_ids@[k as int]@);
            }
            let id = copy_bytes(&page.cache_ids[k]);
            self.insert_id(id);
            k = k + 1;
            proof {
                assert(dv.take(k as int) =~= dv.take(k - 1).push(dv[k - 1]));
                lemma_take_push_to_set(dv, k - 1);
                assert(self.id_set() =~= orig.union(dv.take(k as int).to_set()));
            }
        }
        proof {
            assert(dv.take(page.cache_ids@.len() as int) =~= dv);
        }
    }

    /// Parse one fetched page, fold its identifiers in, and hand back the
    /// path of the earlier page, if the page links one.
    pub fn crawl_step(&mut self, html: &str) -> (next: Option<Vec<u8>>)
        requires
            old(self).wf(),
        ensures
            final(self).wf(),
            final(self).id_set() == old(self).id_set().union(cached_hrefs_of(html@).to_set()),
            next.deep_view() == next_href_of(html@),
    {
        let page = parse_index_page(html);
        self.absorb_page(&page);
        page.next_path
    }

    /// How many distinct identifiers were accumulated.
    pub fn count(&self) -> (n: usize)
        requires
            self.wf(),
        ensures
            n as int == self.id_set().len(),
    {
        proof {
            self.ids.deep_view().unique_seq_to_set();
        }
        self.ids.len()
    }

    /// Hand the accumulated identifiers out, each exactly once.
    pub fn into_ids(self) -> (r: Vec<Vec<u8>>)
        requires
            self.wf(),
        ensures
            r.deep_view().to_set() == self.id_set(),
            r.deep_view().no_duplicates(),
    {
        self.ids
    }
}

/// A sequence without duplicates stays without them when an element it does
/// not hold is pushed.
proof fn lemma_no_dup_after_push(s: Seq<Seq<u8>>, x: Seq<u8>)
    requires
        s.no_duplicates(),
        !s.contains(x),
    ensures
        s.push(x).no_duplicates(),
{
    let t = s.push(x);
    assert forall|i: int, j: int|
        0 <= i < t.len() && 0 <= j < t.len() && i != j implies t[i] != t[j] by {
        if i < s.len() && j < s.len() {
            assert(t[i] == s[i] && t[j] == s[j]);
        } else if i == s.len() {
            assert(t[j] == s[j] && s.contains(s[j]));
        } else {
            assert(t[i] == s[i] && s.contains(s[i]));
        }
    };
}

/// Taking one more element of a sequence adds exactly that element to the
/// set of what was taken.
proof fn lemma_take_push_to_set(s: Seq<Seq<u8>>, k: int)
    requires
        0 <= k < s.len(),
    ensures
        s.take(k + 1).to_set() == s.take(k).to_set().insert(s[k]),
{
    assert(s.take(k + 1) =~= s.take(k).push(s[k]));
    s.take(k).lemma_push_to_set_commute(s[k]);
}

/// How many pages a crawl of `pages` fetches: every page up to and with the
/// first that links no earlier page, or all of them if each links one.
pub open spec fn spec_fetch_count(pages: Seq<IndexPage>) -> int
    decreases pages.len(),
{
    if pages.len() == 0 {
        0
    } else if pages[0].next_path is None {
        1
    } else {
        1 + spec_fetch_count(pages.skip(1))
    }
}

/// The union of the identifier sets of the first `n` pages.
pub open spec fn spec_crawled_ids(pages: Seq<IndexPage>, n: int) -> Set<Seq<u8>>
    decreases n,
{
    if n <= 0 {
        Set::empty()
    } else {
        spec_crawled_ids(pages, n - 1).union(pages[n - 1].id_set())
    }
}

/// The result of a crawl over a fixed chain of pages: the accumulator, and
/// how many pages were fetched.
pub struct CrawlRun {
    pub state: CrawlState,
    pub fetches: usize,
}

/// Crawl a fixed chain of already-parsed pages, as the live crawl walks the
/// service's index: each page is fetched once, its identifiers folded in,
/// and the crawl stops with the first page that links no earlier page.
///
/// The fetch count states the crawl's termination: a chain whose last page
/// links no earlier page is fetched exactly once per page. The identifier
/// set states the crawl's dedup guarantee: whatever pages repeat, the
/// accumulator holds the union, each identifier once.
pub fn crawl_fixture(pages: &Vec<IndexPage>) -> (r: CrawlRun)
    ensures
        r.state.wf(),
        r.fetches as int == spec_fetch_count(pages@),
        r.state.id_set() == spec_crawled_ids(pages@, r.fetches as int),
        r.fetches <= pages@.len(),
{
    let mut state = CrawlState::new();
    let mut fetched: usize = 0;
    let mut done = false;
    proof {
        assert(pages@.skip(0) =~= pages@);
    }
    while !done && fetched < pages.len()
        invariant
            state.wf(),
            fetched <= pages@.len(),
            !done ==> spec_fetch_count(pages@) == fetched + spec_fetch_count(
                pages@.skip(fetched as int),
            ),
            done ==> spec_fetch_count(pages@) == fetched,
            state.id_set() == spec_crawled_ids(pages@, fetched as int),
        decreases pages@.len() - fetched + (if done { 0int } else { 1int }),
    {
        let page = &pages[fetched];
        state.absorb_page(page);
        if page.next_path.is_none() {
            done = true;
        }
        fetched = fetched + 1;
        proof {
            let tail = pages@.skip(fetched - 1);
            assert(tail[0] == pages@[fetched - 1]);
            if done {
                assert(spec_fetch_count(tail) == 1);
            } else {
                assert(tail.skip(1) =~= pages@.skip(fetched as int));
                assert(spec_fetch_count(tail) == 1 + spec_fetch_count(tail.skip(1)));
            }
            assert(spec_crawled_ids(pages@, fetched as int) == spec_crawled_ids(
                pages@,
                fetched - 1,
            ).union(pages@[fetched - 1].id_set()));
        }
    }
    proof {
        if !done {
            assert(pages@.skip(fetched as int).len() == 0);
            assert(spec_fetch_count(pages@.skip(fetched as int)) == 0);
        }
    }
    CrawlRun { state, fetches: fetched }
}

} // verus!
