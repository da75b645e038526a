//! The decisions of one aggregation round: which feed to fetch next, when to
//! wait for a fetch in flight, and what to do with a fetch's outcome. The
//! caller performs the fetches and reports each back.
//!
//! A feed whose title is in the cache is served from it without a fetch and
//! without taking a fetch slot. At most `max_in_flight` fetches are in
//! flight at once. A fetch that succeeds writes its articles, possibly none,
//! to the cache; one that fails writes nothing and contributes no articles.

use vstd::prelude::*;
use crate::cache::{ResultCache, append_copies};
use crate::clock::Window;
use crate::feed_parser::{Article, ArticleView, article_views, articles_in, initial_state, parse_feed};
use crate::opml::{Feed, FeedView, feed_views};
use crate::xml_tokens::xml_tokens_of;

verus! {

/// The number of fetches allowed in flight at once, unless a round is given
/// another.
pub const MAX_CONCURRENT_FETCHES: usize = 10;

/// What became of one feed in a round.
#[derive(Clone, Copy, Debug, PartialEq, Eq, Structural)]
pub enum FeedOutcome {
    /// Not served yet: not reached, or its fetch is in flight.
    Pending,
    /// Served from the cache.
    FromCache,
    /// Fetched and parsed; its articles were written to the cache.
    Fetched,
    /// Its fetch failed; it contributed no articles.
    Failed,
}

/// What the caller is to do next.
pub enum RoundStep {
    /// Fetch the document at `url` for the feed at `index`.
    Fetch { index: usize, url: String },
    /// Wait for a fetch in flight to complete.
    Wait,
    /// Every feed has been served.
    Finished,
}

/// The state of a round.
pub struct RoundView {
    pub feeds: Seq<FeedView>,
    pub max_in_flight: nat,
    /// Feeds before this index have been served from the cache or handed out
    /// for fetching.
    pub next: nat,
    pub in_flight: Seq<usize>,
    pub outcomes: Seq<FeedOutcome>,
    pub articles: Seq<ArticleView>,
}

/// The invariant of a round: no more fetches in flight than allowed, each
/// for a distinct feed already reached and not yet served.
pub open spec fn round_wf(r: RoundView) -> bool {
    &&& r.max_in_flight > 0
    &&& r.next <= r.feeds.len()
    &&& r.outcomes.len() == r.feeds.len()
    &&& r.in_flight.len() <= r.max_in_flight
    &&& r.in_flight.no_duplicates()
    &&& forall|k: int| 0 <= k < r.in_flight.len() ==> {
        &&& #[trigger] r.in_flight[k] < r.next
        &&& r.outcomes[r.in_flight[k] as int] == FeedOutcome::Pending
    }
    &&& forall|i: int| r.next <= i < r.feeds.len() ==> #[trigger] r.outcomes[i] == FeedOutcome::Pending
}

/// The feed has to be fetched: the cache holds nothing under its title.
pub open spec fn needs_fetch(cache: Map<Seq<char>, Seq<ArticleView>>, f: FeedView) -> bool {
    !cache.contains_key(f.title)
}

/// The cached articles of the feeds from `lo` up to `hi`, in feed order.
pub open spec fn cached_articles(
    cache: Map<Seq<char>, Seq<ArticleView>>,
    feeds: Seq<FeedView>,
    lo: int,
    hi: int,
) -> Seq<ArticleView>
    decreases hi - lo,
{
    if hi <= lo {
        Seq::empty()
    } else {
        cached_articles(cache, feeds, lo, hi - 1) + cache[feeds[hi - 1].title]
    }
}

/// Where the feeds served from the cache end, after a step ending at `next`.
pub open spec fn served_end(step: RoundStep, next: nat) -> int {
    if step is Fetch {
        next - 1
    } else {
        next as int
    }
}

/// The articles that a successful fetch of `body` gives for feed `f`.
pub open spec fn fetched_articles(f: FeedView, window: Window, body: Seq<char>) -> Seq<ArticleView> {
    articles_in(initial_state(f.title, window), xml_tokens_of(body))
}

/// One round of aggregation over a list of subscriptions.
pub struct FetchRound {
    feeds: Vec<Feed>,
    max_in_flight: usize,
    next: usize,
    in_flight: Vec<usize>,
    outcomes: Vec<FeedOutcome>,
    articles: Vec<Article>,
}

impl View for FetchRound {
    type V = RoundView;

    closed spec fn view(&self) -> RoundView {
        RoundView {
            feeds: feed_views(self.feeds@),
            max_in_flight: self.max_in_flight as nat,
            next: self.next as nat,
            in_flight: self.in_flight@,
            outcomes: self.outcomes@,
            articles: article_views(self.articles@),
        }
    }
}

impl FetchRound {
    /// The invariant of the round.
    pub open spec fn wf(&self) -> bool {
        round_wf(self@)
    }

    /// A round over `feeds` that allows `max_in_flight` fetches at once.
    pub fn new(feeds: Vec<Feed>, max_in_flight: usize) -> (r: FetchRound)
        requires
            max_in_flight > 0,
        ensures
            r.wf(),
            r@.feeds == feed_views(feeds@),
            r@.max_in_flight == max_in_flight,
            r@.next == 0,
            r@.in_flight.len() == 0,
            r@.outcomes == Seq::new(feeds@.len(), |i: int| FeedOutcome::Pending),
            r@.articles.len() == 0,
    {
        let mut outcomes: Vec<FeedOutcome> = Vec::new();
        let mut i: usize = 0;
        while i < feeds.len()
            invariant
                i <= feeds@.len(),
                outcomes@ == Seq::new(i as nat, |j: int| FeedOutcome::Pending),
            decreases feeds@.len() - i,
        {
            outcomes.push(FeedOutcome::Pending);
            assert(outcomes@ =~= Seq::new((i + 1) as nat, |j: int| FeedOutcome::Pending));
            i = i + 1;
        }
        let r = FetchRound {
            feeds,
            max_in_flight,
            next: 0,
            in_flight: Vec::new(),
            outcomes,
            articles: Vec::new(),
        };
        assert(r@.articles =~= Seq::<ArticleView>::empty());
        r
    }

    /// Serves from `cache` every feed it can, in order, until a feed needs a
    /// fetch: hands that fetch out if a slot is free, and otherwise asks the
    /// caller to wait. Finished once every feed is served.
    pub fn poll(&mut self, cache: &ResultCache) -> (r: RoundStep)
        requires
            old(self).wf(),
            cache.wf(),
        ensures
            final(self).wf(),
            final(self)@.feeds == old(self)@.feeds,
            final(self)@.max_in_flight == old(self)@.max_in_flight,
            old(self)@.next <= served_end(r, final(self)@.next),
            forall|i: int| old(self)@.next <= i < served_end(r, final(self)@.next)
                ==> !needs_fetch(cache@, #[trigger] final(self)@.feeds[i]),
            forall|i: int| 0 <= i < final(self)@.outcomes.len() ==> #[trigger] final(self)@.outcomes[i] == (
                if old(self)@.next <= i < served_end(r, final(self)@.next) {
                    FeedOutcome::FromCache
                } else {
                    old(self)@.outcomes[i]
                }),
            final(self)@.outcomes.len() == old(self)@.outcomes.len(),
            final(self)@.articles == old(self)@.articles
                + cached_articles(cache@, old(self)@.feeds, old(self)@.next as int, served_end(r, final(self)@.next)),
            match r {
                RoundStep::Fetch { index, url } => {
                    &&& index + 1 == final(self)@.next
                    &&& needs_fetch(cache@, final(self)@.feeds[index as int])
                    &&& url@ == final(self)@.feeds[index as int].xml_url
                    &&& final(self)@.in_flight == old(self)@.in_flight.push(index)
                },
                RoundStep::Wait => {
                    &&& final(self)@.in_flight == old(self)@.in_flight
                    &&& final(self)@.next < final(self)@.feeds.len() ==> {
                        &&& needs_fetch(cache@, final(self)@.feeds[final(self)@.next as int])
                        &&& final(self)@.in_flight.len() == final(self)@.max_in_flight
                    }
                    &&& final(self)@.next == final(self)@.feeds.len() ==> final(self)@.in_flight.len() > 0
                },
                RoundStep::Finished => {
                    &&& final(self)@.in_flight == old(self)@.in_flight
                    &&& final(self)@.next == final(self)@.feeds.len()
                    &&& final(self)@.in_flight.len() == 0
                },
            },
    {
        let ghost start = self@;
        while self.next < self.feeds.len()
            invariant
                cache.wf(),
                start == old(self)@,
                round_wf(self@),
                self@.feeds == start.feeds,
                self@.max_in_flight == start.max_in_flight,
                self@.in_flight == start.in_flight,
                start.next <= self@.next,
                self@.outcomes.len() == start.outcomes.len(),
                forall|i: int| start.next <= i < self@.next ==> !needs_fetch(cache@, #[trigger] self@.feeds[i]),
                forall|i: int| 0 <= i < self@.outcomes.len() ==> #[trigger] self@.outcomes[i] == (
                    if start.next <= i < self@.next {
                        FeedOutcome::FromCache
                    } else {
                        start.outcomes[i]
                    }),
                self@.articles == start.articles + cached_articles(cache@, start.feeds, start.next as int, self@.next as int),
            decreases self.feeds@.len() - self.next,
        {
            let i = self.next;
            assert(self@.feeds[i as int] == self.feeds@[i as int]@);
            match cache.get(&self.feeds[i].title) {
                Some(arts) => {
                    let ghost before = self@;
                    append_copies(&mut self.articles, arts);
                    self.outcomes.set(i, FeedOutcome::FromCache);
                    self.next = i + 1;
                    assert(self@.articles =~= start.articles
                        + cached_articles(cache@, start.feeds, start.next as int, self@.next as int));
                    assert forall|k: int| 0 <= k < self@.in_flight.len() implies {
                        &&& #[trigger] self@.in_flight[k] < self@.next
                        &&& self@.outcomes[self@.in_flight[k] as int] == FeedOutcome::Pending
                    } by {
                        assert(before.in_flight[k] < before.next);
                    }
                },
                None => {
                    if self.in_flight.len() < self.max_in_flight {
                        let ghost before = self@;
                        self.in_flight.push(i);
                        self.next = i + 1;
                        assert(self@.in_flight[self@.in_flight.len() - 1] == i);
                        assert forall|a: int, b: int| 0 <= a < b < self@.in_flight.len()
                            implies self@.in_flight[a] != self@.in_flight[b] by {
                            if b == self@.in_flight.len() - 1 {
                                assert(before.in_flight[a] < before.next);
                            }
                        }
                        assert forall|k: int| 0 <= k < self@.in_flight.len() implies {
                            &&& #[trigger] self@.in_flight[k] < self@.next
                            &&& self@.outcomes[self@.in_flight[k] as int] == FeedOutcome::Pending
                        } by {
                            if k < before.in_flight.len() {
                                assert(before.in_flight[k] < before.next);
                            }
                        }
                        return RoundStep::Fetch { index: i, url: self.feeds[i].xml_url.clone() };
                    } else {
                        return RoundStep::Wait;
                    }
                },
            }
        }
        if self.in_flight.len() == 0 {
            RoundStep::Finished
        } else {
            RoundStep::Wait
        }
    }

    /// Records the outcome of the fetch in flight for the feed at `index`:
    /// `Some(articles)` for a document received and parsed, `None` for a
    /// failed fetch. The articles are added to the round and written to
    /// `cache` under the feed's title; a failure adds and writes nothing.
    pub fn record_fetch(&mut self, cache: &mut ResultCache, index: usize, parsed: Option<Vec<Article>>)
        requires
            old(self).wf(),
            old(cache).wf(),
            old(self)@.in_flight.contains(index),
        ensures
            final(self).wf(),
            final(cache).wf(),
            final(self)@.feeds == old(self)@.feeds,
            final(self)@.max_in_flight == old(self)@.max_in_flight,
            final(self)@.next == old(self)@.next,
            exists|k: int| 0 <= k < old(self)@.in_flight.len() && old(self)@.in_flight[k] == index
                && final(self)@.in_flight == old(self)@.in_flight.remove(k),
            match parsed {
                Some(a) => {
                    &&& final(cache)@ == old(cache)@.insert(old(self)@.feeds[index as int].title, article_views(a@))
                    &&& final(self)@.articles == old(self)@.articles + article_views(a@)
                    &&& final(self)@.outcomes == old(self)@.outcomes.update(index as int, FeedOutcome::Fetched)
                },
                None => {
                    &&& final(cache)@ == old(cache)@
                    &&& final(self)@.articles == old(self)@.articles
                    &&& final(self)@.outcomes == old(self)@.outcomes.update(index as int, FeedOutcome::Failed)
                },
            },
    {
        let ghost before = self@;
        let mut k: usize = 0;
        while k < self.in_flight.len() && self.in_flight[k] != index
            invariant
                k <= self.in_flight@.len(),
                forall|j: int| 0 <= j < k ==> self.in_flight@[j] != index,
                self@ == before,
            decreases self.in_flight@.len() - k,
        {
            k = k + 1;
        }
        proof {
            if k == self.in_flight@.len() {
                let j = choose|j: int| 0 <= j < before.in_flight.len() && before.in_flight[j] == index;
                assert(false);
            }
        }
        assert(before.in_flight[k as int] < before.next);
        self.in_flight.remove(k);
        let ghost removed = self@.in_flight;
        assert(removed =~= before.in_flight.remove(k as int));
        assert forall|a: int, b: int| 0 <= a < b < removed.len() implies removed[a] != removed[b] by {
            let a2 = if a < k { a } else { a + 1 };
            let b2 = if b < k { b } else { b + 1 };
            assert(removed[a] == before.in_flight[a2] && removed[b] == before.in_flight[b2]);
        }
        assert forall|j: int| 0 <= j < removed.len() implies removed[j] != index by {
            let j2 = if j < k { j } else { j + 1 };
            assert(removed[j] == before.in_flight[j2]);
            assert(j2 != k);
            assert(before.in_flight[j2] != before.in_flight[k as int]);
        }
        assert(before.in_flight[k as int] == index && removed == before.in_flight.remove(k as int));
        assert(self.feeds@[index as int]@ == before.feeds[index as int]);
        match parsed {
            Some(arts) => {
                let title = self.feeds[index].title.clone();
                append_copies(&mut self.articles, &arts);
                cache.put(title, arts);
                self.outcomes.set(index, FeedOutcome::Fetched);
            },
            None => {
                self.outcomes.set(index, FeedOutcome::Failed);
            },
        }
        assert forall|j: int| 0 <= j < self@.in_flight.len() implies {
            &&& #[trigger] self@.in_flight[j] < self@.next
            &&& self@.outcomes[self@.in_flight[j] as int] == FeedOutcome::Pending
        } by {
            let j2 = if j < k { j } else { j + 1 };
            assert(removed[j] == before.in_flight[j2]);
        }
    }

    /// Records the outcome of the fetch in flight for the feed at `index`:
    /// `Some(body)` for a document received, `None` for a failed fetch. A
    /// document is parsed, its recent articles added to the round and written
    /// to `cache` under the feed's title; a failure adds and writes nothing.
    pub fn complete(&mut self, cache: &mut ResultCache, index: usize, body: Option<String>, window: Window)
        requires
            old(self).wf(),
            old(cache).wf(),
            old(self)@.in_flight.contains(index),
        ensures
            final(self).wf(),
            final(cache).wf(),
            final(self)@.feeds == old(self)@.feeds,
            final(self)@.max_in_flight == old(self)@.max_in_flight,
            final(self)@.next == old(self)@.next,
            exists|k: int| 0 <= k < old(self)@.in_flight.len() && old(self)@.in_flight[k] == index
                && final(self)@.in_flight == old(self)@.in_flight.remove(k),
            match body {
                Some(b) => {
                    let f = old(self)@.feeds[index as int];
                    &&& final(cache)@ == old(cache)@.insert(f.title, fetched_articles(f, window, b@))
                    &&& final(self)@.articles == old(self)@.articles + fetched_articles(f, window, b@)
                    &&& final(self)@.outcomes == old(self)@.outcomes.update(index as int, FeedOutcome::Fetched)
                },
                None => {
                    &&& final(cache)@ == old(cache)@
                    &&& final(self)@.articles == old(self)@.articles
                    &&& final(self)@.outcomes == old(self)@.outcomes.update(index as int, FeedOutcome::Failed)
                },
            },
    {
        proof {
            let k = choose|k: int| 0 <= k < self@.in_flight.len() && self@.in_flight[k] == index;
            assert(self@.in_flight[k] < self@.next);
        }
        let parsed = match body {
            Some(b) => {
                assert(self.feeds@[index as int]@ == self@.feeds[index as int]);
                Some(parse_feed(b.as_str(), &self.feeds[index].title, window))
            },
            None => None,
        };
        self.record_fetch(cache, index, parsed);
    }

    /// The title of the feed at `index`.
    pub fn feed_title(&self, index: usize) -> (r: &String)
        requires
            index < self@.feeds.len(),
        ensures
            r@ == self@.feeds[index as int].title,
    {
        &self.feeds[index].title
    }

    /// The articles gathered so far: those of the feeds served from the cache
    /// and of the documents received, in the order they were served.
    pub fn articles(&self) -> (r: &Vec<Article>)
        ensures
            article_views(r@) == self@.articles,
    {
        &self.articles
    }

    /// What became of the feed at `index`.
    pub fn outcome(&self, index: usize) -> (r: FeedOutcome)
        requires
            self.wf(),
            index < self@.feeds.len(),
        ensures
            r == self@.outcomes[index as int],
    {
        self.outcomes[index]
    }

    /// How many fetches are in flight.
    pub fn in_flight_count(&self) -> (r: usize)
        ensures
            r == self@.in_flight.len(),
    {
        self.in_flight.len()
    }
}

/// In every state of a round, no more fetches are in flight than its ceiling
/// allows.
pub proof fn lemma_in_flight_within_ceiling(r: RoundView)
    requires
        round_wf(r),
    ensures
        r.in_flight.len() <= r.max_in_flight,
{
}

/// Once a fetch of a feed has succeeded, the cache holds its title, so no
/// later round fetches that feed again: it is served from the cache.
pub proof fn lemma_no_second_fetch_after_success(
    cache: Map<Seq<char>, Seq<ArticleView>>,
    f: FeedView,
    window: Window,
    body: Seq<char>,
)
    ensures
        !needs_fetch(cache.insert(f.title, fetched_articles(f, window, body)), f),
{
}

} // verus!
