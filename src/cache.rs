//! The result cache: the articles of each feed at its last successful fetch,
//! keyed by feed title. Entries are replaced whole and never evicted.

use vstd::prelude::*;
use crate::feed_parser::{Article, ArticleView, article_views};

verus! {

/// A copy of an article.
pub fn copy_article(a: &Article) -> (r: Article)
    ensures
        r@ == a@,
{
    Article {
        title: a.title.clone(),
        link: a.link.clone(),
        description: a.description.clone(),
        pub_date: a.pub_date.clone(),
        feed_title: a.feed_title.clone(),
        content_encoded: a.content_encoded.clone(),
    }
}

/// Appends copies of the articles of `src` to `dst`, in order.
pub fn append_copies(dst: &mut Vec<Article>, src: &Vec<Article>)
    ensures
        article_views(final(dst)@) == article_views(old(dst)@) + article_views(src@),
{
    let ghost start = article_views(dst@);
    let mut i: usize = 0;
    while i < src.len()
        invariant
            i <= src.len(),
            article_views(dst@) == start + article_views(src@.take(i as int)),
        decreases src.len() - i,
    {
        let ghost before = dst@;
        dst.push(copy_article(&src[i]));
        assert(article_views(dst@) =~= article_views(before) + seq![src@[i as int]@]);
        assert(article_views(src@.take(i + 1)) =~= article_views(src@.take(i as int)) + seq![src@[i as int]@]);
        i = i + 1;
    }
    assert(src@.take(i as int) =~= src@);
}

/// The articles stored for one feed.
pub struct CacheEntry {
    pub title: String,
    pub articles: Vec<Article>,
}

/// A mapping from feed title to the articles of that feed's last successful
/// fetch.
pub struct ResultCache {
    entries: Vec<CacheEntry>,
    contents: Ghost<Map<Seq<char>, Seq<ArticleView>>>,
}

impl View for ResultCache {
    type V = Map<Seq<char>, Seq<ArticleView>>;

    closed spec fn view(&self) -> Map<Seq<char>, Seq<ArticleView>> {
        self.contents@
    }
}

impl ResultCache {
    /// Each title is stored once, and the entries are exactly the contents.
    pub closed spec fn wf(&self) -> bool {
        &&& forall|i: int, j: int|
            0 <= i < j < self.entries@.len() ==> self.entries@[i].title@ != self.entries@[j].title@
        &&& forall|i: int| 0 <= i < self.entries@.len() ==> {
            &&& self.contents@.contains_key(#[trigger] self.entries@[i].title@)
            &&& self.contents@[self.entries@[i].title@] == article_views(self.entries@[i].articles@)
        }
        &&& forall|k: Seq<char>| #[trigger] self.contents@.contains_key(k)
            ==> exists|i: int| 0 <= i < self.entries@.len() && self.entries@[i].title@ == k
    }

    /// An empty cache.
    pub fn new() -> (r: ResultCache)
        ensures
            r.wf(),
            r@ == Map::<Seq<char>, Seq<ArticleView>>::empty(),
    {
        ResultCache { entries: Vec::new(), contents: Ghost(Map::empty()) }
    }

    fn find(&self, title: &String) -> (r: Option<usize>)
        requires
            self.wf(),
        ensures
            match r {
                Some(i) => i < self.entries@.len() && self.entries@[i as int].title@ == title@,
                None => !self@.contains_key(title@),
            },
    {
        let mut i: usize = 0;
        while i < self.entries.len()
            invariant
                i <= self.entries@.len(),
                forall|j: int| 0 <= j < i ==> self.entries@[j].title@ != title@,
            decreases self.entries@.len() - i,
        {
            if self.entries[i].title == *title {
                return Some(i);
            }
            i = i + 1;
        }
        None
    }

    /// The articles stored for `title`, if any.
    pub fn get(&self, title: &String) -> (r: Option<&Vec<Article>>)
        requires
            self.wf(),
        ensures
            match r {
                Some(v) => self@.contains_key(title@) && article_views(v@) == self@[title@],
                None => !self@.contains_key(title@),
            },
    {
        match self.find(title) {
            Some(i) => Some(&self.entries[i].articles),
            None => None,
        }
    }

    /// Whether articles are stored for `title`.
    pub fn contains(&self, title: &String) -> (r: bool)
        requires
            self.wf(),
        ensures
            r == self@.contains_key(title@),
    {
        self.find(title).is_some()
    }

    /// Stores `articles` for `title`, replacing whatever was stored for it.
    pub fn put(&mut self, title: String, articles: Vec<Article>)
        requires
            old(self).wf(),
        ensures
            final(self).wf(),
            final(self)@ == old(self)@.insert(title@, article_views(articles@)),
    {
        let ghost key = title@;
        let ghost value = article_views(articles@);
        let ghost old_entries = self.entries@;
        match self.find(&title) {
            Some(i) => {
                self.entries.set(i, CacheEntry { title, articles });
                self.contents = Ghost(self.contents@.insert(key, value));
                assert forall|k: Seq<char>| #[trigger] self.contents@.contains_key(k)
                    implies exists|j: int| 0 <= j < self.entries@.len() && self.entries@[j].title@ == k by {
                    if k != key {
                        let j = choose|j: int| 0 <= j < old_entries.len() && old_entries[j].title@ == k;
                        assert(self.entries@[j].title@ == k);
                    } else {
                        assert(self.entries@[i as int].title@ == k);
                    }
                }
            },
            None => {
                self.entries.push(CacheEntry { title, articles });
                self.contents = Ghost(self.contents@.insert(key, value));
                let ghost n: int = self.entries@.len() - 1;
                assert forall|k: Seq<char>| #[trigger] self.contents@.contains_key(k)
                    implies exists|j: int| 0 <= j < self.entries@.len() && self.entries@[j].title@ == k by {
                    if k != key {
                        let j = choose|j: int| 0 <= j < old_entries.len() && old_entries[j].title@ == k;
                        assert(self.entries@[j].title@ == k);
                    } else {
                        assert(self.entries@[n].title@ == k);
                    }
                }
            },
        }
    }
}

} // verus!
