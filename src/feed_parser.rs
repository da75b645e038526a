//! The feed parser: a state machine over the events of a feed document that
//! gives one article per `item` (or `entry`) dated at or after a cutoff.
//!
//! Articles are kept whether or not they carry `content:encoded`; an article
//! without it has an empty `content_encoded`. A publication date that is
//! absent or does not parse as RFC 2822 counts as the current time.

use vstd::prelude::*;
use vstd::string::StringExecFns;
use crate::clock::{Instant, Window, at_or_after, is_at_or_after, parse_rfc2822, rfc2822_instant};
use crate::xml_tokens::{QName, XmlToken, read_xml_tokens, text_is, xml_tokens_of};

verus! {

/// One article of a feed, with its publication date as it was written.
#[derive(Clone, Debug)]
pub struct Article {
    pub title: String,
    pub link: String,
    pub description: String,
    pub pub_date: String,
    pub feed_title: String,
    pub content_encoded: String,
}

/// An article as character sequences.
pub struct ArticleView {
    pub title: Seq<char>,
    pub link: Seq<char>,
    pub description: Seq<char>,
    pub pub_date: Seq<char>,
    pub feed_title: Seq<char>,
    pub content_encoded: Seq<char>,
}

impl View for Article {
    type V = ArticleView;

    open spec fn view(&self) -> ArticleView {
        ArticleView {
            title: self.title@,
            link: self.link@,
            description: self.description@,
            pub_date: self.pub_date@,
            feed_title: self.feed_title@,
            content_encoded: self.content_encoded@,
        }
    }
}

/// The views of a sequence of articles.
pub open spec fn article_views(s: Seq<Article>) -> Seq<ArticleView> {
    s.map_values(|a: Article| a@)
}

/// The view of an optional article.
pub open spec fn opt_article_view(o: Option<Article>) -> Option<ArticleView> {
    match o {
        Some(a) => Some(a@),
        None => None,
    }
}

/// An article of the feed `feed_title` with every other field empty.
pub open spec fn blank_article(feed_title: Seq<char>) -> ArticleView {
    ArticleView {
        title: Seq::empty(),
        link: Seq::empty(),
        description: Seq::empty(),
        pub_date: Seq::empty(),
        feed_title,
        content_encoded: Seq::empty(),
    }
}

/// The namespace URI of the RSS content module.
pub open spec fn content_namespace() -> Seq<char> {
    "http://purl.org/rss/1.0/modules/content/"@
}

/// The element is `encoded` in the RSS content module's namespace.
pub open spec fn is_content_encoded(name: QName) -> bool {
    name.local@ == "encoded"@ && match name.namespace {
        Some(ns) => ns@ == content_namespace(),
        None => false,
    }
}

/// The local name opens or closes an article.
pub open spec fn is_item_tag(local: Seq<char>) -> bool {
    local == "item"@ || local == "entry"@
}

/// The instant an article counts as published: the RFC 2822 date it carries,
/// or `now` where it carries none that parses.
pub open spec fn publication_instant(pub_date: Seq<char>, now: Instant) -> Instant {
    if pub_date.len() == 0 {
        now
    } else {
        match rfc2822_instant(pub_date) {
            Some(d) => d,
            None => now,
        }
    }
}

/// The state of the parser between two events.
pub struct ParserView {
    pub feed_title: Seq<char>,
    pub now: Instant,
    pub cutoff: Instant,
    /// Inside an `item` or `entry`.
    pub in_item: bool,
    /// Inside the item's `content:encoded`.
    pub in_encoded: bool,
    /// The text read since the last start tag or field.
    pub text: Seq<char>,
    /// The article being read.
    pub current: ArticleView,
}

/// The state before the first event.
pub open spec fn initial_state(feed_title: Seq<char>, w: Window) -> ParserView {
    ParserView {
        feed_title,
        now: w.now,
        cutoff: w.cutoff,
        in_item: false,
        in_encoded: false,
        text: Seq::empty(),
        current: blank_article(feed_title),
    }
}

/// Closing an article: it is given if it counts as published at or after the
/// cutoff; either way the parser is outside any article afterwards.
pub open spec fn close_item(p: ParserView) -> (ParserView, Option<ArticleView>) {
    let next = ParserView {
        in_item: false,
        in_encoded: false,
        text: Seq::empty(),
        current: blank_article(p.feed_title),
        ..p
    };
    if at_or_after(publication_instant(p.current.pub_date, p.now), p.cutoff) {
        (next, Some(p.current))
    } else {
        (next, None)
    }
}

/// The effect of an end tag inside an article.
pub open spec fn end_in_item(p: ParserView, name: QName) -> (ParserView, Option<ArticleView>) {
    let l = name.local@;
    let cleared = Seq::<char>::empty();
    if l == "title"@ {
        (ParserView { current: ArticleView { title: p.text, ..p.current }, text: cleared, ..p }, None)
    } else if l == "link"@ {
        (ParserView { current: ArticleView { link: p.text, ..p.current }, text: cleared, ..p }, None)
    } else if l == "description"@ {
        (ParserView { current: ArticleView { description: p.text, ..p.current }, text: cleared, ..p }, None)
    } else if l == "pubDate"@ {
        (ParserView { current: ArticleView { pub_date: p.text, ..p.current }, text: cleared, ..p }, None)
    } else if is_content_encoded(name) {
        (ParserView { in_encoded: false, ..p }, None)
    } else if is_item_tag(l) {
        close_item(p)
    } else {
        (p, None)
    }
}

/// One event read: the next state, and the article it completes, if any.
pub open spec fn step(p: ParserView, t: XmlToken) -> (ParserView, Option<ArticleView>) {
    match t {
        XmlToken::Start { name, .. } => {
            if is_item_tag(name.local@) {
                (ParserView { in_item: true, ..p }, None)
            } else if p.in_item {
                (ParserView {
                    text: Seq::empty(),
                    in_encoded: p.in_encoded || is_content_encoded(name),
                    ..p
                }, None)
            } else {
                (p, None)
            }
        },
        XmlToken::Text { content } => {
            if !p.in_item {
                (p, None)
            } else if p.in_encoded {
                (ParserView {
                    current: ArticleView {
                        content_encoded: p.current.content_encoded + content@,
                        ..p.current
                    },
                    ..p
                }, None)
            } else {
                (ParserView { text: p.text + content@, ..p }, None)
            }
        },
        XmlToken::End { name } => {
            if p.in_item {
                end_in_item(p, name)
            } else {
                (p, None)
            }
        },
        _ => (p, None),
    }
}

/// The articles that a stream of events gives from state `p`, in document
/// order, up to the first malformation.
pub open spec fn articles_in(p: ParserView, toks: Seq<XmlToken>) -> Seq<ArticleView>
    decreases toks.len(),
{
    if toks.len() == 0 || toks[0] is Malformed {
        Seq::empty()
    } else {
        let (q, o) = step(p, toks[0]);
        match o {
            Some(a) => seq![a] + articles_in(q, toks.drop_first()),
            None => articles_in(q, toks.drop_first()),
        }
    }
}

/// Whether an article whose date parsed to `parsed` (`None`: no date, or one
/// that does not parse) is recent in `window`: its date, or the window's
/// `now` for want of one, is at or after the cutoff.
pub fn is_recent(parsed: Option<Instant>, window: Window) -> (r: bool)
    ensures
        r == at_or_after(
            match parsed {
                Some(d) => d,
                None => window.now,
            },
            window.cutoff,
        ),
{
    match parsed {
        Some(d) => is_at_or_after(d, window.cutoff),
        None => is_at_or_after(window.now, window.cutoff),
    }
}

/// An article of the feed `feed_title` with every other field empty.
pub fn new_article(feed_title: &String) -> (r: Article)
    ensures
        r@ == blank_article(feed_title@),
{
    Article {
        title: String::new(),
        link: String::new(),
        description: String::new(),
        pub_date: String::new(),
        feed_title: feed_title.clone(),
        content_encoded: String::new(),
    }
}

fn is_content_encoded_name(name: &QName) -> (r: bool)
    ensures
        r == is_content_encoded(*name),
{
    if !text_is(&name.local, "encoded") {
        return false;
    }
    match &name.namespace {
        Some(ns) => text_is(ns, "http://purl.org/rss/1.0/modules/content/"),
        None => false,
    }
}

fn is_item_name(local: &String) -> (r: bool)
    ensures
        r == is_item_tag(local@),
{
    text_is(local, "item") || text_is(local, "entry")
}

/// The streaming parser of one feed's document.
pub struct FeedParser {
    feed_title: String,
    window: Window,
    in_item: bool,
    in_encoded: bool,
    text: String,
    current: Article,
}

impl View for FeedParser {
    type V = ParserView;

    closed spec fn view(&self) -> ParserView {
        ParserView {
            feed_title: self.feed_title@,
            now: self.window.now,
            cutoff: self.window.cutoff,
            in_item: self.in_item,
            in_encoded: self.in_encoded,
            text: self.text@,
            current: self.current@,
        }
    }
}

impl FeedParser {
    /// A parser for the feed `feed_title`, keeping what is recent in `window`.
    pub fn new(feed_title: &String, window: Window) -> (r: FeedParser)
        ensures
            r@ == initial_state(feed_title@, window),
    {
        FeedParser {
            feed_title: feed_title.clone(),
            window,
            in_item: false,
            in_encoded: false,
            text: String::new(),
            current: new_article(feed_title),
        }
    }

    fn close_item(&mut self) -> (r: Option<Article>)
        ensures
            (final(self)@, opt_article_view(r)) == close_item(old(self)@),
    {
        let parsed = if self.current.pub_date.as_str().is_empty() {
            None
        } else {
            parse_rfc2822(self.current.pub_date.as_str())
        };
        let keep = is_recent(parsed, self.window);
        let mut done = new_article(&self.feed_title);
        std::mem::swap(&mut done, &mut self.current);
        self.in_item = false;
        self.in_encoded = false;
        self.text = String::new();
        if keep {
            Some(done)
        } else {
            None
        }
    }

    fn end_in_item(&mut self, name: &QName) -> (r: Option<Article>)
        ensures
            (final(self)@, opt_article_view(r)) == end_in_item(old(self)@, *name),
    {
        let l = &name.local;
        if text_is(l, "title") {
            self.current.title = self.text.clone();
            self.text = String::new();
        } else if text_is(l, "link") {
            self.current.link = self.text.clone();
            self.text = String::new();
        } else if text_is(l, "description") {
            self.current.description = self.text.clone();
            self.text = String::new();
        } else if text_is(l, "pubDate") {
            self.current.pub_date = self.text.clone();
            self.text = String::new();
        } else if is_content_encoded_name(name) {
            self.in_encoded = false;
        } else if is_item_name(l) {
            return self.close_item();
        }
        None
    }

    /// Reads one event; gives the article that it completes, if any.
    pub fn feed(&mut self, t: &XmlToken) -> (r: Option<Article>)
        ensures
            (final(self)@, opt_article_view(r)) == step(old(self)@, *t),
    {
        match t {
            XmlToken::Start { name, .. } => {
                if is_item_name(&name.local) {
                    self.in_item = true;
                } else if self.in_item {
                    self.text = String::new();
                    if is_content_encoded_name(name) {
                        self.in_encoded = true;
                    }
                }
                None
            },
            XmlToken::Text { content } => {
                if self.in_item {
                    if self.in_encoded {
                        self.current.content_encoded.append(content.as_str());
                    } else {
                        self.text.append(content.as_str());
                    }
                }
                None
            },
            XmlToken::End { name } => {
                if self.in_item {
                    self.end_in_item(name)
                } else {
                    None
                }
            },
            _ => None,
        }
    }
}

/// The articles of a feed's events, in document order, that are recent in
/// `window`; reading stops at the first malformation and keeps what came
/// before it.
pub fn articles_from_tokens(tokens: &Vec<XmlToken>, feed_title: &String, window: Window) -> (r: Vec<Article>)
    ensures
        article_views(r@) == articles_in(initial_state(feed_title@, window), tokens@),
{
    let mut parser = FeedParser::new(feed_title, window);
    let ghost start = parser@;
    let mut out: Vec<Article> = Vec::new();
    let mut i: usize = 0;
    assert(tokens@.skip(0) =~= tokens@);
    assert(article_views(out@) + articles_in(start, tokens@) =~= articles_in(start, tokens@));
    while i < tokens.len()
        invariant
            i <= tokens.len(),
            start == initial_state(feed_title@, window),
            articles_in(start, tokens@) == article_views(out@) + articles_in(parser@, tokens@.skip(i as int)),
        decreases tokens.len() - i,
    {
        assert(tokens@.skip(i as int).drop_first() =~= tokens@.skip(i + 1));
        if matches!(tokens[i], XmlToken::Malformed) {
            assert(tokens@.skip(i as int)[0] == tokens@[i as int]);
            assert(articles_in(parser@, tokens@.skip(i as int)) =~= Seq::empty());
            assert(article_views(out@) + Seq::empty() =~= article_views(out@));
            return out;
        }
        let ghost before = parser@;
        let ghost old_out = out@;
        match parser.feed(&tokens[i]) {
            Some(a) => {
                out.push(a);
                assert(article_views(out@) =~= article_views(old_out) + seq![a@]);
                assert(article_views(old_out) + (seq![a@] + articles_in(parser@, tokens@.skip(i + 1)))
                    =~= article_views(out@) + articles_in(parser@, tokens@.skip(i + 1)));
            },
            None => {},
        }
        i = i + 1;
    }
    assert(tokens@.skip(i as int) =~= Seq::empty());
    assert(article_views(out@) + Seq::empty() =~= article_views(out@));
    out
}

/// The articles of the feed `feed_title` whose document is `body`, in
/// document order, that are recent in `window`. A body that stops being
/// well-formed gives the articles completed before that point.
pub fn parse_feed(body: &str, feed_title: &String, window: Window) -> (r: Vec<Article>)
    ensures
        article_views(r@) == articles_in(initial_state(feed_title@, window), xml_tokens_of(body@)),
{
    let tokens = read_xml_tokens(body);
    articles_from_tokens(&tokens, feed_title, window)
}

/// No event changes the feed title, the current time or the cutoff.
pub proof fn lemma_step_keeps_settings(p: ParserView, t: XmlToken)
    ensures
        step(p, t).0.feed_title == p.feed_title,
        step(p, t).0.now == p.now,
        step(p, t).0.cutoff == p.cutoff,
{
}

/// Every article given is the one being read when an event closed it, and it
/// counts as published at or after the cutoff.
pub proof fn lemma_step_gives_only_recent(p: ParserView, t: XmlToken)
    ensures
        step(p, t).1 matches Some(a) ==> a == p.current
            && at_or_after(publication_instant(a.pub_date, p.now), p.cutoff),
{
}

/// Closing an article gives it exactly when it counts as published at or after
/// the cutoff: articles dated before the cutoff are left out, all others kept.
pub proof fn lemma_close_gives_iff_recent(p: ParserView, name: QName)
    requires
        p.in_item,
        is_item_tag(name.local@),
    ensures
        step(p, XmlToken::End { name }).1 == (if at_or_after(publication_instant(p.current.pub_date, p.now), p.cutoff) {
            Some(p.current)
        } else {
            None
        }),
        !step(p, XmlToken::End { name }).0.in_item,
{
    reveal_strlit("item");
    reveal_strlit("entry");
    reveal_strlit("title");
    reveal_strlit("link");
    reveal_strlit("description");
    reveal_strlit("pubDate");
    reveal_strlit("encoded");
    let l = name.local@;
    assert(l.len() == 4 || l.len() == 5);
    if l.len() == 4 {
        assert(l == "item"@);
        assert(l[0] != "link"@[0]);
    } else {
        assert(l == "entry"@);
        assert(l[0] != "title"@[0]);
    }
}

/// An article without a publication date counts as published now, so it is
/// kept whatever the cutoff, as long as the cutoff is not after now.
pub proof fn lemma_undated_article_kept(p: ParserView, name: QName)
    requires
        p.in_item,
        is_item_tag(name.local@),
        p.current.pub_date.len() == 0,
        at_or_after(p.now, p.cutoff),
    ensures
        step(p, XmlToken::End { name }).1 == Some(p.current),
{
    lemma_close_gives_iff_recent(p, name);
}

/// Every article that a stream of events gives counts as published at or
/// after the cutoff.
pub proof fn lemma_articles_are_recent(p: ParserView, toks: Seq<XmlToken>)
    ensures
        forall|j: int| 0 <= j < articles_in(p, toks).len()
            ==> at_or_after(publication_instant((#[trigger] articles_in(p, toks)[j]).pub_date, p.now), p.cutoff),
    decreases toks.len(),
{
    if toks.len() > 0 && !(toks[0] is Malformed) {
        let (q, o) = step(p, toks[0]);
        lemma_step_keeps_settings(p, toks[0]);
        lemma_step_gives_only_recent(p, toks[0]);
        lemma_articles_are_recent(q, toks.drop_first());
        match o {
            Some(a) => {
                assert forall|j: int| 0 <= j < articles_in(p, toks).len()
                    implies at_or_after(publication_instant((#[trigger] articles_in(p, toks)[j]).pub_date, p.now), p.cutoff) by {
                    if j > 0 {
                        assert(articles_in(p, toks)[j] == articles_in(q, toks.drop_first())[j - 1]);
                    }
                }
            },
            None => {},
        }
    }
}

/// A malformation ends reading: the articles of a stream broken after `before`
/// are exactly those completed in `before`, whatever follows.
pub proof fn lemma_malformed_keeps_prefix(p: ParserView, before: Seq<XmlToken>, after: Seq<XmlToken>)
    requires
        forall|i: int| 0 <= i < before.len() ==> !(#[trigger] before[i] is Malformed),
    ensures
        articles_in(p, before + seq![XmlToken::Malformed] + after) == articles_in(p, before),
    decreases before.len(),
{
    let whole = before + seq![XmlToken::Malformed] + after;
    if before.len() == 0 {
        assert(whole[0] is Malformed);
    } else {
        let rest = before.drop_first();
        assert(whole[0] == before[0]);
        assert(whole.drop_first() =~= rest + seq![XmlToken::Malformed] + after);
        assert forall|i: int| 0 <= i < rest.len() implies !(#[trigger] rest[i] is Malformed) by {
            assert(rest[i] == before[i + 1]);
        }
        lemma_malformed_keeps_prefix(step(p, before[0]).0, rest, after);
    }
}

} // verus!
