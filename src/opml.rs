//! The subscription loader: the `outline` elements of an OPML document, as
//! feed descriptors in document order.

use vstd::prelude::*;
use crate::xml_tokens::{Attribute, XmlToken, read_xml_tokens, text_is, xml_tokens_of};

verus! {

/// A subscribed feed: its title, the URL of its feed document, and the URL of
/// its site.
#[derive(Clone, Debug)]
pub struct Feed {
    pub title: String,
    pub xml_url: String,
    pub html_url: String,
}

/// A feed descriptor as character sequences.
pub struct FeedView {
    pub title: Seq<char>,
    pub xml_url: Seq<char>,
    pub html_url: Seq<char>,
}

impl View for Feed {
    type V = FeedView;

    open spec fn view(&self) -> FeedView {
        FeedView { title: self.title@, xml_url: self.xml_url@, html_url: self.html_url@ }
    }
}

/// The views of a sequence of feeds.
pub open spec fn feed_views(s: Seq<Feed>) -> Seq<FeedView> {
    s.map_values(|f: Feed| f@)
}

/// The value of the last attribute named `key`, or the empty text if none is.
pub open spec fn attr_value(attrs: Seq<Attribute>, key: Seq<char>) -> Seq<char>
    decreases attrs.len(),
{
    if attrs.len() == 0 {
        Seq::empty()
    } else if attrs.last().name@ == key {
        attrs.last().value@
    } else {
        attr_value(attrs.drop_last(), key)
    }
}

/// The descriptor that an `outline` element with these attributes gives.
pub open spec fn outline_of(attrs: Seq<Attribute>) -> FeedView {
    FeedView {
        title: attr_value(attrs, "title"@),
        xml_url: attr_value(attrs, "xmlUrl"@),
        html_url: attr_value(attrs, "htmlUrl"@),
    }
}

/// The subscription that one event declares: an `outline` start tag whose
/// `xmlUrl` is not empty.
pub open spec fn subscription_of(t: XmlToken) -> Option<FeedView> {
    match t {
        XmlToken::Start { name, attributes } => {
            let f = outline_of(attributes@);
            if name.local@ == "outline"@ && f.xml_url.len() > 0 {
                Some(f)
            } else {
                None
            }
        },
        _ => None,
    }
}

/// The subscriptions that a stream of events declares, in order, up to the
/// first malformation.
pub open spec fn subscriptions_in(toks: Seq<XmlToken>) -> Seq<FeedView>
    decreases toks.len(),
{
    if toks.len() == 0 || toks[0] is Malformed {
        Seq::empty()
    } else {
        match subscription_of(toks[0]) {
            Some(f) => seq![f] + subscriptions_in(toks.drop_first()),
            None => subscriptions_in(toks.drop_first()),
        }
    }
}

/// How many events of the stream declare a subscription.
pub open spec fn subscription_count(toks: Seq<XmlToken>) -> nat
    decreases toks.len(),
{
    if toks.len() == 0 {
        0
    } else {
        (if subscription_of(toks[0]) is Some { 1nat } else { 0nat })
            + subscription_count(toks.drop_first())
    }
}

/// The stream holds no malformation.
pub open spec fn well_formed(toks: Seq<XmlToken>) -> bool {
    forall|i: int| 0 <= i < toks.len() ==> !(#[trigger] toks[i] is Malformed)
}

/// The descriptor that an `outline` element with these attributes gives.
pub fn outline_from_attributes(attrs: &Vec<Attribute>) -> (r: Feed)
    ensures
        r@ == outline_of(attrs@),
{
    let mut feed = Feed { title: String::new(), xml_url: String::new(), html_url: String::new() };
    let mut i: usize = 0;
    while i < attrs.len()
        invariant
            i <= attrs.len(),
            feed@ == outline_of(attrs@.take(i as int)),
        decreases attrs.len() - i,
    {
        let a = &attrs[i];
        if text_is(&a.name, "title") {
            feed.title = a.value.clone();
        } else if text_is(&a.name, "xmlUrl") {
            feed.xml_url = a.value.clone();
        } else if text_is(&a.name, "htmlUrl") {
            feed.html_url = a.value.clone();
        }
        proof {
            reveal_strlit("title");
            reveal_strlit("xmlUrl");
            reveal_strlit("htmlUrl");
            assert("title"@.len() != "xmlUrl"@.len() && "title"@.len() != "htmlUrl"@.len()
                && "xmlUrl"@.len() != "htmlUrl"@.len());
            let pre = attrs@.take(i as int);
            let next = attrs@.take(i + 1);
            assert(next.drop_last() =~= pre);
            assert(next.last() == attrs@[i as int]);
            assert(attr_value(next, "title"@) == feed.title@);
            assert(attr_value(next, "xmlUrl"@) == feed.xml_url@);
            assert(attr_value(next, "htmlUrl"@) == feed.html_url@);
        }
        i = i + 1;
    }
    assert(attrs@.take(i as int) =~= attrs@);
    feed
}

/// The subscriptions that a stream of XML events declares, in document order,
/// up to the first malformation.
pub fn subscriptions_from_tokens(tokens: &Vec<XmlToken>) -> (r: Vec<Feed>)
    ensures
        feed_views(r@) == subscriptions_in(tokens@),
{
    let mut feeds: Vec<Feed> = Vec::new();
    let mut i: usize = 0;
    assert(tokens@.skip(0) =~= tokens@);
    assert(feed_views(feeds@) + subscriptions_in(tokens@) =~= subscriptions_in(tokens@));
    while i < tokens.len()
        invariant
            i <= tokens.len(),
            subscriptions_in(tokens@) == feed_views(feeds@) + subscriptions_in(tokens@.skip(i as int)),
        decreases tokens.len() - i,
    {
        assert(tokens@.skip(i as int).drop_first() =~= tokens@.skip(i + 1));
        match &tokens[i] {
            XmlToken::Malformed => {
                assert(subscriptions_in(tokens@.skip(i as int)) =~= Seq::empty());
                assert(feed_views(feeds@) + Seq::empty() =~= feed_views(feeds@));
                return feeds;
            },
            XmlToken::Start { name, attributes } => {
                if text_is(&name.local, "outline") {
                    let f = outline_from_attributes(attributes);
                    if !f.xml_url.as_str().is_empty() {
                        let ghost old_feeds = feeds@;
                        feeds.push(f);
                        assert(feed_views(feeds@) =~= feed_views(old_feeds) + seq![f@]);
                        assert(feed_views(old_feeds) + (seq![f@] + subscriptions_in(tokens@.skip(i + 1)))
                            =~= feed_views(feeds@) + subscriptions_in(tokens@.skip(i + 1)));
                    }
                }
            },
            _ => {},
        }
        i = i + 1;
    }
    assert(tokens@.skip(i as int) =~= Seq::empty());
    assert(feed_views(feeds@) + Seq::empty() =~= feed_views(feeds@));
    feeds
}

/// The subscriptions that an OPML document declares, in document order: one
/// for each `outline` element with a non-empty `xmlUrl`, up to the point where
/// the document stops being well-formed.
pub fn load_subscriptions(doc: &str) -> (r: Vec<Feed>)
    ensures
        feed_views(r@) == subscriptions_in(xml_tokens_of(doc@)),
{
    let tokens = read_xml_tokens(doc);
    subscriptions_from_tokens(&tokens)
}

/// In a well-formed document, the loader gives exactly one descriptor for each
/// `outline` element with a non-empty `xmlUrl`.
pub proof fn lemma_one_descriptor_per_subscribed_outline(toks: Seq<XmlToken>)
    requires
        well_formed(toks),
    ensures
        subscriptions_in(toks).len() == subscription_count(toks),
    decreases toks.len(),
{
    if toks.len() > 0 {
        assert(!(toks[0] is Malformed));
        let rest = toks.drop_first();
        assert forall|i: int| 0 <= i < rest.len() implies !(#[trigger] rest[i] is Malformed) by {
            assert(rest[i] == toks[i + 1]);
        }
        lemma_one_descriptor_per_subscribed_outline(rest);
    }
}

/// The descriptors keep document order: those of a well-formed first part come
/// before those of what follows it.
pub proof fn lemma_descriptors_in_document_order(a: Seq<XmlToken>, b: Seq<XmlToken>)
    requires
        well_formed(a),
    ensures
        subscriptions_in(a + b) == subscriptions_in(a) + subscriptions_in(b),
    decreases a.len(),
{
    if a.len() == 0 {
        assert(a + b =~= b);
        assert(subscriptions_in(a) + subscriptions_in(b) =~= subscriptions_in(b));
    } else {
        assert(!(a[0] is Malformed));
        let rest = a.drop_first();
        assert forall|i: int| 0 <= i < rest.len() implies !(#[trigger] rest[i] is Malformed) by {
            assert(rest[i] == a[i + 1]);
        }
        assert((a + b)[0] == a[0]);
        assert((a + b).drop_first() =~= rest + b);
        lemma_descriptors_in_document_order(rest, b);
        match subscription_of(a[0]) {
            Some(f) => {
                assert(seq![f] + (subscriptions_in(rest) + subscriptions_in(b))
                    =~= (seq![f] + subscriptions_in(rest)) + subscriptions_in(b));
            },
            None => {},
        }
    }
}

/// Every descriptor the loader gives has a non-empty feed URL: an `outline`
/// without `xmlUrl` is never among them.
pub proof fn lemma_descriptors_have_feed_url(toks: Seq<XmlToken>)
    ensures
        forall|j: int| 0 <= j < subscriptions_in(toks).len()
            ==> (#[trigger] subscriptions_in(toks)[j]).xml_url.len() > 0,
    decreases toks.len(),
{
    if toks.len() > 0 && !(toks[0] is Malformed) {
        let rest = toks.drop_first();
        lemma_descriptors_have_feed_url(rest);
        match subscription_of(toks[0]) {
            Some(f) => {
                assert forall|j: int| 0 <= j < subscriptions_in(toks).len()
                    implies (#[trigger] subscriptions_in(toks)[j]).xml_url.len() > 0 by {
                    if j > 0 {
                        assert(subscriptions_in(toks)[j] == subscriptions_in(rest)[j - 1]);
                    }
                }
            },
            None => {},
        }
    }
}

} // verus!
