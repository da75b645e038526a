use feedhub::clock::{cutoff_before, is_at_or_after, window_at, Instant, Window};
use feedhub::feed_parser::{articles_from_tokens, is_recent, parse_feed, FeedParser};
use feedhub::xml_tokens::{QName, XmlToken};

const NOW: i64 = 1_700_000_000; // Tue, 14 Nov 2023 22:13:20 +0000

fn window() -> Window {
    window_at(Instant { secs: NOW, nanos: 0 })
}

fn rss(items: &str) -> String {
    format!(
        r#"<?xml version="1.0"?><rss version="2.0" xmlns:content="http://purl.org/rss/1.0/modules/content/"><channel><title>Chan</title>{}</channel></rss>"#,
        items
    )
}

fn item(title: &str, date: Option<&str>) -> String {
    let d = date.map(|d| format!("<pubDate>{}</pubDate>", d)).unwrap_or_default();
    format!("<item><title>{}</title><link>http://x/{}</link><description>d {}</description>{}</item>", title, title, title, d)
}

fn titles(v: &[feedhub::feed_parser::Article]) -> Vec<String> {
    v.iter().map(|a| a.title.clone()).collect()
}

#[test]
fn cutoff_is_five_days_before_now() {
    let w = window();
    assert_eq!(w.cutoff, Instant { secs: NOW - 432_000, nanos: 0 });
    assert_eq!(w.now, Instant { secs: NOW, nanos: 0 });
}

#[test]
fn cutoff_keeps_nanoseconds_and_saturates() {
    assert_eq!(cutoff_before(Instant { secs: 100, nanos: 7 }, 1), Instant { secs: 100 - 86_400, nanos: 7 });
    assert_eq!(cutoff_before(Instant { secs: i64::MIN + 5, nanos: 0 }, 5), Instant { secs: i64::MIN, nanos: 0 });
}

#[test]
fn instant_order_uses_nanoseconds() {
    let a = Instant { secs: 10, nanos: 5 };
    let b = Instant { secs: 10, nanos: 6 };
    assert!(is_at_or_after(b, a));
    assert!(!is_at_or_after(a, b));
    assert!(is_at_or_after(a, a));
    assert!(is_at_or_after(Instant { secs: 11, nanos: 0 }, b));
}

#[test]
fn recent_goes_by_date_or_by_now() {
    let w = window();
    assert!(is_recent(None, w));
    assert!(is_recent(Some(w.cutoff), w));
    assert!(!is_recent(Some(Instant { secs: NOW - 432_001, nanos: 0 }), w));
    let late = Window { now: Instant { secs: 0, nanos: 0 }, cutoff: Instant { secs: 1, nanos: 0 } };
    assert!(!is_recent(None, late));
}

#[test]
fn items_before_cutoff_are_dropped_and_others_kept() {
    let body = rss(&[
        item("old", Some("Sat, 04 Nov 2023 20:00:00 +0000")),
        item("edge", Some("Thu, 09 Nov 2023 22:13:20 +0000")),
        item("justbefore", Some("Thu, 09 Nov 2023 22:13:19 +0000")),
        item("new", Some("Tue, 14 Nov 2023 20:00:00 +0000")),
    ].concat());
    let got = parse_feed(&body, &"F".to_string(), window());
    assert_eq!(titles(&got), vec!["edge", "new"]);
    assert_eq!(got[1].link, "http://x/new");
    assert_eq!(got[1].description, "d new");
    assert_eq!(got[1].pub_date, "Tue, 14 Nov 2023 20:00:00 +0000");
    assert_eq!(got[1].feed_title, "F");
}

#[test]
fn date_in_another_zone_is_compared_as_an_instant() {
    // 21:30 at -0100 is 22:30 UTC, after the cutoff at 22:13:20 UTC;
    // read as UTC it would fall before it.
    let body = rss(&item("zoned", Some("Thu, 09 Nov 2023 21:30:00 -0100")));
    assert_eq!(titles(&parse_feed(&body, &"F".to_string(), window())), vec!["zoned"]);
}

#[test]
fn undated_item_is_kept_whatever_the_cutoff() {
    let body = rss(&item("undated", None));
    let got = parse_feed(&body, &"F".to_string(), window());
    assert_eq!(titles(&got), vec!["undated"]);
    assert_eq!(got[0].pub_date, "");
}

#[test]
fn unparseable_date_counts_as_now() {
    let body = rss(&item("garbled", Some("yesterday-ish")));
    assert_eq!(titles(&parse_feed(&body, &"F".to_string(), window())), vec!["garbled"]);
}

#[test]
fn malformed_feed_keeps_articles_before_the_break() {
    let body = format!(
        "<rss><channel>{}{}<item><title>broken</title></wrong></channel></rss>",
        item("one", None),
        item("two", None)
    );
    let got = parse_feed(&body, &"F".to_string(), window());
    assert_eq!(titles(&got), vec!["one", "two"]);
}

#[test]
fn content_encoded_is_read_from_cdata_and_text() {
    let body = rss(&[
        "<item><title>T</title><content:encoded><![CDATA[<p>Hello</p>]]></content:encoded></item>",
        "<item><title>U</title></item>",
    ].concat());
    let got = parse_feed(&body, &"F".to_string(), window());
    assert_eq!(got.len(), 2);
    assert_eq!(got[0].content_encoded, "<p>Hello</p>");
    assert_eq!(got[0].title, "T");
    assert_eq!(got[1].content_encoded, "");
}

#[test]
fn encoded_in_another_namespace_is_plain_text() {
    let body = r#"<rss xmlns:x="urn:other"><channel><item><x:encoded>zzz</x:encoded><title>T</title></item></channel></rss>"#;
    let got = parse_feed(body, &"F".to_string(), window());
    assert_eq!(got.len(), 1);
    assert_eq!(got[0].content_encoded, "");
}

#[test]
fn atom_entries_are_articles() {
    let body = r#"<feed xmlns="http://www.w3.org/2005/Atom"><entry><title>E</title></entry></feed>"#;
    let got = parse_feed(body, &"F".to_string(), window());
    assert_eq!(titles(&got), vec!["E"]);
}

#[test]
fn text_outside_items_is_ignored() {
    let body = rss("");
    assert!(parse_feed(&body, &"F".to_string(), window()).is_empty());
}

#[test]
fn parser_driven_by_hand_built_events() {
    let name = |s: &str| QName { local: s.to_string(), namespace: None };
    let start = |s: &str| XmlToken::Start { name: name(s), attributes: vec![] };
    let end = |s: &str| XmlToken::End { name: name(s) };
    let text = |s: &str| XmlToken::Text { content: s.to_string() };
    let enc = QName { local: "encoded".to_string(), namespace: Some("http://purl.org/rss/1.0/modules/content/".to_string()) };
    let mut p = FeedParser::new(&"F".to_string(), window());
    assert!(p.feed(&text("outside")).is_none());
    assert!(p.feed(&start("item")).is_none());
    assert!(p.feed(&start("title")).is_none());
    assert!(p.feed(&text("Hel")).is_none());
    assert!(p.feed(&text("lo")).is_none());
    assert!(p.feed(&end("title")).is_none());
    assert!(p.feed(&XmlToken::Start { name: enc.clone(), attributes: vec![] }).is_none());
    assert!(p.feed(&text("<b>")).is_none());
    assert!(p.feed(&XmlToken::End { name: enc }).is_none());
    let a = p.feed(&end("item")).expect("article");
    assert_eq!(a.title, "Hello");
    assert_eq!(a.content_encoded, "<b>");
    assert_eq!(a.feed_title, "F");
    assert!(p.feed(&end("item")).is_none());

    let tokens = vec![start("item"), start("title"), text("A"), end("title"), end("item"), XmlToken::Malformed, start("item"), end("item")];
    let got = articles_from_tokens(&tokens, &"G".to_string(), window());
    assert_eq!(titles(&got), vec!["A"]);
    assert_eq!(got[0].feed_title, "G");
}

#[test]
fn old_item_does_not_leak_into_the_next() {
    let body = rss(&[
        format!("<item><title>old</title><pubDate>Sat, 04 Nov 2023 20:00:00 +0000</pubDate><content:encoded>stale</content:encoded></item>"),
        item("fresh", None),
    ].concat());
    let got = parse_feed(&body, &"F".to_string(), window());
    assert_eq!(titles(&got), vec!["fresh"]);
    assert_eq!(got[0].content_encoded, "");
}
