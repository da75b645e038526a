use feedhub::cache::ResultCache;
use feedhub::clock::{window_at, Instant, Window};
use feedhub::fetch_round::{FeedOutcome, FetchRound, RoundStep, MAX_CONCURRENT_FETCHES};
use feedhub::feed_parser::{new_article, Article};
use feedhub::opml::Feed;

const NOW: i64 = 1_700_000_000; // Tue, 14 Nov 2023 22:13:20 +0000

fn window() -> Window {
    window_at(Instant { secs: NOW, nanos: 0 })
}

fn feed(title: &str) -> Feed {
    Feed { title: title.to_string(), xml_url: format!("http://x/{}.xml", title), html_url: String::new() }
}

fn body_one_item(title: &str) -> String {
    format!("<rss><channel><item><title>{}</title></item></channel></rss>", title)
}

/// Runs a round to the end with a fake transport: every fetch is answered in
/// the order it was handed out. Returns the URLs fetched, in order, and the
/// largest number of fetches seen in flight at once.
fn run_round(round: &mut FetchRound, cache: &mut ResultCache, answer: &dyn Fn(&str) -> Option<String>) -> (Vec<String>, usize) {
    let mut fetched = Vec::new();
    let mut pending: Vec<(usize, String)> = Vec::new();
    let mut most = 0;
    loop {
        match round.poll(cache) {
            RoundStep::Fetch { index, url } => {
                fetched.push(url.clone());
                pending.push((index, url));
                most = most.max(round.in_flight_count());
            }
            RoundStep::Wait => {
                let (index, url) = pending.remove(0);
                round.complete(cache, index, answer(&url), window());
            }
            RoundStep::Finished => break,
        }
    }
    (fetched, most)
}

fn titles(v: &[Article]) -> Vec<String> {
    v.iter().map(|a| a.title.clone()).collect()
}

#[test]
fn aggregate_keeps_only_the_recent_article_of_feed_a() {
    let body = [
        "<rss><channel>",
        "<item><title>old</title><pubDate>Sat, 04 Nov 2023 20:00:00 +0000</pubDate></item>",
        "<item><title>today</title><pubDate>Tue, 14 Nov 2023 20:00:00 +0000</pubDate></item>",
        "</channel></rss>",
    ].concat();
    let subs = vec![Feed { title: "A".to_string(), xml_url: "http://x/a.xml".to_string(), html_url: String::new() }];
    let mut cache = ResultCache::new();
    let mut round = FetchRound::new(subs, MAX_CONCURRENT_FETCHES);
    let (fetched, _) = run_round(&mut round, &mut cache, &|url| {
        assert_eq!(url, "http://x/a.xml");
        Some(body.clone())
    });
    assert_eq!(fetched, vec!["http://x/a.xml"]);
    let got = round.articles();
    assert_eq!(titles(got), vec!["today"]);
    assert_eq!(got[0].feed_title, "A");
    assert_eq!(round.outcome(0), FeedOutcome::Fetched);
}

#[test]
fn second_round_serves_from_cache_without_fetching() {
    let calls = std::cell::Cell::new(0);
    let answer = |url: &str| {
        calls.set(calls.get() + 1);
        Some(body_one_item(url))
    };
    let mut cache = ResultCache::new();
    let mut first = FetchRound::new(vec![feed("a"), feed("b")], MAX_CONCURRENT_FETCHES);
    run_round(&mut first, &mut cache, &answer);
    assert_eq!(calls.get(), 2);
    let mut second = FetchRound::new(vec![feed("a"), feed("b")], MAX_CONCURRENT_FETCHES);
    let (fetched, _) = run_round(&mut second, &mut cache, &answer);
    assert!(fetched.is_empty());
    assert_eq!(calls.get(), 2);
    assert_eq!(titles(second.articles()), vec!["http://x/a.xml", "http://x/b.xml"]);
    assert_eq!(second.outcome(0), FeedOutcome::FromCache);
    assert_eq!(second.outcome(1), FeedOutcome::FromCache);
}

#[test]
fn feed_with_no_recent_articles_is_still_cached() {
    let calls = std::cell::Cell::new(0);
    let answer = |_: &str| {
        calls.set(calls.get() + 1);
        Some("<rss><channel></channel></rss>".to_string())
    };
    let mut cache = ResultCache::new();
    run_round(&mut FetchRound::new(vec![feed("a")], 1), &mut cache, &answer);
    run_round(&mut FetchRound::new(vec![feed("a")], 1), &mut cache, &answer);
    assert_eq!(calls.get(), 1);
    assert_eq!(cache.get(&"a".to_string()).map(|v| v.len()), Some(0));
}

#[test]
fn failed_fetch_writes_nothing_and_is_retried() {
    let mut cache = ResultCache::new();
    let mut first = FetchRound::new(vec![feed("a")], 3);
    let (fetched, _) = run_round(&mut first, &mut cache, &|_| None);
    assert_eq!(fetched.len(), 1);
    assert_eq!(first.outcome(0), FeedOutcome::Failed);
    assert!(first.articles().is_empty());
    assert!(!cache.contains(&"a".to_string()));
    let mut second = FetchRound::new(vec![feed("a")], 3);
    let (fetched, _) = run_round(&mut second, &mut cache, &|u| Some(body_one_item(u)));
    assert_eq!(fetched.len(), 1);
    assert_eq!(second.articles().len(), 1);
}

#[test]
fn no_more_fetches_in_flight_than_the_ceiling() {
    let feeds: Vec<Feed> = (0..7).map(|i| feed(&format!("f{}", i))).collect();
    let mut cache = ResultCache::new();
    let mut round = FetchRound::new(feeds, 3);
    assert!(matches!(round.poll(&cache), RoundStep::Fetch { index: 0, .. }));
    assert!(matches!(round.poll(&cache), RoundStep::Fetch { index: 1, .. }));
    assert!(matches!(round.poll(&cache), RoundStep::Fetch { index: 2, .. }));
    assert!(matches!(round.poll(&cache), RoundStep::Wait));
    assert_eq!(round.in_flight_count(), 3);
    round.complete(&mut cache, 1, Some(body_one_item("one")), window());
    assert_eq!(round.in_flight_count(), 2);
    assert!(matches!(round.poll(&cache), RoundStep::Fetch { index: 3, .. }));
    assert!(matches!(round.poll(&cache), RoundStep::Wait));
    for index in [0, 2, 3] {
        round.complete(&mut cache, index, Some(body_one_item("x")), window());
    }
    let (fetched, most) = run_round(&mut round, &mut cache, &|u| Some(body_one_item(u)));
    assert_eq!(fetched.len(), 3);
    assert!(most <= 3);
    assert_eq!(round.in_flight_count(), 0);
    assert_eq!(round.articles().len(), 7);
}

#[test]
fn cache_hits_take_no_fetch_slot() {
    let mut cache = ResultCache::new();
    cache.put("b".to_string(), vec![new_article(&"b".to_string())]);
    cache.put("c".to_string(), vec![]);
    let mut round = FetchRound::new(vec![feed("a"), feed("b"), feed("c"), feed("d")], 1);
    assert!(matches!(round.poll(&cache), RoundStep::Fetch { index: 0, .. }));
    assert!(matches!(round.poll(&cache), RoundStep::Wait));
    assert_eq!(round.articles().len(), 1);
    assert_eq!(round.outcome(1), FeedOutcome::FromCache);
    assert_eq!(round.outcome(2), FeedOutcome::FromCache);
    assert_eq!(round.outcome(3), FeedOutcome::Pending);
}

#[test]
fn empty_subscription_list_finishes_at_once() {
    let cache = ResultCache::new();
    let mut round = FetchRound::new(vec![], MAX_CONCURRENT_FETCHES);
    assert!(matches!(round.poll(&cache), RoundStep::Finished));
    assert!(round.articles().is_empty());
}

#[test]
fn cache_put_replaces_whole_entry() {
    let mut cache = ResultCache::new();
    assert!(cache.get(&"a".to_string()).is_none());
    let mut a1 = new_article(&"a".to_string());
    a1.title = "one".to_string();
    let mut a2 = new_article(&"a".to_string());
    a2.title = "two".to_string();
    cache.put("a".to_string(), vec![a1.clone(), a2]);
    cache.put("b".to_string(), vec![a1.clone()]);
    assert_eq!(cache.get(&"a".to_string()).map(|v| v.len()), Some(2));
    cache.put("a".to_string(), vec![a1]);
    let got = cache.get(&"a".to_string()).expect("entry");
    assert_eq!(titles(got), vec!["one"]);
    assert!(cache.contains(&"b".to_string()));
}

#[test]
fn recorded_articles_go_to_round_and_cache() {
    let mut cache = ResultCache::new();
    let mut round = FetchRound::new(vec![feed("a"), feed("b")], 2);
    assert!(matches!(round.poll(&cache), RoundStep::Fetch { index: 0, .. }));
    assert!(matches!(round.poll(&cache), RoundStep::Fetch { index: 1, .. }));
    assert_eq!(round.feed_title(1), "b");
    let mut a = new_article(&"b".to_string());
    a.title = "kept".to_string();
    round.record_fetch(&mut cache, 1, Some(vec![a]));
    round.record_fetch(&mut cache, 0, None);
    assert!(matches!(round.poll(&cache), RoundStep::Finished));
    assert_eq!(titles(round.articles()), vec!["kept"]);
    assert_eq!(cache.get(&"b".to_string()).map(|v| titles(v)), Some(vec!["kept".to_string()]));
    assert!(!cache.contains(&"a".to_string()));
    assert_eq!(round.outcome(0), FeedOutcome::Failed);
    assert_eq!(round.outcome(1), FeedOutcome::Fetched);
}
