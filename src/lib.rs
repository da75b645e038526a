//! Feed aggregation: subscription lists read from OPML, feed documents read
//! into articles with a recency cutoff, a per-feed result cache, and the
//! decisions of a bounded-concurrency fetch round.

pub mod clock;
pub mod xml_tokens;
pub mod opml;
pub mod feed_parser;
pub mod cache;
pub mod fetch_round;
