use std::io::Write;

use yaks::Range;
use yaks::ScrapeSession;
use yaks::ScrapeStep;

fn page_body(ids: &[u64]) -> Vec<u8> {
    let mut s = String::from("[");
    for (k, id) in ids.iter().enumerate() {
        if k > 0 {
            s.push(',');
        }
        s.push_str(&format!("{{\"id\":\"{id}\",\"title\":\"post {id}\"}}"));
    }
    s.push(']');
    s.into_bytes()
}

#[test]
fn profile_decoding() {
    let body = b"{\"name\":\"nick\",\"public_id\":\"uname\",\"post_count\":3}";
    let p = yaks::decode_profile(body, "fanbox", "123").unwrap();
    assert_eq!(p.platform, "fanbox");
    assert_eq!(p.user_id, "123");
    assert_eq!(p.nickname, "nick");
    assert_eq!(p.username, "uname");
    assert_eq!(p.post_count, 3);
}

#[test]
fn profile_decoding_gzip_fallback() {
    // The server has been seen to mislabel its content encoding: a
    // gzip-compressed body must decode through the fallback strategy.
    let plain = b"{\"name\":\"nick\",\"public_id\":\"uname\",\"post_count\":3}";
    let mut enc = flate2::write::GzEncoder::new(Vec::new(), flate2::Compression::default());
    enc.write_all(plain).unwrap();
    let gz = enc.finish().unwrap();
    let p = yaks::decode_profile(&gz, "fanbox", "123").unwrap();
    assert_eq!(p.nickname, "nick");
}

#[test]
fn profile_decoding_rejects_garbage() {
    assert!(yaks::decode_profile(b"not json at all", "a", "b").is_none());
    assert!(yaks::decode_profile(b"{\"name\":\"n\"}", "a", "b").is_none());
}

#[test]
fn membership_matches_range() {
    // Every post whose id is in range is kept, every other dropped, on
    // every page of a mocked paginated source.
    let range = Range { start: 10, end: 20 };
    let mut s = ScrapeSession::new(60, range);
    assert_eq!(s.next_offset(), Some(0));
    let step = s.on_response(200, &page_body(&[25, 20, 15]));
    assert!(matches!(step, ScrapeStep::Page));
    assert_eq!(s.next_offset(), Some(50));
    let step = s.on_response(200, &page_body(&[12, 9, 3]));
    assert!(matches!(step, ScrapeStep::Page));
    assert!(s.next_offset().is_none());
    let ids: Vec<u64> = s.into_posts().iter().map(|p| p.id).collect();
    assert_eq!(ids, vec![20, 15, 12]);
}

#[test]
fn pagination_stops_after_post_count() {
    let mut s = ScrapeSession::new(120, Range::default());
    for expected in [0u64, 50, 100] {
        assert_eq!(s.next_offset(), Some(expected));
        assert!(matches!(s.on_response(200, &page_body(&[1])), ScrapeStep::Page));
    }
    assert_eq!(s.next_offset(), None);
    assert_eq!(s.into_posts().len(), 3);
}

#[test]
fn rate_limit_retries_then_succeeds() {
    // A scrape request answered with the rate-limit status fewer times
    // than the bound, then successfully, yields the page.
    let mut s = ScrapeSession::new(10, Range::default());
    for _ in 0..2 {
        assert!(matches!(s.on_response(429, b""), ScrapeStep::Retry));
        assert_eq!(s.next_offset(), Some(0));
    }
    assert!(matches!(s.on_response(200, &page_body(&[5])), ScrapeStep::Page));
    let posts = s.into_posts();
    assert_eq!(posts.len(), 1);
    assert_eq!(posts[0].id, 5);
    assert_eq!(posts[0].title, "post 5");
}

#[test]
fn rate_limit_beyond_bound_is_fatal() {
    let mut s = ScrapeSession::new(10, Range::default());
    for _ in 0..3 {
        assert!(matches!(s.on_response(429, b""), ScrapeStep::Retry));
    }
    let step = s.on_response(429, b"");
    match step {
        ScrapeStep::Fatal(e) => assert!(matches!(e, yaks::Error::Scrape(_))),
        _ => panic!("expected a fatal step"),
    }
    assert!(s.next_offset().is_none());
}

#[test]
fn retry_count_is_per_page() {
    let mut s = ScrapeSession::new(60, Range::default());
    for _ in 0..3 {
        assert!(matches!(s.on_response(429, b""), ScrapeStep::Retry));
    }
    assert!(matches!(s.on_response(200, &page_body(&[1])), ScrapeStep::Page));
    // the next page gets a fresh retry budget
    for _ in 0..3 {
        assert!(matches!(s.on_response(429, b""), ScrapeStep::Retry));
    }
    assert!(matches!(s.on_response(200, &page_body(&[2])), ScrapeStep::Page));
}

#[test]
fn other_statuses_are_fatal() {
    let mut s = ScrapeSession::new(10, Range::default());
    let step = s.on_response(500, b"");
    match step {
        ScrapeStep::Fatal(e) => assert!(matches!(e, yaks::Error::Scrape(_))),
        _ => panic!("expected a fatal step"),
    }
}

#[test]
fn undecodable_page_is_fatal() {
    let mut s = ScrapeSession::new(10, Range::default());
    assert!(matches!(s.on_response(200, b"garbage"), ScrapeStep::Fatal(_)));
}

#[test]
fn malformed_post_entry_is_fatal() {
    let mut s = ScrapeSession::new(10, Range::default());
    let body = b"[{\"id\":\"not a number\",\"title\":\"t\"}]";
    assert!(matches!(s.on_response(200, body), ScrapeStep::Fatal(_)));
}

#[test]
fn empty_page_adds_nothing() {
    let mut s = ScrapeSession::new(10, Range::default());
    assert!(matches!(s.on_response(200, b"[]"), ScrapeStep::Page));
    assert!(s.into_posts().is_empty());
}

#[test]
fn degenerate_range_keeps_nothing() {
    let mut s = ScrapeSession::new(10, Range { start: 9, end: 3 });
    assert!(matches!(s.on_response(200, &page_body(&[1, 5, 9])), ScrapeStep::Page));
    assert!(s.into_posts().is_empty());
}

#[test]
fn zero_post_count_still_fetches_one_page() {
    let mut s = ScrapeSession::new(0, Range::default());
    assert_eq!(s.next_offset(), Some(0));
    assert!(matches!(s.on_response(200, &page_body(&[7])), ScrapeStep::Page));
    assert_eq!(s.next_offset(), None);
    assert_eq!(s.into_posts().len(), 1);
}
