use feedreader::hn::{hn_post, hn_post_dated, hn_post_id, hn_posts, hn_story_date, select_unseen_ids, HnItem};
use feedreader::post::{Kind, Timestamp};
use feedreader::state::State;

fn item(id: u64, kind: &str) -> HnItem {
    HnItem {
        id,
        title: Some(format!("Title {id}")),
        url: None,
        text: None,
        score: Some(42),
        time: Some(1_700_000_000 + id as i64),
        item_type: Some(kind.to_string()),
    }
}

const NOW: Timestamp = Timestamp { secs: 5, nanos: 6 };

#[test]
fn post_id_format() {
    assert_eq!(hn_post_id(123), "hn:123");
}

#[test]
fn unseen_ids_take_limit_then_filter() {
    let mut state = State::default();
    state.mark_seen("hn:2".to_string());
    assert_eq!(select_unseen_ids(vec![1, 2, 3, 4], 3, &state), vec![1, 3]);
    assert_eq!(select_unseen_ids(vec![1, 2], 10, &state), vec![1]);
    assert_eq!(select_unseen_ids(vec![1, 2], 0, &state), Vec::<u64>::new());
}

#[test]
fn story_becomes_post() {
    let p = hn_post(item(7, "story"), NOW).unwrap();
    assert_eq!(p.source, "HN (42)");
    assert_eq!(p.text, "Title 7");
    assert_eq!(p.date, Timestamp { secs: 1_700_000_007, nanos: 0 });
    assert_eq!(p.view_count, Some(42));
    assert_eq!(p.id, Some("hn:7".to_string()));
    assert_eq!(p.link, Some("https://news.ycombinator.com/item?id=7".to_string()));
    assert_eq!(p.kind, Kind::HackerNews);
}

#[test]
fn story_with_body_and_url() {
    let mut it = item(8, "story");
    it.text = Some("Ask HN body".to_string());
    it.url = Some("https://example.com".to_string());
    it.score = None;
    let p = hn_post(it, NOW).unwrap();
    assert_eq!(p.text, "Title 8\n\nAsk HN body");
    assert_eq!(p.link, Some("https://example.com".to_string()));
    assert_eq!(p.source, "HN (0)");
    assert_eq!(p.view_count, None);
}

#[test]
fn non_story_is_dropped() {
    assert!(hn_post(item(1, "job"), NOW).is_none());
    let mut it = item(2, "story");
    it.item_type = None;
    assert!(hn_post_dated(it, NOW).is_none());
}

#[test]
fn missing_or_unrepresentable_time() {
    assert_eq!(hn_story_date(None, NOW), Timestamp { secs: 0, nanos: 0 });
    assert_eq!(hn_story_date(Some(i64::MAX), NOW), NOW);
    assert_eq!(hn_story_date(Some(-1), NOW), Timestamp { secs: -1, nanos: 0 });
}

#[test]
fn stories_newest_first() {
    let posts = hn_posts(vec![item(1, "story"), item(3, "story"), item(2, "comment"), item(2, "story")], NOW);
    let ids: Vec<_> = posts.iter().map(|p| p.id.clone().unwrap()).collect();
    assert_eq!(ids, vec!["hn:3", "hn:2", "hn:1"]);
}

#[test]
fn representable_seconds_match_chrono() {
    for secs in [
        -8_334_601_228_801i64,
        -8_334_601_228_800,
        0,
        8_210_266_876_799,
        8_210_266_876_800,
        i64::MIN,
        i64::MAX,
    ] {
        assert_eq!(
            feedreader::hn::timestamp_representable(secs),
            chrono::DateTime::from_timestamp(secs, 0).is_some(),
            "{secs}"
        );
    }
}
