use feedreader::pipeline::{collect_posts, sort_for_display, sort_newest_first};
use feedreader::post::{Kind, Post, Timestamp};
use feedreader::state::State;
use feedreader::telegram::{FetchedPost, Source};

fn p(kind: Kind, source: &str, secs: i64, id: Option<&str>) -> Post {
    Post {
        source: source.to_string(),
        text: format!("{source}@{secs}"),
        date: Timestamp { secs, nanos: 0 },
        view_count: None,
        id: id.map(|s| s.to_string()),
        link: None,
        kind,
    }
}

fn texts(ps: &[Post]) -> Vec<String> {
    ps.iter().map(|p| p.text.clone()).collect()
}

#[test]
fn display_order_by_kind_then_group_then_date() {
    let posts = vec![
        p(Kind::Telegram, "chan", 5, None),
        p(Kind::Rss, "a", 1, None),
        p(Kind::Rss, "b", 3, None),
        p(Kind::Rss, "a", 4, None),
        p(Kind::HackerNews, "HN", 2, None),
        p(Kind::Rss, "b", 2, None),
    ];
    let sorted = sort_for_display(posts);
    assert_eq!(texts(&sorted), vec!["HN@2", "a@4", "a@1", "b@3", "b@2", "chan@5"]);
}

#[test]
fn display_order_keeps_ties_in_order() {
    let mut first = p(Kind::Rss, "a", 1, None);
    first.text = "first".to_string();
    let mut second = p(Kind::Rss, "a", 1, None);
    second.text = "second".to_string();
    let sorted = sort_for_display(vec![first, second]);
    assert_eq!(texts(&sorted), vec!["first", "second"]);
}

#[test]
fn newest_first_orders_by_date() {
    let posts = vec![p(Kind::Rss, "a", 1, None), p(Kind::Rss, "a", 3, None), p(Kind::Rss, "a", 2, None)];
    let sorted = sort_newest_first(posts);
    assert_eq!(texts(&sorted), vec!["a@3", "a@2", "a@1"]);
}

#[test]
fn collect_drops_seen_and_marks_shown() {
    let mut state = State::default();
    state.mark_seen("rss:old".to_string());
    let tg = vec![FetchedPost {
        channel_name: "chan".to_string(),
        text: "hello".to_string(),
        date: Timestamp { secs: 10, nanos: 0 },
        view_count: Some(3),
        id: None,
        link: None,
        source: Source::Telegram,
    }];
    let rss = Some(vec![p(Kind::Rss, "feed", 1, Some("rss:old")), p(Kind::Rss, "feed", 2, Some("rss:new"))]);
    let hn = Some(vec![p(Kind::HackerNews, "HN (1)", 3, Some("hn:1"))]);
    let shown = collect_posts(tg, rss, hn, &mut state);
    assert_eq!(texts(&shown), vec!["HN (1)@3", "feed@2", "hello"]);
    assert_eq!(shown[2].kind, Kind::Telegram);
    assert_eq!(shown[2].source, "chan");
    assert!(state.is_seen("rss:new"));
    assert!(state.is_seen("hn:1"));
    assert!(state.is_seen("rss:old"));
}

#[test]
fn collect_skips_failed_sources() {
    let mut state = State::default();
    let shown = collect_posts(vec![], None, Some(vec![p(Kind::HackerNews, "HN (0)", 1, Some("hn:9"))]), &mut state);
    assert_eq!(shown.len(), 1);
}

#[test]
fn seen_posts_do_not_reappear_on_next_run() {
    let mut state = State::default();
    let batch = || Some(vec![p(Kind::Rss, "feed", 2, Some("rss:x")), p(Kind::Rss, "feed", 1, None)]);
    let first = collect_posts(vec![], batch(), None, &mut state);
    assert_eq!(first.len(), 2);
    let second = collect_posts(vec![], batch(), None, &mut state);
    assert_eq!(texts(&second), vec!["feed@1"]);
}

#[test]
fn newest_first_keeps_same_date_in_order() {
    let mut a = p(Kind::Rss, "a", 2, None);
    a.text = "a".to_string();
    let mut b = p(Kind::Telegram, "b", 2, None);
    b.text = "b".to_string();
    let c = p(Kind::Rss, "c", 5, None);
    let mut d = p(Kind::HackerNews, "d", 2, None);
    d.text = "d".to_string();
    let sorted = sort_newest_first(vec![a, b, c, d]);
    assert_eq!(texts(&sorted), vec!["c@5", "a", "b", "d"]);
}

#[test]
fn display_order_keeps_equal_keys_in_order_among_others() {
    let mut x = p(Kind::Rss, "a", 3, None);
    x.text = "x".to_string();
    let y = p(Kind::Rss, "a", 7, None);
    let mut z = p(Kind::Rss, "a", 3, None);
    z.text = "z".to_string();
    let sorted = sort_for_display(vec![x, y, z]);
    assert_eq!(texts(&sorted), vec!["a@7", "x", "z"]);
}
