use feedreader::config::FilterConfig;
use feedreader::post::{Kind, Timestamp};
use feedreader::telegram::{
    channel_posts, has_excessive_negative_reactions, has_unread, sort_fetched_newest_first, stop_reading,
    FetchedPost, RawMessage, ReactionCount, Source,
};

fn filter() -> FilterConfig {
    FilterConfig { min_negative_reactions: 10, negative_emojis: vec!["\u{1F921}".to_string(), "\u{1F4A9}".to_string()] }
}

fn r(count: i32, emoji: Option<&str>) -> ReactionCount {
    ReactionCount { count, emoji: emoji.map(|e| e.to_string()) }
}

fn msg(id: i32, group: Option<i64>, text: &str, reactions: Option<Vec<ReactionCount>>) -> RawMessage {
    RawMessage {
        id,
        grouped_id: group,
        text: text.to_string(),
        date: Timestamp { secs: id as i64, nanos: 0 },
        view_count: Some(id * 10),
        reactions,
    }
}

#[test]
fn top_negative_reaction_hides() {
    let m = msg(1, None, "x", Some(vec![r(3, Some("\u{1F44D}")), r(12, Some("\u{1F921}"))]));
    assert!(has_excessive_negative_reactions(&m, &filter()));
}

#[test]
fn too_few_or_not_top_or_not_negative() {
    let f = filter();
    assert!(!has_excessive_negative_reactions(&msg(1, None, "x", Some(vec![r(9, Some("\u{1F921}"))])), &f));
    assert!(!has_excessive_negative_reactions(
        &msg(1, None, "x", Some(vec![r(20, Some("\u{1F44D}")), r(12, Some("\u{1F921}"))])),
        &f
    ));
    assert!(!has_excessive_negative_reactions(&msg(1, None, "x", Some(vec![r(50, None)])), &f));
    assert!(!has_excessive_negative_reactions(&msg(1, None, "x", None), &f));
    assert!(!has_excessive_negative_reactions(&msg(1, None, "x", Some(vec![])), &f));
}

#[test]
fn ties_go_to_the_last_reaction() {
    let f = filter();
    assert!(has_excessive_negative_reactions(
        &msg(1, None, "x", Some(vec![r(15, Some("\u{1F44D}")), r(15, Some("\u{1F4A9}"))])),
        &f
    ));
    assert!(!has_excessive_negative_reactions(
        &msg(1, None, "x", Some(vec![r(15, Some("\u{1F4A9}")), r(15, Some("\u{1F44D}"))])),
        &f
    ));
}

#[test]
fn albums_merge_and_filter_together() {
    let bad = || Some(vec![r(11, Some("\u{1F921}"))]);
    let raw = vec![
        msg(9, Some(1), "", None),
        msg(8, None, "single", None),
        msg(7, Some(1), "album text", None),
        msg(6, Some(2), "hidden", None),
        msg(5, Some(2), "", bad()),
        msg(4, None, "bad single", bad()),
        msg(3, Some(1), "later text", None),
    ];
    let posts = channel_posts("chan", &raw, &filter());
    assert_eq!(posts.len(), 2);
    assert_eq!(posts[0].text, "album text");
    assert_eq!(posts[0].date, Timestamp { secs: 9, nanos: 0 });
    assert_eq!(posts[0].view_count, Some(90));
    assert_eq!(posts[0].channel_name, "chan");
    assert_eq!(posts[0].source, Source::Telegram);
    assert!(posts[0].id.is_none() && posts[0].link.is_none());
    assert_eq!(posts[1].text, "single");
}

#[test]
fn reading_stops_past_unread_and_read_boundary() {
    assert!(!stop_reading(3, 3, 10, 20));
    assert!(stop_reading(4, 3, 10, 20));
    assert!(!stop_reading(4, 3, 21, 20));
    assert!(!stop_reading(5, -1, 1, 20));
    assert!(has_unread(2));
    assert!(!has_unread(0));
}

#[test]
fn fetched_posts_sort_and_convert() {
    let mk = |secs: i64, t: &str| FetchedPost {
        channel_name: "c".to_string(),
        text: t.to_string(),
        date: Timestamp { secs, nanos: 0 },
        view_count: None,
        id: None,
        link: None,
        source: Source::Telegram,
    };
    let sorted = sort_fetched_newest_first(vec![mk(1, "a"), mk(3, "b"), mk(1, "c")]);
    let texts: Vec<_> = sorted.iter().map(|p| p.text.clone()).collect();
    assert_eq!(texts, vec!["b", "a", "c"]);
    let p = mk(2, "x").into_post();
    assert_eq!(p.source, "c");
    assert_eq!(p.kind, Kind::Telegram);
}
