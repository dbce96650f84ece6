use feedreader::post::{Kind, Timestamp};
use feedreader::rss::{feed_body_is_safe, feed_posts, parse_feed_posts, RawEntry, RawFeed};

const NOW: Timestamp = Timestamp { secs: 99, nanos: 0 };

fn entry(id: &str) -> RawEntry {
    RawEntry {
        id: id.to_string(),
        first_link: None,
        title: None,
        content_body: None,
        summary: None,
        published: None,
        updated: None,
    }
}

#[test]
fn parses_rss_document() {
    let xml = r#"<?xml version="1.0"?>
<rss version="2.0"><channel><title>My Feed</title><link>https://ex.com</link><description>d</description>
<item><title>First &amp; best</title><link>https://ex.com/1</link><guid>g1</guid><description>Plain body</description><pubDate>Mon, 01 Jan 2024 00:00:00 GMT</pubDate></item>
</channel></rss>"#;
    let posts = parse_feed_posts("https://ex.com/feed", xml.as_bytes(), NOW).unwrap();
    assert_eq!(posts.len(), 1);
    let p = &posts[0];
    assert_eq!(p.source, "My Feed");
    assert_eq!(p.id, Some("rss:g1".to_string()));
    assert_eq!(p.text, "First & best\n\nPlain body");
    assert_eq!(p.date, Timestamp { secs: 1_704_067_200, nanos: 0 });
    assert_eq!(p.link, Some("https://ex.com/1".to_string()));
    assert_eq!(p.kind, Kind::Rss);
    assert_eq!(p.view_count, None);
}

#[test]
fn rejects_non_feed() {
    assert!(parse_feed_posts("u", b"not a feed", NOW).is_none());
}

#[test]
fn entry_rules() {
    let mut a = entry("");
    a.first_link = Some("https://l".to_string());
    a.title = Some("  Title  ".to_string());
    a.updated = Some(Timestamp { secs: 3, nanos: 0 });
    let mut b = entry("");
    b.summary = Some("only summary".to_string());
    let mut c = entry("c");
    c.content_body = Some("body".to_string());
    c.summary = Some("ignored".to_string());
    c.published = Some(Timestamp { secs: 4, nanos: 0 });
    c.updated = Some(Timestamp { secs: 5, nanos: 0 });
    let feed = RawFeed { title: None, entries: vec![a, b, c] };
    let posts = feed_posts("https://feed", feed, NOW);
    assert_eq!(posts.len(), 2);
    assert_eq!(posts[0].id, Some("rss:https://l".to_string()));
    assert_eq!(posts[0].text, "Title");
    assert_eq!(posts[0].date, Timestamp { secs: 3, nanos: 0 });
    assert_eq!(posts[0].source, "https://feed");
    assert_eq!(posts[0].link, Some("https://l".to_string()));
    assert_eq!(posts[1].id, Some("rss:c".to_string()));
    assert_eq!(posts[1].text, "body");
    assert_eq!(posts[1].date, Timestamp { secs: 4, nanos: 0 });
    assert_eq!(posts[1].link, None);
}

#[test]
fn entry_without_date_gets_now() {
    let feed = RawFeed { title: Some("T".to_string()), entries: vec![entry("x")] };
    let posts = feed_posts("u", feed, NOW);
    assert_eq!(posts[0].date, NOW);
    assert_eq!(posts[0].text, "");
    assert_eq!(posts[0].source, "T");
}

#[test]
fn feed_with_play_time_is_refused() {
    let xml = r#"<?xml version="1.0"?>
<rss version="2.0" xmlns:itunes="http://www.itunes.com/dtds/podcast-1.0.dtd"><channel><title>Cast</title>
<item><title>Ep</title><guid>e1</guid><itunes:duration>123456789012345678901234</itunes:duration></item>
</channel></rss>"#;
    assert!(!feed_body_is_safe(xml.as_bytes()));
    assert!(parse_feed_posts("u", xml.as_bytes(), NOW).is_none());
    let media = r#"<rss version="2.0" xmlns:media="http://search.yahoo.com/mrss/"><channel><title>M</title>
<item><guid>m1</guid><media:text start = "99999999999999999999999">t</media:text></item></channel></rss>"#;
    assert!(!feed_body_is_safe(media.as_bytes()));
    assert!(parse_feed_posts("u", media.as_bytes(), NOW).is_none());
    let mut nul = b"<rss>-</rss>".to_vec();
    nul[5] = 0;
    assert!(!feed_body_is_safe(&nul));
}

#[test]
fn ordinary_feed_passes_the_scan() {
    let xml = r#"<rss version="2.0"><channel><title>T</title><item><guid>a</guid><title>Start time</title></item></channel></rss>"#;
    assert!(feed_body_is_safe(xml.as_bytes()));
    assert_eq!(parse_feed_posts("u", xml.as_bytes(), NOW).unwrap().len(), 1);
}

#[test]
fn podcast_feed_with_plain_durations_is_read() {
    let xml = r#"<?xml version="1.0"?>
<rss version="2.0" xmlns:itunes="http://www.itunes.com/dtds/podcast-1.0.dtd" xmlns:media="http://search.yahoo.com/mrss/"><channel><title>Cast</title>
<item><title>Ep 1</title><guid>e1</guid><itunes:duration>01:02:03</itunes:duration></item>
<item><title>Ep 2</title><guid>e2</guid><itunes:duration>3723</itunes:duration><media:thumbnail url="https://ex.com/t.png" time="12:05:35.123"/></item>
<item><title>Ep 3</title><guid>e3</guid><description>&lt;ol start="3"&gt;&lt;li&gt;x&lt;/li&gt;&lt;/ol&gt;</description></item>
</channel></rss>"#;
    assert!(feed_body_is_safe(xml.as_bytes()));
    let posts = parse_feed_posts("u", xml.as_bytes(), NOW).unwrap();
    assert_eq!(posts.len(), 3);
}

fn podcast(duration: &str) -> String {
    format!(
        "<rss version=\"2.0\" xmlns:itunes=\"http://www.itunes.com/dtds/podcast-1.0.dtd\"><channel><title>C</title><item><guid>g</guid><itunes:duration>{duration}</itunes:duration></item></channel></rss>"
    )
}

#[test]
fn durations_feed_rs_reads_are_accepted() {
    for d in [
        "",
        "123456789012345",
        "4999999999999999:00:00",
        "30 \u{43c}\u{438}\u{43d}",
        "<![CDATA[12:00]]>",
        "12<!-- c -->:00",
        "1&amp;2 &#x31;&#x32;",
    ] {
        let xml = podcast(d);
        assert!(feed_body_is_safe(xml.as_bytes()), "{d}");
        assert_eq!(parse_feed_posts("u", xml.as_bytes(), NOW).unwrap().len(), 1, "{d}");
    }
    let empty = r#"<rss version="2.0" xmlns:itunes="http://www.itunes.com/dtds/podcast-1.0.dtd"><channel><title>C</title><item><guid>g</guid><itunes:duration/></item></channel></rss>"#;
    assert!(feed_body_is_safe(empty.as_bytes()));
    assert_eq!(parse_feed_posts("u", empty.as_bytes(), NOW).unwrap().len(), 1);
    let attrs = r#"<rss version="2.0" xmlns:media="http://search.yahoo.com/mrss/"><channel><title>M</title>
<item><guid>m1</guid><media:text start="a &amp; b" end='12:00:01.5'>t</media:text></item></channel></rss>"#;
    assert!(feed_body_is_safe(attrs.as_bytes()));
    assert_eq!(parse_feed_posts("u", attrs.as_bytes(), NOW).unwrap().len(), 1);
}

#[test]
fn durations_feed_rs_cannot_read_are_refused() {
    for d in [
        "&#x663;",
        "\u{663}",
        "5000000000000001",
        "<![CDATA[99999999999999999999]]>",
        "9999999999<!-- -->9999999999",
        "&#57;&#57;&#57;&#57;&#57;&#57;&#57;&#57;&#57;&#57;&#57;&#57;&#57;&#57;&#57;&#57;&#57;&#57;&#57;&#57;",
    ] {
        let xml = podcast(d);
        assert!(!feed_body_is_safe(xml.as_bytes()), "{d}");
        assert!(parse_feed_posts("u", xml.as_bytes(), NOW).is_none());
    }
    assert!(!feed_body_is_safe(b"<rss><it:duration a=\"1\">99999999999999999999</it:duration></rss>"));
    assert!(feed_body_is_safe(b"<rss><it:duration a=\"1\">5</it:duration></rss>"));
    assert!(feed_body_is_safe(b"<rss><it:durationMs>99999999999999999999</it:durationMs></rss>"));
    assert!(!feed_body_is_safe(b"<rss><media:thumbnail time=\"&#x31;&#x31;&#x31;&#x31;&#x31;&#x31;&#x31;&#x31;&#x31;&#x31;&#x31;&#x31;&#x31;&#x31;&#x31;&#x31;&#x31;\"/></rss>"));
}

#[test]
fn bodies_in_other_encodings_read_non_ascii_as_possible_digits() {
    let mut xml = b"<?xml version=\"1.0\" encoding=\"windows-874\"?><rss version=\"2.0\" xmlns:itunes=\"http://www.itunes.com/dtds/podcast-1.0.dtd\"><channel><title>C</title><item><guid>g</guid><itunes:duration>~</itunes:duration></item></channel></rss>".to_vec();
    assert!(feed_body_is_safe(&xml));
    let k = xml.iter().position(|&c| c == b'~').unwrap();
    xml[k] = 0xf1;
    assert!(!feed_body_is_safe(&xml));
    let utf8 = "<?xml version=\"1.0\" encoding=\"UTF-8\"?><rss><itunes:duration>\u{e51}x</itunes:duration></rss>";
    assert!(!feed_body_is_safe(utf8.as_bytes()));
    let utf8 = "<?xml version=\"1.0\" encoding=\"UTF-8\"?><rss><itunes:duration>\u{e01}x</itunes:duration></rss>";
    assert!(feed_body_is_safe(utf8.as_bytes()));
}
