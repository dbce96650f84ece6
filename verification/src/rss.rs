use vstd::prelude::*;
use vstd::string::*;

use crate::hn::or_empty;
use crate::pipeline::views;
use crate::post::{opt_view, Kind, Post, PostView, Timestamp};
use crate::playtime::{attr_risk, attr_risk_check, duration_risk, duration_risk_check, legacy_encoding, legacy_encoding_check};
use crate::text::{html_text, html_to_text, trim, trimmed};

verus! {

/// An entry of a parsed feed, as far as the reader reads it.
pub struct RawEntry {
    pub id: String,
    /// The first of the entry's links.
    pub first_link: Option<String>,
    pub title: Option<String>,
    /// The body of the entry's content.
    pub content_body: Option<String>,
    pub summary: Option<String>,
    pub published: Option<Timestamp>,
    pub updated: Option<Timestamp>,
}

/// A parsed feed, as far as the reader reads it.
pub struct RawFeed {
    pub title: Option<String>,
    pub entries: Vec<RawEntry>,
}

/// The bytes of `start`, `end` and `time`.
pub open spec fn start_name() -> Seq<u8> {
    seq![0x73u8, 0x74, 0x61, 0x72, 0x74]
}

pub open spec fn end_name() -> Seq<u8> {
    seq![0x65u8, 0x6e, 0x64]
}

pub open spec fn time_name() -> Seq<u8> {
    seq![0x74u8, 0x69, 0x6d, 0x65]
}

/// What at byte `i` of a feed body could make feed-rs's normal-play-time parser (which
/// unwraps the numbers it reads) panic, or hide such a value from a byte scan: a NUL
/// byte (UTF-16 or UTF-32 text), an escape byte (ISO-2022-JP shifts), an
/// `itunes:duration` element, or a `start`, `end` or `time` attribute (those of
/// `media:text` and `media:thumbnail`), whose value holds a decimal digit that is not
/// ASCII or a number past [`crate::playtime::npt_limit`]. `legacy`: the body is in another encoding than
/// UTF-8, where every non-ASCII byte of such a value may be a digit.
pub open spec fn feed_risk_at(b: Seq<u8>, i: int, legacy: bool) -> bool {
    ||| b[i] == 0x00
    ||| b[i] == 0x1b
    ||| duration_risk(b, i, legacy)
    ||| attr_risk(b, i, start_name(), legacy)
    ||| attr_risk(b, i, end_name(), legacy)
    ||| attr_risk(b, i, time_name(), legacy)
}

/// A feed body whose play-time values feed-rs reads without fault.
pub open spec fn feed_body_safe(b: Seq<u8>) -> bool {
    forall|i: int| 0 <= i < b.len() ==> !#[trigger] feed_risk_at(b, i, legacy_encoding(b))
}

/// Whether `body` is a feed body whose play-time values feed-rs reads without fault
/// (see [`feed_body_safe`]).
pub fn feed_body_is_safe(body: &[u8]) -> (r: bool)
    ensures
        r == feed_body_safe(body@),
{
    let legacy = legacy_encoding_check(body);
    let start: Vec<u8> = vec![0x73, 0x74, 0x61, 0x72, 0x74];
    let end: Vec<u8> = vec![0x65, 0x6e, 0x64];
    let time: Vec<u8> = vec![0x74, 0x69, 0x6d, 0x65];
    assert(start@ =~= start_name());
    assert(end@ =~= end_name());
    assert(time@ =~= time_name());
    let mut i: usize = 0;
    while i < body.len()
        invariant
            i <= body@.len(),
            legacy == legacy_encoding(body@),
            start@ == start_name(),
            end@ == end_name(),
            time@ == time_name(),
            forall|j: int| 0 <= j < i ==> !#[trigger] feed_risk_at(body@, j, legacy),
        decreases body.len() - i,
    {
        let c = body[i];
        let risky = c == 0x00 || c == 0x1b || duration_risk_check(body, i, legacy) || attr_risk_check(
            body,
            i,
            start.as_slice(),
            legacy,
        ) || attr_risk_check(body, i, end.as_slice(), legacy) || attr_risk_check(
            body,
            i,
            time.as_slice(),
            legacy,
        );
        if risky {
            assert(feed_risk_at(body@, i as int, legacy));
            return false;
        }
        i = i + 1;
    }
    true
}

/// The value of a parsed feed entry, as far as the reader reads it. `id` is `None` where
/// feed-rs draws a random identity for the entry (no id of its own and no link).
pub struct ParsedEntry {
    pub id: Option<Seq<char>>,
    pub first_link: Option<Seq<char>>,
    pub title: Option<Seq<char>>,
    pub content_body: Option<Seq<char>>,
    pub summary: Option<Seq<char>>,
    pub published: Option<Timestamp>,
    pub updated: Option<Timestamp>,
}

/// The value of a parsed feed, as far as the reader reads it.
pub struct ParsedFeed {
    pub title: Option<Seq<char>>,
    pub entries: Seq<ParsedEntry>,
}

/// What `feed_rs::parser::parse` makes of `body`, read as the reader reads it: `None`
/// where it reports an error. The identities that feed-rs draws at random are left open
/// (`None` in the entry).
pub uninterp spec fn feed_rs_parsed(body: Seq<u8>) -> Option<ParsedFeed>;

/// `f` is a feed that feed-rs can give for the parse `p`: every field as in `p`, except
/// that an identity left open in `p` may be any identity; no identity is empty.
pub open spec fn agrees_with_parse(f: RawFeed, p: ParsedFeed) -> bool {
    &&& opt_view(f.title) == p.title
    &&& f.entries@.len() == p.entries.len()
    &&& forall|i: int| 0 <= i < p.entries.len() ==> {
        let e = #[trigger] f.entries@[i];
        let q = p.entries[i];
        &&& e.id@.len() > 0
        &&& (q.id matches Some(id) ==> e.id@ == id)
        &&& opt_view(e.first_link) == q.first_link
        &&& opt_view(e.title) == q.title
        &&& opt_view(e.content_body) == q.content_body
        &&& opt_view(e.summary) == q.summary
        &&& e.published == q.published
        &&& e.updated == q.updated
    }
}

/// Parses an RSS, Atom or JSON feed with `feed_rs::parser::parse`; `None` where it
/// reports an error. The result agrees with [`feed_rs_parsed`] in every field but the
/// identities that feed-rs draws at random, and every entry has a non-empty identity
/// (feed-rs fills each empty one). The body is one whose play-time values feed-rs's
/// normal-play-time parser, which panics on some of them, reads without fault.
#[verifier::external_body]
fn parse_feed(body: &[u8]) -> (r: Option<RawFeed>)
    requires
        feed_body_safe(body@),
    ensures
        r is Some == feed_rs_parsed(body@) is Some,
        r matches Some(f) ==> agrees_with_parse(f, feed_rs_parsed(body@)->0),
{
    let feed = feed_rs::parser::parse(body).ok()?;
    let ts = |d: chrono::DateTime<chrono::Utc>| Timestamp { secs: d.timestamp(), nanos: d.timestamp_subsec_nanos() };
    let entries = feed.entries.into_iter().map(|e| RawEntry {
        id: e.id,
        first_link: e.links.first().map(|l| l.href.clone()),
        title: e.title.map(|t| t.content),
        content_body: e.content.and_then(|c| c.body),
        summary: e.summary.map(|t| t.content),
        published: e.published.map(ts),
        updated: e.updated.map(ts),
    }).collect();
    Some(RawFeed { title: feed.title.map(|t| t.content), entries })
}

/// The identity of an entry within its feed: its id, or its first link when the id is
/// empty.
pub open spec fn entry_key(e: RawEntry) -> Seq<char> {
    if e.id@.len() == 0 {
        or_empty(opt_view(e.first_link))
    } else {
        e.id@
    }
}

/// The text of an entry: its title and body separated by a blank line, or whichever of
/// the two is not empty.
pub open spec fn entry_text(title: Seq<char>, body: Seq<char>) -> Seq<char> {
    if title.len() > 0 && body.len() > 0 {
        title + "\n\n"@ + body
    } else if title.len() > 0 {
        title
    } else {
        body
    }
}

/// The post for an entry of the feed titled `feed_title`, `None` for an entry without an
/// identity; `now` dates an entry that has neither a publication nor an update date.
pub open spec fn entry_post(feed_title: Seq<char>, e: RawEntry, now: Timestamp) -> Option<PostView> {
    let key = entry_key(e);
    if key.len() == 0 {
        None
    } else {
        let title = match opt_view(e.title) {
            Some(t) => trimmed(html_text(t)),
            None => Seq::empty(),
        };
        let body = match opt_view(e.content_body) {
            Some(b) => html_text(b),
            None => match opt_view(e.summary) {
                Some(s) => html_text(s),
                None => Seq::empty(),
            },
        };
        Some(PostView {
            source: feed_title,
            text: entry_text(title, body),
            date: match e.published {
                Some(d) => d,
                None => match e.updated {
                    Some(d) => d,
                    None => now,
                },
            },
            view_count: None,
            id: Some("rss:"@ + key),
            link: opt_view(e.first_link),
            kind: Kind::Rss,
        })
    }
}

/// The posts for the entries `es` of the feed titled `feed_title`, in order.
pub open spec fn entry_posts(feed_title: Seq<char>, es: Seq<RawEntry>, now: Timestamp) -> Seq<PostView>
    decreases es.len(),
{
    if es.len() == 0 {
        Seq::empty()
    } else {
        let rest = entry_posts(feed_title, es.drop_last(), now);
        match entry_post(feed_title, es.last(), now) {
            Some(p) => rest.push(p),
            None => rest,
        }
    }
}

/// The title under which the posts of the feed at `url` are shown: the feed's title, or
/// the URL when it has none.
pub open spec fn feed_title(url: Seq<char>, feed: RawFeed) -> Seq<char> {
    match opt_view(feed.title) {
        Some(t) => t,
        None => url,
    }
}

/// The post for one entry.
fn entry_to_post(feed_title: &str, e: RawEntry, now: Timestamp) -> (r: Option<Post>)
    ensures
        match r {
            Some(p) => entry_post(feed_title@, e, now) == Some(p@),
            None => entry_post(feed_title@, e, now) is None,
        },
{
    let key = if e.id.unicode_len() == 0 {
        match &e.first_link {
            Some(l) => l.clone(),
            None => String::new(),
        }
    } else {
        e.id.clone()
    };
    if key.unicode_len() == 0 {
        return None;
    }
    let title = match &e.title {
        Some(t) => {
            let plain = html_to_text(t.as_str());
            trim(plain.as_str())
        },
        None => String::new(),
    };
    let body = match &e.content_body {
        Some(b) => html_to_text(b.as_str()),
        None => match &e.summary {
            Some(s) => html_to_text(s.as_str()),
            None => String::new(),
        },
    };
    let text = if title.unicode_len() > 0 && body.unicode_len() > 0 {
        let mut s = title;
        s.append("\n\n");
        s.append(body.as_str());
        s
    } else if title.unicode_len() > 0 {
        title
    } else {
        body
    };
    let date = match e.published {
        Some(d) => d,
        None => match e.updated {
            Some(d) => d,
            None => now,
        },
    };
    let mut id = "rss:".to_owned();
    id.append(key.as_str());
    Some(Post {
        source: feed_title.to_owned(),
        text,
        date,
        view_count: None,
        id: Some(id),
        link: e.first_link,
        kind: Kind::Rss,
    })
}

/// The posts for the entries of the parsed feed `feed` fetched from `url`, in entry
/// order; entries without an identity are left out, and `now` dates entries without a
/// date.
pub fn feed_posts(url: &str, feed: RawFeed, now: Timestamp) -> (r: Vec<Post>)
    ensures
        views(r@) == entry_posts(feed_title(url@, feed), feed.entries@, now),
{
    let title = match &feed.title {
        Some(t) => t.clone(),
        None => url.to_owned(),
    };
    let ghost orig = feed.entries@;
    let n = feed.entries.len();
    let mut rest = feed.entries;
    let mut posts: Vec<Post> = Vec::new();
    let mut k: usize = 0;
    while rest.len() > 0
        invariant
            n == orig.len(),
            k + rest@.len() == n,
            rest@ == orig.skip(k as int),
            views(posts@) == entry_posts(title@, orig.take(k as int), now),
        decreases rest.len(),
    {
        let ghost old_rest = rest@;
        let e = rest.remove(0);
        proof {
            assert(e == orig[k as int]) by {
                assert(old_rest[0] == orig.skip(k as int)[0]);
            }
            assert(rest@ =~= orig.skip(k + 1));
            assert(orig.take(k + 1).drop_last() =~= orig.take(k as int));
        }
        let ghost before = posts@;
        match entry_to_post(title.as_str(), e, now) {
            Some(p) => {
                posts.push(p);
                assert(views(posts@) =~= views(before).push(p@));
            },
            None => {},
        }
        k = k + 1;
    }
    proof {
        assert(orig.take(k as int) =~= orig);
    }
    posts
}

/// Whether `id` starts with `rss:`.
pub open spec fn is_rss_id(id: Seq<char>) -> bool {
    id.len() >= 4 && id.take(4) == "rss:"@
}

/// The posts of the feed whose body `body` was fetched from `url`: the posts that
/// [`feed_posts`] makes of the feed feed-rs parses from it, or `None` when the body is
/// not a feed or holds a construct on which feed-rs could panic (see
/// [`feed_body_safe`]). Every post is an RSS post and carries an identity starting with
/// `rss:`.
pub fn parse_feed_posts(url: &str, body: &[u8], now: Timestamp) -> (r: Option<Vec<Post>>)
    ensures
        r is Some == (feed_body_safe(body@) && feed_rs_parsed(body@) is Some),
        match r {
            Some(ps) => {
                &&& exists|f: RawFeed|
                    #![trigger entry_posts(feed_title(url@, f), f.entries@, now)]
                    agrees_with_parse(f, feed_rs_parsed(body@)->0) && views(ps@) == entry_posts(
                        feed_title(url@, f),
                        f.entries@,
                        now,
                    )
                &&& forall|i: int| 0 <= i < ps@.len() ==> {
                    &&& (#[trigger] ps@[i])@.kind == Kind::Rss
                    &&& ps@[i]@.id matches Some(id) && is_rss_id(id)
                }
            },
            None => true,
        },
{
    if !feed_body_is_safe(body) {
        return None;
    }
    match parse_feed(body) {
        Some(feed) => {
            let ps = feed_posts(url, feed, now);
            proof {
                lemma_entry_posts_rss(feed_title(url@, feed), feed.entries@, now);
                assert forall|i: int| 0 <= i < ps@.len() implies {
                    &&& (#[trigger] ps@[i])@.kind == Kind::Rss
                    &&& ps@[i]@.id matches Some(id) && is_rss_id(id)
                } by {
                    assert(views(ps@)[i] == ps@[i]@);
                }
                assert(views(ps@) == entry_posts(feed_title(url@, feed), feed.entries@, now));
            }
            Some(ps)
        },
        None => None,
    }
}

/// Every post made from feed entries is an RSS post whose identity starts with `rss:`.
pub proof fn lemma_entry_posts_rss(t: Seq<char>, es: Seq<RawEntry>, now: Timestamp)
    ensures
        forall|i: int| 0 <= i < entry_posts(t, es, now).len() ==> {
            &&& (#[trigger] entry_posts(t, es, now)[i]).kind == Kind::Rss
            &&& entry_posts(t, es, now)[i].id matches Some(id) && is_rss_id(id)
        },
    decreases es.len(),
{
    if es.len() > 0 {
        lemma_entry_posts_rss(t, es.drop_last(), now);
        let rest = entry_posts(t, es.drop_last(), now);
        match entry_post(t, es.last(), now) {
            Some(p) => {
                let id = p.id->0;
                reveal_strlit("rss:");
                assert(id.take(4) =~= "rss:"@);
                assert(is_rss_id(id));
                assert forall|i: int| 0 <= i < entry_posts(t, es, now).len() implies {
                    &&& (#[trigger] entry_posts(t, es, now)[i]).kind == Kind::Rss
                    &&& entry_posts(t, es, now)[i].id matches Some(id) && is_rss_id(id)
                } by {
                    if i < rest.len() {
                        assert(entry_posts(t, es, now)[i] == rest[i]);
                    }
                }
            },
            None => {},
        }
    }
}

/// The body shown in an entry's post is the plain text of its content (of its summary
/// when it has no content), as [`html_text`] gives it: the post's text ends with it, so
/// HTML content is shown rendered, not as markup.
pub proof fn law_entry_shows_rendered_body(feed_title: Seq<char>, e: RawEntry, now: Timestamp)
    requires
        entry_key(e).len() > 0,
    ensures
        entry_post(feed_title, e, now) is Some,
        ({
            let text = entry_post(feed_title, e, now)->0.text;
            let source = match opt_view(e.content_body) {
                Some(b) => Some(b),
                None => opt_view(e.summary),
            };
            source matches Some(b) ==> text.len() >= html_text(b).len() && text.skip(
                text.len() - html_text(b).len(),
            ) == html_text(b)
        }),
{
    let p = entry_post(feed_title, e, now)->0;
    let title = match opt_view(e.title) {
        Some(t) => trimmed(html_text(t)),
        None => Seq::empty(),
    };
    let source = match opt_view(e.content_body) {
        Some(b) => Some(b),
        None => opt_view(e.summary),
    };
    match source {
        Some(b) => {
            let body = html_text(b);
            reveal_strlit("\n\n");
            if title.len() > 0 && body.len() > 0 {
                assert((title + "\n\n"@ + body).skip(title.len() as int + 2) =~= body);
            } else if title.len() > 0 {
                assert(p.text.skip(p.text.len() as int) =~= body);
            } else {
                assert(p.text.skip(0) =~= body);
            }
        },
        None => {},
    }
}

} // verus!
