use vstd::prelude::*;

use crate::pipeline::views;
use crate::post::{opt_view, Kind, Post, PostView, Timestamp};
use crate::state::State;
use crate::text::{decimal, html_text, html_to_text, i32_to_decimal, signed_decimal, u64_to_decimal};

verus! {

/// An item of the Hacker News API, as far as the reader reads it.
pub struct HnItem {
    pub id: u64,
    pub title: Option<String>,
    pub url: Option<String>,
    pub text: Option<String>,
    pub score: Option<i32>,
    /// Seconds since the Unix epoch.
    pub time: Option<i64>,
    pub item_type: Option<String>,
}

/// The identity under which a Hacker News story is remembered: `hn:` and its number.
pub open spec fn hn_id(id: u64) -> Seq<char> {
    "hn:"@ + decimal(id as nat)
}

/// The identity under which the Hacker News story `id` is remembered.
pub fn hn_post_id(id: u64) -> (r: String)
    ensures
        r@ == hn_id(id),
{
    let mut s = "hn:".to_owned();
    let digits = u64_to_decimal(id);
    s.append(digits.as_str());
    s
}

/// The first `limit` story numbers of `ids` (all of them when there are fewer), less
/// those whose story was already seen.
pub open spec fn unseen_story_ids(ids: Seq<u64>, limit: usize, seen: Set<Seq<char>>) -> Seq<u64> {
    let first = if limit < ids.len() { ids.take(limit as int) } else { ids };
    first.filter(|id: u64| !seen.contains(hn_id(id)))
}

/// The story numbers to fetch: the first `limit` top stories that were not seen yet.
pub fn select_unseen_ids(ids: Vec<u64>, limit: usize, state: &State) -> (r: Vec<u64>)
    ensures
        r@ == unseen_story_ids(ids@, limit, state@),
{
    let ghost first = if limit < ids@.len() { ids@.take(limit as int) } else { ids@ };
    let ghost pred = |id: u64| !state@.contains(hn_id(id));
    let end = if limit < ids.len() { limit } else { ids.len() };
    let mut out: Vec<u64> = Vec::new();
    let mut i: usize = 0;
    while i < end
        invariant
            end == first.len(),
            end <= ids@.len(),
            first == ids@.take(end as int),
            i <= end,
            out@ == first.take(i as int).filter(pred),
            pred == (|id: u64| !state@.contains(hn_id(id))),
        decreases end - i,
    {
        proof {
            assert(first.take(i + 1).drop_last() =~= first.take(i as int));
            reveal(Seq::filter);
        }
        let id = ids[i];
        let key = hn_post_id(id);
        if !state.is_seen(key.as_str()) {
            out.push(id);
        }
        i = i + 1;
    }
    proof {
        assert(first.take(end as int) =~= first);
    }
    out
}

/// The link of the discussion page of story `id`.
pub open spec fn hn_item_link(id: u64) -> Seq<char> {
    "https://news.ycombinator.com/item?id="@ + decimal(id as nat)
}

/// The text of a story: its title, and its body below a blank line when it has one.
pub open spec fn story_text(title: Seq<char>, body: Seq<char>) -> Seq<char> {
    if body.len() > 0 {
        title + "\n\n"@ + body
    } else {
        title
    }
}

/// The value of an optional string, empty when there is none.
pub open spec fn or_empty(o: Option<Seq<char>>) -> Seq<char> {
    match o {
        Some(s) => s,
        None => Seq::empty(),
    }
}

/// The post for a story item, dated `date`; `None` for items that are not stories.
pub open spec fn hn_post_spec(item: HnItem, date: Timestamp) -> Option<PostView> {
    if opt_view(item.item_type) == Some("story"@) {
        let title = or_empty(opt_view(item.title));
        let body = match opt_view(item.text) {
            Some(t) => html_text(t),
            None => Seq::empty(),
        };
        let score = match item.score {
            Some(s) => s,
            None => 0,
        };
        Some(PostView {
            source: "HN ("@ + signed_decimal(score as int) + ")"@,
            text: story_text(title, body),
            date,
            view_count: item.score,
            id: Some(hn_id(item.id)),
            link: match opt_view(item.url) {
                Some(u) => Some(u),
                None => Some(hn_item_link(item.id)),
            },
            kind: Kind::HackerNews,
        })
    } else {
        None
    }
}

/// Whether `t` is `Some(s)` with `s` equal to `lit`.
fn is_some_str(t: &Option<String>, lit: &str) -> (r: bool)
    ensures
        r == (opt_view(*t) == Some(lit@)),
{
    match t {
        Some(s) => *s == lit.to_owned(),
        None => false,
    }
}

/// The post for a story item, dated `date`; `None` for items that are not stories.
pub fn hn_post_dated(item: HnItem, date: Timestamp) -> (r: Option<Post>)
    ensures
        match r {
            Some(p) => hn_post_spec(item, date) == Some(p@),
            None => hn_post_spec(item, date) is None,
        },
{
    if !is_some_str(&item.item_type, "story") {
        return None;
    }
    let title = match item.title {
        Some(t) => t,
        None => String::new(),
    };
    let body = match &item.text {
        Some(t) => html_to_text(t.as_str()),
        None => String::new(),
    };
    let text = if body.unicode_len() > 0 {
        let mut s = title;
        s.append("\n\n");
        s.append(body.as_str());
        s
    } else {
        title
    };
    let score = match item.score {
        Some(s) => s,
        None => 0,
    };
    let mut source = "HN (".to_owned();
    let digits = i32_to_decimal(score);
    source.append(digits.as_str());
    source.append(")");
    let link = match item.url {
        Some(u) => Some(u),
        None => {
            let mut l = "https://news.ycombinator.com/item?id=".to_owned();
            let digits = u64_to_decimal(item.id);
            l.append(digits.as_str());
            Some(l)
        },
    };
    Some(Post {
        source,
        text,
        date,
        view_count: item.score,
        id: Some(hn_post_id(item.id)),
        link,
        kind: Kind::HackerNews,
    })
}

} // verus!

verus! {

/// The first and the last second that chrono can represent as a `DateTime<Utc>`: the
/// start of January 1 of the year -262143 and the end of December 31 of the year 262142
/// (chrono's `NaiveDate::MIN` and `NaiveDate::MAX`), counted from the epoch.
pub open spec fn first_chrono_second() -> int {
    -8_334_601_228_800
}

pub open spec fn last_chrono_second() -> int {
    8_210_266_876_799
}

/// Whether chrono can represent the instant `secs` seconds after the epoch as a
/// `DateTime<Utc>`: `DateTime::from_timestamp(secs, 0)` gives a date exactly for the
/// seconds from the first to the last day of chrono's calendar.
pub open spec fn chrono_representable(secs: i64) -> bool {
    first_chrono_second() <= secs <= last_chrono_second()
}

/// Whether chrono can represent the instant `secs` seconds after the epoch.
pub fn timestamp_representable(secs: i64) -> (r: bool)
    ensures
        r == chrono_representable(secs),
{
    -8_334_601_228_800 <= secs && secs <= 8_210_266_876_799
}

/// The date of a story published `time` seconds after the epoch (at the epoch when the
/// time is missing); `now` where chrono cannot represent that instant.
pub open spec fn story_date(time: Option<i64>, now: Timestamp) -> Timestamp {
    let secs = match time {
        Some(t) => t,
        None => 0,
    };
    if chrono_representable(secs) {
        Timestamp { secs, nanos: 0 }
    } else {
        now
    }
}

/// The date of a story published `time` seconds after the epoch, `now` where that
/// instant cannot be represented.
pub fn hn_story_date(time: Option<i64>, now: Timestamp) -> (d: Timestamp)
    ensures
        d == story_date(time, now),
{
    let secs = match time {
        Some(t) => t,
        None => 0,
    };
    if timestamp_representable(secs) {
        Timestamp::from_secs(secs)
    } else {
        now
    }
}

/// The post for a story item, `None` for items that are not stories; `now` is the date
/// given to a story whose time cannot be represented.
pub fn hn_post(item: HnItem, now: Timestamp) -> (r: Option<Post>)
    ensures
        match r {
            Some(p) => hn_post_spec(item, story_date(item.time, now)) == Some(p@),
            None => hn_post_spec(item, story_date(item.time, now)) is None,
        },
{
    let date = hn_story_date(item.time, now);
    hn_post_dated(item, date)
}

/// The posts for the stories among `items`, in order.
pub open spec fn stories(items: Seq<HnItem>, now: Timestamp) -> Seq<PostView>
    decreases items.len(),
{
    if items.len() == 0 {
        Seq::empty()
    } else {
        let rest = stories(items.drop_last(), now);
        let it = items.last();
        match hn_post_spec(it, story_date(it.time, now)) {
            Some(p) => rest.push(p),
            None => rest,
        }
    }
}

/// The posts for the fetched top-story items: the stories among them, newest first.
pub fn hn_posts(items: Vec<HnItem>, now: Timestamp) -> (r: Vec<Post>)
    ensures
        views(r@) == crate::pipeline::newest_first(stories(items@, now)),
{
    let ghost orig = items@;
    let n = items.len();
    let mut rest = items;
    let mut posts: Vec<Post> = Vec::new();
    let mut k: usize = 0;
    while rest.len() > 0
        invariant
            n == orig.len(),
            k + rest@.len() == n,
            rest@ == orig.skip(k as int),
            views(posts@) == stories(orig.take(k as int), now),
        decreases rest.len(),
    {
        let ghost old_rest = rest@;
        let item = rest.remove(0);
        proof {
            assert(item == orig[k as int]) by {
                assert(old_rest[0] == orig.skip(k as int)[0]);
            }
            assert(rest@ =~= orig.skip(k + 1));
            assert(orig.take(k + 1).drop_last() =~= orig.take(k as int));
        }
        let ghost before = posts@;
        match hn_post(item, now) {
            Some(p) => {
                posts.push(p);
                assert(views(posts@) =~= views(before).push(p@));
            },
            None => {},
        }
        k = k + 1;
    }
    proof {
        assert(orig.take(k as int) =~= orig);
    }
    crate::pipeline::sort_newest_first(posts)
}

} // verus!

verus! {

/// The stories chosen for fetching are among the first `limit` top stories and none of
/// them was seen before.
pub proof fn law_unseen_story_ids(ids: Seq<u64>, limit: usize, seen: Set<Seq<char>>)
    ensures
        unseen_story_ids(ids, limit, seen).len() <= limit,
        forall|i: int|
            0 <= i < unseen_story_ids(ids, limit, seen).len() ==> !seen.contains(
                hn_id(#[trigger] unseen_story_ids(ids, limit, seen)[i]),
            ),
{
    broadcast use vstd::seq_lib::group_filter_ensures;

    let first = if limit < ids.len() { ids.take(limit as int) } else { ids };
    assert(first.len() <= limit);
}

} // verus!

verus! {

/// Different stories are remembered under different identities.
pub proof fn law_hn_id_injective(a: u64, b: u64)
    requires
        hn_id(a) == hn_id(b),
    ensures
        a == b,
{
    let p = "hn:"@;
    assert((p + decimal(a as nat)).skip(p.len() as int) =~= decimal(a as nat));
    assert((p + decimal(b as nat)).skip(p.len() as int) =~= decimal(b as nat));
    crate::text::law_decimal_injective(a as nat, b as nat);
}

/// The body shown in a story's post is the plain text of the item's text, as
/// [`html_text`] gives it: the post's text ends with it, so HTML in a story is shown
/// rendered, not as markup.
pub proof fn law_story_shows_rendered_text(item: HnItem, date: Timestamp)
    requires
        opt_view(item.item_type) == Some("story"@),
    ensures
        hn_post_spec(item, date) is Some,
        ({
            let text = hn_post_spec(item, date)->0.text;
            opt_view(item.text) matches Some(t) ==> text.len() >= html_text(t).len() && text.skip(
                text.len() - html_text(t).len(),
            ) == html_text(t)
        }),
{
    let p = hn_post_spec(item, date)->0;
    let title = or_empty(opt_view(item.title));
    match opt_view(item.text) {
        Some(t) => {
            let body = html_text(t);
            reveal_strlit("\n\n");
            if body.len() > 0 {
                assert((title + "\n\n"@ + body).skip(title.len() as int + 2) =~= body);
            } else {
                assert(p.text.skip(p.text.len() as int) =~= body);
            }
        },
        None => {},
    }
}

} // verus!
