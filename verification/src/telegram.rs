use vstd::prelude::*;

use crate::post::{opt_view, Kind, Post, PostView, Timestamp};

verus! {

/// The source that a fetched post came from.
#[derive(Clone, Copy, Debug, PartialEq, Eq, Structural, PartialOrd, Ord, Hash)]
pub enum Source {
    HackerNews,
    Rss,
    Telegram,
}

/// The kind of post that a source yields.
pub open spec fn source_kind(s: Source) -> Kind {
    match s {
        Source::HackerNews => Kind::HackerNews,
        Source::Rss => Kind::Rss,
        Source::Telegram => Kind::Telegram,
    }
}

/// A post as it comes out of a Telegram channel.
pub struct FetchedPost {
    pub channel_name: String,
    pub text: String,
    pub date: Timestamp,
    pub view_count: Option<i32>,
    pub id: Option<String>,
    pub link: Option<String>,
    pub source: Source,
}

/// The mathematical value of a [`FetchedPost`].
pub struct FetchedPostView {
    pub channel_name: Seq<char>,
    pub text: Seq<char>,
    pub date: Timestamp,
    pub view_count: Option<i32>,
    pub id: Option<Seq<char>>,
    pub link: Option<Seq<char>>,
    pub source: Source,
}

impl View for FetchedPost {
    type V = FetchedPostView;

    open spec fn view(&self) -> FetchedPostView {
        FetchedPostView {
            channel_name: self.channel_name@,
            text: self.text@,
            date: self.date,
            view_count: self.view_count,
            id: opt_view(self.id),
            link: opt_view(self.link),
            source: self.source,
        }
    }
}

/// The post that a fetched post is shown as: the channel becomes the post's source.
pub open spec fn fetched_to_post(f: FetchedPostView) -> PostView {
    PostView {
        source: f.channel_name,
        text: f.text,
        date: f.date,
        view_count: f.view_count,
        id: f.id,
        link: f.link,
        kind: source_kind(f.source),
    }
}

impl FetchedPost {
    /// The post that this fetched post is shown as.
    pub fn into_post(self) -> (p: Post)
        ensures
            p@ == fetched_to_post(self@),
    {
        let kind = match self.source {
            Source::HackerNews => Kind::HackerNews,
            Source::Rss => Kind::Rss,
            Source::Telegram => Kind::Telegram,
        };
        Post {
            source: self.channel_name,
            text: self.text,
            date: self.date,
            view_count: self.view_count,
            id: self.id,
            link: self.link,
            kind,
        }
    }
}

} // verus!

verus! {

/// A reaction under a message and how often it was given; `emoji` is the emoticon for an
/// emoji reaction and `None` for any other kind of reaction.
pub struct ReactionCount {
    pub count: i32,
    pub emoji: Option<String>,
}

/// A message of a Telegram channel, as far as the reader reads it.
pub struct RawMessage {
    pub id: i32,
    /// The album the message belongs to, if any.
    pub grouped_id: Option<i64>,
    pub text: String,
    pub date: Timestamp,
    pub view_count: Option<i32>,
    /// The reactions, when the message carries a reaction summary.
    pub reactions: Option<Vec<ReactionCount>>,
}

/// The most frequent reaction of `rs`; of several equally frequent ones, the last.
pub open spec fn top_reaction(rs: Seq<ReactionCount>) -> Option<ReactionCount>
    decreases rs.len(),
{
    if rs.len() == 0 {
        None
    } else {
        match top_reaction(rs.drop_last()) {
            Some(t) => if rs.last().count >= t.count { Some(rs.last()) } else { Some(t) },
            None => Some(rs.last()),
        }
    }
}

/// Whether `e` is one of `emojis`.
pub open spec fn listed(emojis: Seq<String>, e: Seq<char>) -> bool {
    exists|i: int| 0 <= i < emojis.len() && #[trigger] emojis[i]@ == e
}

/// Whether the message's most frequent reaction is a negative emoji given at least the
/// configured number of times.
pub open spec fn excessive(m: RawMessage, filter: crate::config::FilterConfig) -> bool {
    match m.reactions {
        Some(rs) => match top_reaction(rs@) {
            Some(t) => t.count >= filter.min_negative_reactions && match t.emoji {
                Some(e) => listed(filter.negative_emojis@, e@),
                None => false,
            },
            None => false,
        },
        None => false,
    }
}

/// Whether the message's most frequent reaction is a negative emoji given at least the
/// configured number of times.
pub fn has_excessive_negative_reactions(m: &RawMessage, filter: &crate::config::FilterConfig) -> (r: bool)
    ensures
        r == excessive(*m, *filter),
{
    let rs = match &m.reactions {
        Some(rs) => rs,
        None => return false,
    };
    let mut top: Option<usize> = None;
    let mut i: usize = 0;
    while i < rs.len()
        invariant
            i <= rs@.len(),
            match top {
                Some(t) => t < i && top_reaction(rs@.take(i as int)) == Some(rs@[t as int]),
                None => i == 0,
            },
        decreases rs.len() - i,
    {
        proof {
            assert(rs@.take(i + 1).drop_last() =~= rs@.take(i as int));
        }
        top = match top {
            Some(t) => if rs[i].count >= rs[t].count { Some(i) } else { Some(t) },
            None => Some(i),
        };
        i = i + 1;
    }
    proof {
        assert(rs@.take(i as int) =~= rs@);
    }
    let ti = match top {
        Some(ti) => ti,
        None => return false,
    };
    let t = &rs[ti];
    assert(top_reaction(rs@) == Some(*t));
    if t.count < filter.min_negative_reactions {
        return false;
    }
    let e = match &t.emoji {
        Some(e) => e,
        None => return false,
    };
    let mut j: usize = 0;
    while j < filter.negative_emojis.len()
        invariant
            j <= filter.negative_emojis@.len(),
            forall|k: int| 0 <= k < j ==> #[trigger] filter.negative_emojis@[k]@ != e@,
            t.emoji == Some(*e),
            t.count >= filter.min_negative_reactions,
            m.reactions == Some(*rs),
            top_reaction(rs@) == Some(*t),
        decreases filter.negative_emojis.len() - j,
    {
        if filter.negative_emojis[j] == *e {
            assert(filter.negative_emojis@[j as int]@ == e@);
            assert(listed(filter.negative_emojis@, e@));
            return true;
        }
        j = j + 1;
    }
    false
}

} // verus!

verus! {

/// Whether some message of the album `g` has excessive negative reactions; such an album
/// is hidden as a whole.
pub open spec fn album_filtered(raw: Seq<RawMessage>, filter: crate::config::FilterConfig, g: i64) -> bool {
    exists|i: int| 0 <= i < raw.len() && #[trigger] raw[i].grouped_id == Some(g) && excessive(raw[i], filter)
}

/// Whether message `i` is hidden: its album is filtered, or, outside an album, it has
/// excessive negative reactions itself.
pub open spec fn hidden(raw: Seq<RawMessage>, filter: crate::config::FilterConfig, i: int) -> bool {
    match raw[i].grouped_id {
        Some(g) => album_filtered(raw, filter, g),
        None => excessive(raw[i], filter),
    }
}

/// Whether message `i` starts a post: it is not hidden, and it is not in an album that an
/// earlier message belongs to.
pub open spec fn starts_post(raw: Seq<RawMessage>, filter: crate::config::FilterConfig, i: int) -> bool {
    &&& !hidden(raw, filter, i)
    &&& match raw[i].grouped_id {
        Some(g) => forall|j: int| 0 <= j < i ==> #[trigger] raw[j].grouped_id != Some(g),
        None => true,
    }
}

/// The text of the album `g`: the first non-empty text among its messages, empty if none.
pub open spec fn album_text(raw: Seq<RawMessage>, g: i64) -> Seq<char>
    decreases raw.len(),
{
    if raw.len() == 0 {
        Seq::empty()
    } else {
        let t = album_text(raw.drop_last(), g);
        if t.len() == 0 && raw.last().grouped_id == Some(g) {
            raw.last().text@
        } else {
            t
        }
    }
}

/// The post that message `i` starts in channel `name`.
pub open spec fn channel_post(name: Seq<char>, raw: Seq<RawMessage>, i: int) -> FetchedPostView {
    FetchedPostView {
        channel_name: name,
        text: match raw[i].grouped_id {
            Some(g) => album_text(raw, g),
            None => raw[i].text@,
        },
        date: raw[i].date,
        view_count: raw[i].view_count,
        id: None,
        link: None,
        source: Source::Telegram,
    }
}

/// The posts started by the first `n` messages.
pub open spec fn channel_posts_upto(
    name: Seq<char>,
    raw: Seq<RawMessage>,
    filter: crate::config::FilterConfig,
    n: int,
) -> Seq<FetchedPostView>
    decreases n,
{
    if n <= 0 {
        Seq::empty()
    } else {
        let rest = channel_posts_upto(name, raw, filter, n - 1);
        if starts_post(raw, filter, n - 1) {
            rest.push(channel_post(name, raw, n - 1))
        } else {
            rest
        }
    }
}

/// The posts of channel `name` from its unread messages `raw`, in message order: one post
/// per visible message outside an album and one per visible album.
pub open spec fn channel_posts_spec(
    name: Seq<char>,
    raw: Seq<RawMessage>,
    filter: crate::config::FilterConfig,
) -> Seq<FetchedPostView> {
    channel_posts_upto(name, raw, filter, raw.len() as int)
}

/// The albums that are hidden because a message of theirs has excessive negative reactions.
fn filtered_albums(raw: &Vec<RawMessage>, filter: &crate::config::FilterConfig) -> (r: Vec<i64>)
    ensures
        forall|g: i64| r@.contains(g) <==> album_filtered(raw@, *filter, g),
{
    let mut out: Vec<i64> = Vec::new();
    let mut i: usize = 0;
    while i < raw.len()
        invariant
            i <= raw@.len(),
            forall|g: i64|
                out@.contains(g) <==> exists|j: int|
                    0 <= j < i && #[trigger] raw@[j].grouped_id == Some(g) && excessive(raw@[j], *filter),
        decreases raw.len() - i,
    {
        if has_excessive_negative_reactions(&raw[i], filter) {
            match raw[i].grouped_id {
                Some(g) => {
                    let ghost before = out@;
                    out.push(g);
                    proof {
                        assert forall|h: i64| out@.contains(h) <==> exists|j: int|
                            0 <= j < i + 1 && #[trigger] raw@[j].grouped_id == Some(h) && excessive(raw@[j], *filter) by {
                            if out@.contains(h) && h != g {
                                let k = choose|k: int| 0 <= k < out@.len() && out@[k] == h;
                                assert(before[k] == h);
                            }
                            if h == g {
                                assert(out@[before.len() as int] == h);
                            }
                            if before.contains(h) {
                                let k = choose|k: int| 0 <= k < before.len() && before[k] == h;
                                assert(out@[k] == h);
                            }
                        }
                    }
                },
                None => {},
            }
        }
        i = i + 1;
    }
    out
}

/// Whether `g` is in `v`.
fn holds(v: &Vec<i64>, g: i64) -> (r: bool)
    ensures
        r == v@.contains(g),
{
    let mut i: usize = 0;
    while i < v.len()
        invariant
            i <= v@.len(),
            forall|j: int| 0 <= j < i ==> v@[j] != g,
        decreases v.len() - i,
    {
        if v[i] == g {
            return true;
        }
        i = i + 1;
    }
    false
}

/// The text of the album `g`.
fn album_text_of(raw: &Vec<RawMessage>, g: i64) -> (r: String)
    ensures
        r@ == album_text(raw@, g),
{
    let mut cur = String::new();
    let mut i: usize = 0;
    while i < raw.len()
        invariant
            i <= raw@.len(),
            cur@ == album_text(raw@.take(i as int), g),
        decreases raw.len() - i,
    {
        proof {
            assert(raw@.take(i + 1).drop_last() =~= raw@.take(i as int));
        }
        if cur.unicode_len() == 0 && raw[i].grouped_id == Some(g) {
            cur = raw[i].text.clone();
        }
        i = i + 1;
    }
    proof {
        assert(raw@.take(i as int) =~= raw@);
    }
    cur
}

/// Whether no message before message `i` belongs to album `g`.
fn first_of_album(raw: &Vec<RawMessage>, i: usize, g: i64) -> (r: bool)
    requires
        i <= raw@.len(),
    ensures
        r == forall|j: int| 0 <= j < i ==> #[trigger] raw@[j].grouped_id != Some(g),
{
    let mut j: usize = 0;
    while j < i
        invariant
            i <= raw@.len(),
            j <= i,
            forall|k: int| 0 <= k < j ==> #[trigger] raw@[k].grouped_id != Some(g),
        decreases i - j,
    {
        if raw[j].grouped_id == Some(g) {
            assert(raw@[j as int].grouped_id == Some(g));
            return false;
        }
        j = j + 1;
    }
    true
}

/// The posts of channel `name` from its unread messages `raw`: messages with excessive
/// negative reactions are hidden, with the whole album when they belong to one; an album
/// becomes one post, dated like its first message and holding its first non-empty text.
pub fn channel_posts(name: &str, raw: &Vec<RawMessage>, filter: &crate::config::FilterConfig) -> (r: Vec<FetchedPost>)
    ensures
        r@.map_values(|p: FetchedPost| p@) == channel_posts_spec(name@, raw@, *filter),
{
    let albums = filtered_albums(raw, filter);
    let mut out: Vec<FetchedPost> = Vec::new();
    let mut i: usize = 0;
    while i < raw.len()
        invariant
            i <= raw@.len(),
            forall|g: i64| albums@.contains(g) <==> album_filtered(raw@, *filter, g),
            out@.map_values(|p: FetchedPost| p@) == channel_posts_upto(name@, raw@, *filter, i as int),
        decreases raw.len() - i,
    {
        let m = &raw[i];
        let starts = match m.grouped_id {
            Some(g) => !holds(&albums, g) && first_of_album(raw, i, g),
            None => !has_excessive_negative_reactions(m, filter),
        };
        if starts {
            let text = match m.grouped_id {
                Some(g) => album_text_of(raw, g),
                None => m.text.clone(),
            };
            let ghost before = out@;
            out.push(
                FetchedPost {
                    channel_name: name.to_owned(),
                    text,
                    date: m.date,
                    view_count: m.view_count,
                    id: None,
                    link: None,
                    source: Source::Telegram,
                },
            );
            proof {
                assert(out@.map_values(|p: FetchedPost| p@) =~= before.map_values(|p: FetchedPost| p@).push(
                    channel_post(name@, raw@, i as int),
                ));
            }
        }
        i = i + 1;
    }
    out
}

} // verus!

verus! {

/// Whether a channel with `unread_count` unread messages is read at all.
pub fn has_unread(unread_count: i32) -> (r: bool)
    ensures
        r == (unread_count != 0),
{
    unread_count != 0
}

/// Whether reading a channel stops at the message with id `msg_id`, the `iter_count`-th
/// one read (counting from one): once at least `unread_count` messages were read, at the
/// first one that was already read (its id is at most `read_inbox_max_id`). That message
/// is not kept.
pub open spec fn stops_reading(iter_count: usize, unread_count: i32, msg_id: i32, read_inbox_max_id: i32) -> bool {
    iter_count > (unread_count as usize) && msg_id <= read_inbox_max_id
}

/// Whether reading a channel stops at the message with id `msg_id`, the `iter_count`-th
/// one read.
pub fn stop_reading(iter_count: usize, unread_count: i32, msg_id: i32, read_inbox_max_id: i32) -> (r: bool)
    ensures
        r == stops_reading(iter_count, unread_count, msg_id, read_inbox_max_id),
{
    let target = unread_count as usize;
    iter_count > target && msg_id <= read_inbox_max_id
}

/// The fetched posts `s` ordered by date, newest first; posts of the same date keep
/// their order.
pub open spec fn fetched_newest_first(s: Seq<FetchedPost>) -> Seq<FetchedPostView> {
    crate::sort::items_of(
        crate::sort::stable_sort(
            s.map_values(|p: FetchedPost| crate::sort::Keyed { key: crate::sort::newest_first_key(p.date), item: p@ }),
        ),
    )
}

/// Orders the posts of all channels by date, newest first, keeping posts of the same date
/// in their order.
pub fn sort_fetched_newest_first(posts: Vec<FetchedPost>) -> (r: Vec<FetchedPost>)
    ensures
        r@.map_values(|p: FetchedPost| p@) == fetched_newest_first(posts@),
{
    let mut keys: Vec<crate::sort::SortKey> = Vec::new();
    let mut i: usize = 0;
    while i < posts.len()
        invariant
            i <= posts@.len(),
            keys@.len() == i,
            forall|k: int| 0 <= k < i ==> #[trigger] keys@[k] == crate::sort::newest_first_key(posts@[k].date),
        decreases posts.len() - i,
    {
        keys.push(crate::sort::date_sort_key(posts[i].date));
        i = i + 1;
    }
    let ghost f = |p: FetchedPost| p@;
    let ghost z = crate::sort::zip_keys(keys@, posts@);
    proof {
        assert(crate::sort::map_items(z, f) =~= posts@.map_values(
            |p: FetchedPost| crate::sort::Keyed { key: crate::sort::newest_first_key(p.date), item: p@ },
        ));
    }
    let r = crate::sort::sort_with_keys(posts, keys);
    proof {
        crate::sort::lemma_stable_sort_map_items(z, f);
        assert(r@.map_values(|p: FetchedPost| p@) =~= crate::sort::items_of(
            crate::sort::map_items(crate::sort::stable_sort(z), f),
        ));
    }
    r
}

} // verus!

verus! {

/// A message of an album that is hidden starts no post: albums are dropped whole.
pub proof fn law_hidden_album_yields_no_post(
    raw: Seq<RawMessage>,
    filter: crate::config::FilterConfig,
    i: int,
    g: i64,
)
    requires
        0 <= i < raw.len(),
        raw[i].grouped_id == Some(g),
        exists|j: int| 0 <= j < raw.len() && #[trigger] raw[j].grouped_id == Some(g) && excessive(raw[j], filter),
    ensures
        !starts_post(raw, filter, i),
{
}

/// An album starts at most one post.
pub proof fn law_one_post_per_album(raw: Seq<RawMessage>, filter: crate::config::FilterConfig, i: int, j: int)
    requires
        0 <= i < raw.len(),
        0 <= j < raw.len(),
        raw[i].grouped_id is Some,
        raw[i].grouped_id == raw[j].grouped_id,
        starts_post(raw, filter, i),
        starts_post(raw, filter, j),
    ensures
        i == j,
{
    if i < j {
        assert(raw[i].grouped_id != raw[j].grouped_id);
    } else if j < i {
        assert(raw[j].grouped_id != raw[i].grouped_id);
    }
}

/// A channel yields no more posts than it has messages.
pub proof fn law_channel_posts_bounded(name: Seq<char>, raw: Seq<RawMessage>, filter: crate::config::FilterConfig, n: int)
    requires
        0 <= n,
    ensures
        channel_posts_upto(name, raw, filter, n).len() <= n,
    decreases n,
{
    if n > 0 {
        law_channel_posts_bounded(name, raw, filter, n - 1);
    }
}

/// Posts from all channels, newest first, hold exactly the fetched posts, none later than
/// one before it.
pub proof fn law_fetched_newest_first(s: Seq<FetchedPost>)
    ensures
        fetched_newest_first(s).to_multiset() == s.map_values(|p: FetchedPost| p@).to_multiset(),
        forall|i: int, j: int|
            0 <= i < j < fetched_newest_first(s).len() ==> !crate::post::ts_lt(
                #[trigger] fetched_newest_first(s)[i].date,
                #[trigger] fetched_newest_first(s)[j].date,
            ),
{
    broadcast use vstd::seq_lib::group_to_multiset_ensures;

    let ks = s.map_values(|p: FetchedPost| crate::sort::Keyed { key: crate::sort::newest_first_key(p.date), item: p@ });
    let t = crate::sort::stable_sort(ks);
    crate::sort::lemma_stable_sort_permutes_items(ks);
    assert(crate::sort::items_of(ks) =~= s.map_values(|p: FetchedPost| p@));
    crate::sort::lemma_stable_sort_sorted(ks);
    assert forall|i: int, j: int| 0 <= i < j < fetched_newest_first(s).len() implies !crate::post::ts_lt(
        #[trigger] fetched_newest_first(s)[i].date,
        #[trigger] fetched_newest_first(s)[j].date,
    ) by {
        crate::sort::lemma_stable_sort_contains(ks, i);
        crate::sort::lemma_stable_sort_contains(ks, j);
        let a = choose|a: int| 0 <= a < ks.len() && ks[a] == t[i];
        let b = choose|b: int| 0 <= b < ks.len() && ks[b] == t[j];
        assert(!crate::sort::key_before(t[j].key, t[i].key));
    }
}

/// Reading stops exactly at the first message past the unread count whose id is at most
/// the read boundary: the boundary message itself is already read and stops the reading,
/// a message above it never does, and neither does any message within the unread count.
pub proof fn law_reading_stops_at_read_boundary(iter_count: usize, unread_count: i32, msg_id: i32, read_inbox_max_id: i32)
    requires
        unread_count >= 0,
    ensures
        stops_reading(iter_count, unread_count, msg_id, read_inbox_max_id) <==> (iter_count > unread_count
            && msg_id <= read_inbox_max_id),
        iter_count > unread_count ==> stops_reading(iter_count, unread_count, read_inbox_max_id, read_inbox_max_id),
        msg_id <= read_inbox_max_id && stops_reading(iter_count, unread_count, read_inbox_max_id, read_inbox_max_id)
            ==> stops_reading(iter_count, unread_count, msg_id, read_inbox_max_id),
{
}

} // verus!
