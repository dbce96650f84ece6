use vstd::prelude::*;

verus! {

/// Where a post came from. The order of the variants is the order in which the sources
/// are shown.
#[derive(Clone, Copy, Debug, PartialEq, Eq, Structural, PartialOrd, Ord, Hash)]
pub enum Kind {
    HackerNews,
    Rss,
    Telegram,
}

/// The position of a kind in the display order.
pub open spec fn kind_rank(k: Kind) -> u8 {
    match k {
        Kind::HackerNews => 0,
        Kind::Rss => 1,
        Kind::Telegram => 2,
    }
}

impl Kind {
    /// The position of this kind in the display order.
    pub fn rank(&self) -> (r: u8)
        ensures
            r == kind_rank(*self),
    {
        match self {
            Kind::HackerNews => 0,
            Kind::Rss => 1,
            Kind::Telegram => 2,
        }
    }
}

/// A point in time: whole seconds since the Unix epoch and the nanoseconds past them.
#[derive(Clone, Copy, Debug, PartialEq, Eq, Structural)]
pub struct Timestamp {
    pub secs: i64,
    pub nanos: u32,
}

/// `a` is strictly earlier than `b`.
pub open spec fn ts_lt(a: Timestamp, b: Timestamp) -> bool {
    a.secs < b.secs || (a.secs == b.secs && a.nanos < b.nanos)
}

impl Timestamp {
    /// The instant `secs` seconds after the epoch.
    pub fn from_secs(secs: i64) -> (t: Timestamp)
        ensures
            t == (Timestamp { secs, nanos: 0 }),
    {
        Timestamp { secs, nanos: 0 }
    }

    /// Whether `self` is strictly earlier than `other`.
    pub fn is_before(&self, other: &Timestamp) -> (r: bool)
        ensures
            r == ts_lt(*self, *other),
    {
        self.secs < other.secs || (self.secs == other.secs && self.nanos < other.nanos)
    }
}

/// A post as the reader shows it.
pub struct Post {
    /// The channel, feed or site that published the post.
    pub source: String,
    pub text: String,
    pub date: Timestamp,
    pub view_count: Option<i32>,
    /// A stable identity used to remember that the post was seen; `None` for posts whose
    /// read state is kept elsewhere.
    pub id: Option<String>,
    pub link: Option<String>,
    pub kind: Kind,
}

/// The mathematical value of a [`Post`].
pub struct PostView {
    pub source: Seq<char>,
    pub text: Seq<char>,
    pub date: Timestamp,
    pub view_count: Option<i32>,
    pub id: Option<Seq<char>>,
    pub link: Option<Seq<char>>,
    pub kind: Kind,
}

/// The view of an optional string.
pub open spec fn opt_view(o: Option<String>) -> Option<Seq<char>> {
    match o {
        Some(s) => Some(s@),
        None => None,
    }
}

impl View for Post {
    type V = PostView;

    open spec fn view(&self) -> PostView {
        PostView {
            source: self.source@,
            text: self.text@,
            date: self.date,
            view_count: self.view_count,
            id: opt_view(self.id),
            link: opt_view(self.link),
            kind: self.kind,
        }
    }
}

} // verus!
