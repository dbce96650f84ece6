use vstd::prelude::*;

use crate::post::{opt_view, Timestamp};
use crate::text::{decimal, i32_to_decimal, signed_decimal, u64_to_decimal};

verus! {

/// A rectangle of terminal cells.
#[derive(Clone, Copy, Debug, PartialEq, Eq, Structural)]
pub struct Area {
    pub x: u16,
    pub y: u16,
    pub width: u16,
    pub height: u16,
}

/// The help window over a screen of `width` by `height` cells: 60 % of the width, but at
/// least 40 and at most 60 columns, at most 12 rows, centred.
pub open spec fn help_area(width: u16, height: u16) -> Area {
    let w0 = (width * 60 / 100) as int;
    let w1 = if w0 < 40 { 40 } else { w0 };
    let w = if w1 > 60 { 60 } else { w1 };
    let h = if height < 12 { height as int } else { 12 };
    Area {
        x: ((if width >= w { width - w } else { 0 }) / 2) as u16,
        y: ((if height >= h { height - h } else { 0 }) / 2) as u16,
        width: w as u16,
        height: h as u16,
    }
}

/// Where the help window goes on a screen of `width` by `height` cells.
pub fn help_popup(width: u16, height: u16) -> (a: Area)
    requires
        width * 60 <= u16::MAX,
    ensures
        a == help_area(width, height),
{
    let w0 = width * 60 / 100;
    let w1 = if w0 < 40 { 40 } else { w0 };
    let w = if w1 > 60 { 60 } else { w1 };
    let h: u16 = if height < 12 { height } else { 12 };
    Area { x: width.saturating_sub(w) / 2, y: height.saturating_sub(h) / 2, width: w, height: h }
}

/// A row of the post list: the index of the post it shows and whether it is selected.
#[derive(Clone, Copy, Debug, PartialEq, Eq, Structural)]
pub struct ListRow {
    pub index: usize,
    pub selected: bool,
}

/// The rows of the post list on screen: the posts from `list_offset` on, at most
/// `visible_height` of them, the one at `selected` marked.
pub open spec fn list_rows_spec(posts_len: usize, list_offset: usize, selected: usize, visible_height: usize) -> Seq<ListRow> {
    let n = if posts_len - list_offset < visible_height {
        posts_len - list_offset
    } else {
        visible_height as int
    };
    Seq::new(n as nat, |i: int| ListRow { index: (list_offset + i) as usize, selected: list_offset + i == selected })
}

/// The rows of the post list on screen.
pub fn list_rows(posts_len: usize, list_offset: usize, selected: usize, visible_height: usize) -> (r: Vec<ListRow>)
    requires
        list_offset <= posts_len,
    ensures
        r@ == list_rows_spec(posts_len, list_offset, selected, visible_height),
{
    let avail = posts_len - list_offset;
    let n = if avail < visible_height { avail } else { visible_height };
    let mut rows: Vec<ListRow> = Vec::new();
    let mut i: usize = 0;
    while i < n
        invariant
            n <= posts_len - list_offset,
            n == if posts_len - list_offset < visible_height { posts_len - list_offset } else { visible_height as int },
            i <= n,
            rows@ =~= list_rows_spec(posts_len, list_offset, selected, visible_height).take(i as int),
        decreases n - i,
    {
        let index = list_offset + i;
        rows.push(ListRow { index, selected: index == selected });
        i = i + 1;
    }
    rows
}

/// The title bar's count of posts: ` N posts`.
pub open spec fn post_count_text(n: usize) -> Seq<char> {
    " "@ + decimal(n as nat) + " posts"@
}

/// The title bar's count of posts.
pub fn post_count_label(n: usize) -> (r: String)
    ensures
        r@ == post_count_text(n),
{
    let mut s = " ".to_owned();
    let digits = u64_to_decimal(n as u64);
    s.append(digits.as_str());
    s.append(" posts");
    s
}

/// The label of a post's source in the list: `[source] `.
pub fn channel_label(source: &str) -> (r: String)
    ensures
        r@ == "["@ + source@ + "] "@,
{
    let mut s = "[".to_owned();
    s.append(source);
    s.append("] ");
    s
}

/// The first header line of an open post: its source after a space.
pub fn detail_title(source: &str) -> (r: String)
    ensures
        r@ == " "@ + source@,
{
    let mut s = " ".to_owned();
    s.append(source);
    s
}

/// The view count shown after an open post's date: `  |  N views`.
pub fn views_label(views: i32) -> (r: String)
    ensures
        r@ == "  |  "@ + signed_decimal(views as int) + " views"@,
{
    let mut s = "  |  ".to_owned();
    let digits = i32_to_decimal(views);
    s.append(digits.as_str());
    s.append(" views");
    s
}

/// What chrono writes for the instant `secs` seconds and `nanos` nanoseconds after the
/// epoch in the format `%Y-%m-%d %H:%M UTC`, or `None` where chrono cannot represent it.
pub uninterp spec fn chrono_minute_text(secs: i64, nanos: u32) -> Option<Seq<char>>;

/// Calls `chrono::DateTime::from_timestamp` and, where it gives a date, formats it with
/// `%Y-%m-%d %H:%M UTC`. The result is a function of the instant alone, named
/// [`chrono_minute_text`].
#[verifier::external_body]
fn format_minute(secs: i64, nanos: u32) -> (r: Option<String>)
    ensures
        opt_view(r) == chrono_minute_text(secs, nanos),
{
    chrono::DateTime::from_timestamp(secs, nanos).map(|d| d.format("%Y-%m-%d %H:%M UTC").to_string())
}

/// The date line of an open post, given the formatted date: the date after a space, or
/// the space alone when the date could not be formatted.
pub fn date_label_from(formatted: Option<String>) -> (r: String)
    ensures
        r@ == " "@ + match opt_view(formatted) {
            Some(t) => t,
            None => Seq::empty(),
        },
{
    let mut s = " ".to_owned();
    match formatted {
        Some(t) => {
            s.append(t.as_str());
        },
        None => {
            assert(s@ =~= " "@ + Seq::<char>::empty());
        },
    }
    s
}

/// The date line of an open post: its date to the minute, in UTC, after a space.
pub fn date_label(date: Timestamp) -> (r: String)
    ensures
        r@ == " "@ + match chrono_minute_text(date.secs, date.nanos) {
            Some(t) => t,
            None => Seq::empty(),
        },
{
    let formatted = format_minute(date.secs, date.nanos);
    date_label_from(formatted)
}

} // verus!
