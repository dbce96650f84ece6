use vstd::prelude::*;
use vstd::string::*;
use vstd::utf8::encode_utf8;

use crate::post::opt_view;

verus! {

/// Whether `c` has the Unicode `White_Space` property.
pub open spec fn is_white_space(c: char) -> bool {
    let u = c as u32;
    ||| 0x09 <= u <= 0x0d
    ||| u == 0x20
    ||| u == 0x85
    ||| u == 0xa0
    ||| u == 0x1680
    ||| 0x2000 <= u <= 0x200a
    ||| u == 0x2028
    ||| u == 0x2029
    ||| u == 0x202f
    ||| u == 0x205f
    ||| u == 0x3000
}

/// Whether `c` has the Unicode `White_Space` property.
pub fn white_space(c: char) -> (r: bool)
    ensures
        r == is_white_space(c),
{
    let u = c as u32;
    (0x09 <= u && u <= 0x0d) || u == 0x20 || u == 0x85 || u == 0xa0 || u == 0x1680 || (0x2000 <= u
        && u <= 0x200a) || u == 0x2028 || u == 0x2029 || u == 0x202f || u == 0x205f || u == 0x3000
}

/// `s` without its leading white space.
pub open spec fn trim_start(s: Seq<char>) -> Seq<char>
    decreases s.len(),
{
    if s.len() > 0 && is_white_space(s[0]) {
        trim_start(s.drop_first())
    } else {
        s
    }
}

/// `s` without its trailing white space.
pub open spec fn trim_end(s: Seq<char>) -> Seq<char>
    decreases s.len(),
{
    if s.len() > 0 && is_white_space(s.last()) {
        trim_end(s.drop_last())
    } else {
        s
    }
}

/// `s` without leading and trailing white space.
pub open spec fn trimmed(s: Seq<char>) -> Seq<char> {
    trim_end(trim_start(s))
}

proof fn lemma_trim_start_at(s: Seq<char>, a: int)
    requires
        0 <= a <= s.len(),
        forall|i: int| 0 <= i < a ==> is_white_space(#[trigger] s[i]),
        a < s.len() ==> !is_white_space(s[a]),
    ensures
        trim_start(s) == s.skip(a),
    decreases a,
{
    if a == 0 {
        assert(s.skip(0) =~= s);
    } else {
        let t = s.drop_first();
        assert forall|i: int| 0 <= i < a - 1 implies is_white_space(#[trigger] t[i]) by {
            assert(t[i] == s[i + 1]);
        }
        lemma_trim_start_at(t, a - 1);
        assert(t.skip(a - 1) =~= s.skip(a));
    }
}

proof fn lemma_trim_end_at(s: Seq<char>, b: int)
    requires
        0 <= b <= s.len(),
        forall|i: int| b <= i < s.len() ==> is_white_space(#[trigger] s[i]),
        b > 0 ==> !is_white_space(s[b - 1]),
    ensures
        trim_end(s) == s.take(b),
    decreases s.len() - b,
{
    if b == s.len() {
        assert(s.take(b) =~= s);
    } else {
        let t = s.drop_last();
        lemma_trim_end_at(t, b);
        assert(t.take(b) =~= s.take(b));
    }
}

/// `s` without leading and trailing white space (as `str::trim` does).
pub fn trim(s: &str) -> (r: String)
    ensures
        r@ == trimmed(s@),
{
    let n = s.unicode_len();
    let mut a: usize = 0;
    while a < n && white_space(s.get_char(a))
        invariant
            n == s@.len(),
            a <= n,
            forall|i: int| 0 <= i < a ==> is_white_space(#[trigger] s@[i]),
        decreases n - a,
    {
        a = a + 1;
    }
    proof {
        lemma_trim_start_at(s@, a as int);
    }
    let ghost t = s@.skip(a as int);
    let mut b: usize = n;
    while b > a && white_space(s.get_char(b - 1))
        invariant
            n == s@.len(),
            a <= b <= n,
            t == s@.skip(a as int),
            forall|i: int| b <= i < n ==> is_white_space(#[trigger] s@[i]),
        decreases b - a,
    {
        b = b - 1;
    }
    proof {
        assert forall|i: int| b - a <= i < t.len() implies is_white_space(#[trigger] t[i]) by {
            assert(t[i] == s@[i + a]);
        }
        if b > a {
            assert(t[b - a - 1] == s@[b - 1]);
        }
        lemma_trim_end_at(t, b - a);
        assert(t.take(b - a) =~= s@.subrange(a as int, b as int));
    }
    s.substring_char(a, b).to_owned()
}

/// Whether `s` holds the character `c`.
pub fn contains_char(s: &str, c: char) -> (r: bool)
    ensures
        r == s@.contains(c),
{
    let n = s.unicode_len();
    let mut i: usize = 0;
    while i < n
        invariant
            n == s@.len(),
            i <= n,
            forall|j: int| 0 <= j < i ==> #[trigger] s@[j] != c,
        decreases n - i,
    {
        if s.get_char(i) == c {
            return true;
        }
        i = i + 1;
    }
    false
}

/// The decimal digit for `d`.
pub open spec fn digit_char(d: nat) -> char {
    if d == 0 { '0' }
    else if d == 1 { '1' }
    else if d == 2 { '2' }
    else if d == 3 { '3' }
    else if d == 4 { '4' }
    else if d == 5 { '5' }
    else if d == 6 { '6' }
    else if d == 7 { '7' }
    else if d == 8 { '8' }
    else { '9' }
}

/// The decimal representation of `n`, without leading zeros.
pub open spec fn decimal(n: nat) -> Seq<char>
    decreases n,
{
    if n < 10 {
        seq![digit_char(n)]
    } else {
        decimal(n / 10).push(digit_char(n % 10))
    }
}

/// The decimal representation of `n`, with a minus sign when it is negative.
pub open spec fn signed_decimal(n: int) -> Seq<char> {
    if n < 0 {
        seq!['-'] + decimal((-n) as nat)
    } else {
        decimal(n as nat)
    }
}

fn digit_str(d: u64) -> (r: &'static str)
    requires
        d < 10,
    ensures
        r@ == seq![digit_char(d as nat)],
{
    proof {
        reveal_strlit("0");
        reveal_strlit("1");
        reveal_strlit("2");
        reveal_strlit("3");
        reveal_strlit("4");
        reveal_strlit("5");
        reveal_strlit("6");
        reveal_strlit("7");
        reveal_strlit("8");
        reveal_strlit("9");
    }
    if d == 0 { "0" }
    else if d == 1 { "1" }
    else if d == 2 { "2" }
    else if d == 3 { "3" }
    else if d == 4 { "4" }
    else if d == 5 { "5" }
    else if d == 6 { "6" }
    else if d == 7 { "7" }
    else if d == 8 { "8" }
    else { "9" }
}

/// The decimal representation of `n` (as `n.to_string()` gives it).
pub fn u64_to_decimal(n: u64) -> (r: String)
    ensures
        r@ == decimal(n as nat),
    decreases n,
{
    if n < 10 {
        digit_str(n).to_owned()
    } else {
        let mut s = u64_to_decimal(n / 10);
        s.append(digit_str(n % 10));
        s
    }
}

/// The decimal representation of `n` (as `n.to_string()` gives it).
pub fn i32_to_decimal(n: i32) -> (r: String)
    ensures
        r@ == signed_decimal(n as int),
{
    if n < 0 {
        let m: i64 = -(n as i64);
        let digits = u64_to_decimal(m as u64);
        proof {
            reveal_strlit("-");
        }
        let mut s = "-".to_owned();
        s.append(digits.as_str());
        s
    } else {
        u64_to_decimal(n as u64)
    }
}

/// What html2text renders from the HTML text `html`, wrapped to `width` columns, or
/// `None` where it reports an error.
pub uninterp spec fn html2text_rendering(html: Seq<char>, width: usize) -> Option<Seq<char>>;

/// The bytes of `colspan` and `start`.
pub open spec fn colspan_name() -> Seq<u8> {
    seq![0x63u8, 0x6f, 0x6c, 0x73, 0x70, 0x61, 0x6e]
}

pub open spec fn start_attr_name() -> Seq<u8> {
    seq![0x73u8, 0x74, 0x61, 0x72, 0x74]
}

/// HTML white space: space, tab, line feed, form feed, carriage return.
pub open spec fn is_html_space(c: u8) -> bool {
    c == 0x20 || c == 0x09 || c == 0x0a || c == 0x0c || c == 0x0d
}

/// The first index from `k` on that does not hold HTML white space.
pub open spec fn skip_html_space(b: Seq<u8>, k: int) -> int
    decreases b.len() - k,
{
    if 0 <= k < b.len() && is_html_space(b[k]) {
        skip_html_space(b, k + 1)
    } else {
        k
    }
}

fn skip_html_space_from(b: &[u8], k: usize) -> (r: usize)
    ensures
        r == skip_html_space(b@, k as int),
        k <= r,
        k <= b@.len() ==> r <= b@.len(),
{
    let mut j = k;
    while j < b.len() && (b[j] == 0x20 || b[j] == 0x09 || b[j] == 0x0a || b[j] == 0x0c || b[j]
        == 0x0d)
        invariant
            k <= j,
            k <= b@.len() ==> j <= b@.len(),
            skip_html_space(b@, k as int) == skip_html_space(b@, j as int),
        decreases b.len() - j,
    {
        j = j + 1;
    }
    j
}

/// The byte `c` with ASCII capitals made small.
pub open spec fn ascii_lower(c: u8) -> u8 {
    if 0x41 <= c <= 0x5a { (c + 0x20) as u8 } else { c }
}

/// From `i` on, `b` holds `name` (written in small letters), in any case.
pub open spec fn matches_ci_at(b: Seq<u8>, i: int, name: Seq<u8>) -> bool {
    &&& 0 <= i
    &&& i + name.len() <= b.len()
    &&& forall|k: int| 0 <= k < name.len() ==> #[trigger] ascii_lower(b[i + k]) == name[k]
}

fn has_ci_at(b: &[u8], i: usize, name: &[u8]) -> (r: bool)
    ensures
        r == matches_ci_at(b@, i as int, name@),
{
    if i > b.len() || name.len() > b.len() - i {
        return false;
    }
    let mut k: usize = 0;
    while k < name.len()
        invariant
            i + name@.len() <= b@.len(),
            b@.len() <= usize::MAX,
            k <= name@.len(),
            forall|m: int| 0 <= m < k ==> #[trigger] ascii_lower(b@[i + m]) == name@[m],
        decreases name.len() - k,
    {
        let c = b[i + k];
        let l: u8 = if 0x41 <= c && c <= 0x5a { c + 0x20 } else { c };
        assert(l == ascii_lower(b@[i + k]));
        if l != name[k] {
            return false;
        }
        k = k + 1;
    }
    true
}

/// The number written by the decimal digits of `b` from `j` on, read onto `acc`, and
/// the index after them; the reading stops adding once the number reaches 10^9.
pub open spec fn decimal_at(b: Seq<u8>, j: int, acc: nat) -> (nat, int)
    decreases b.len() - j,
{
    if 0 <= j < b.len() && 0x30 <= b[j] <= 0x39 {
        decimal_at(b, j + 1, if acc >= 1_000_000_000 { acc } else { acc * 10 + (b[j] - 0x30) as nat })
    } else {
        (acc, j)
    }
}

fn decimal_from(b: &[u8], j0: usize) -> (r: (u64, usize))
    requires
        j0 <= b@.len(),
    ensures
        (r.0 as nat, r.1 as int) == decimal_at(b@, j0 as int, 0),
{
    let mut j = j0;
    let mut acc: u64 = 0;
    while j < b.len() && 0x30 <= b[j] && b[j] <= 0x39
        invariant
            j0 <= j <= b@.len(),
            acc < 10_000_000_000,
            decimal_at(b@, j as int, acc as nat) == decimal_at(b@, j0 as int, 0),
        decreases b.len() - j,
    {
        if acc < 1_000_000_000 {
            acc = acc * 10 + (b[j] - 0x30) as u64;
        }
        j = j + 1;
    }
    (acc, j)
}

/// At `i` an attribute `name` is set (in any case, as HTML reads attribute names) to a
/// value that starts, after an optional quote and sign, with a number of at least
/// `bound`, or with a character reference.
pub open spec fn number_attr_risk(b: Seq<u8>, i: int, name: Seq<u8>, bound: nat) -> bool {
    let e = skip_html_space(b, i + name.len());
    let q = skip_html_space(b, e + 1);
    let v = if q < b.len() && (b[q] == 0x22 || b[q] == 0x27) { q + 1 } else { q };
    let w = if v < b.len() && (b[v] == 0x2b || b[v] == 0x2d) { v + 1 } else { v };
    let (n, end) = decimal_at(b, w, 0);
    &&& matches_ci_at(b, i, name)
    &&& e < b.len() && b[e] == 0x3d
    &&& (n >= bound || (end < b.len() && b[end] == 0x26))
}

/// At byte `i` of `b` a `colspan` of 1000 or more, or an ordered-list `start` of 10^9
/// or more (either sign), is set, or one written with a character reference.
pub open spec fn html_risk_at(b: Seq<u8>, i: int) -> bool {
    ||| number_attr_risk(b, i, colspan_name(), 1000)
    ||| number_attr_risk(b, i, start_attr_name(), 1_000_000_000)
}

/// HTML that html2text renders without overflowing its integer arithmetic: html2text
/// adds up the `colspan` values of a table row as `usize` and adds the number of items
/// to an ordered list's `start` as `i64`, and overflows (a panic where overflow checks
/// are on) on values near the types' limits. No `colspan` of 1000 or more and no
/// `start` of 10^9 or more in size stays far from both.
pub open spec fn html_safe(b: Seq<u8>) -> bool {
    forall|i: int| 0 <= i < b.len() ==> !#[trigger] html_risk_at(b, i)
}

fn number_attr_check(b: &[u8], i: usize, name: &[u8], bound: u64) -> (r: bool)
    requires
        i < b@.len(),
        name@.len() <= 7,
    ensures
        r == number_attr_risk(b@, i as int, name@, bound as nat),
{
    if !has_ci_at(b, i, name) {
        return false;
    }
    assert(i + name@.len() <= b@.len() && b@.len() == b.len() && name@.len() == name.len());
    let e = skip_html_space_from(b, i + name.len());
    if !(e < b.len() && b[e] == 0x3d) {
        return false;
    }
    let q = skip_html_space_from(b, e + 1);
    let v = if q < b.len() && (b[q] == 0x22 || b[q] == 0x27) { q + 1 } else { q };
    let w = if v < b.len() && (b[v] == 0x2b || b[v] == 0x2d) { v + 1 } else { v };
    let (n, end) = decimal_from(b, w);
    n >= bound || (end < b.len() && b[end] == 0x26)
}

/// Whether html2text renders `b` without overflowing its integer arithmetic (see
/// [`html_safe`]).
pub fn html_is_safe(b: &[u8]) -> (r: bool)
    ensures
        r == html_safe(b@),
{
    let colspan: Vec<u8> = vec![0x63, 0x6f, 0x6c, 0x73, 0x70, 0x61, 0x6e];
    let start: Vec<u8> = vec![0x73, 0x74, 0x61, 0x72, 0x74];
    assert(colspan@ =~= colspan_name());
    assert(start@ =~= start_attr_name());
    let mut i: usize = 0;
    while i < b.len()
        invariant
            i <= b@.len(),
            colspan@ == colspan_name(),
            start@ == start_attr_name(),
            forall|k: int| 0 <= k < i ==> !#[trigger] html_risk_at(b@, k),
        decreases b.len() - i,
    {
        if number_attr_check(b, i, colspan.as_slice(), 1000) || number_attr_check(
            b,
            i,
            start.as_slice(),
            1_000_000_000,
        ) {
            assert(html_risk_at(b@, i as int));
            return false;
        }
        i = i + 1;
    }
    true
}

/// Calls `html2text::from_read` on the bytes of `html`. The result is a function of the
/// HTML and the width alone, named [`html2text_rendering`]; an error is returned as `None`.
/// Left out is HTML on which html2text's integer arithmetic overflows (see [`html_safe`]).
/// For its `unwrap`, `expect` and `unreachable!` calls the source shows this: the width
/// of a character is unwrapped only for characters of a word, and text reaches a word
/// only through `add_text`, which drops every character without a width; each push on
/// the stack of sub-renderers is matched by a pop in the hooks of the same node, which
/// `tree_map_reduce` runs once the node's children are done, so the stack never runs
/// empty; a pending space is counted only together with setting its tag; table rows get
/// their column sizes, and cells their widths, in `into_rows` and `into_cells` before
/// they are rendered; all size estimates are computed before rendering starts; and a
/// cell opens with a border line only when it holds a table drawn with borders, inside
/// a table of non-zero width that has already put its top border, or the bottom border
/// of its previous row, last. This is read from the source, not proved.
#[verifier::external_body]
fn render_html(html: &str, width: usize) -> (r: Option<String>)
    requires
        html_safe(html.spec_bytes()),
    ensures
        opt_view(r) == html2text_rendering(html@, width),
{
    html2text::from_read(html.as_bytes(), width).ok()
}

/// The width to which HTML is wrapped.
pub const HTML_WIDTH: usize = 80;

/// The plain text shown for a piece of content: content with a `<` in it is HTML and is
/// rendered (the content itself where rendering fails); other content is already plain.
/// HTML that sets a `colspan` or an ordered-list `start` that html2text's arithmetic
/// cannot take (see [`html_safe`]) is not rendered either and is shown as it is.
pub open spec fn html_text(html: Seq<char>) -> Seq<char> {
    if html.contains('<') && html_safe(encode_utf8(html)) {
        match html2text_rendering(html, HTML_WIDTH) {
            Some(t) => t,
            None => html,
        }
    } else {
        html
    }
}

/// The text shown for the HTML `html` given what rendering it gave: the rendering, or the
/// HTML itself where rendering failed.
pub fn text_from_rendering(html: &str, rendered: Option<String>) -> (r: String)
    ensures
        r@ == match opt_view(rendered) {
            Some(t) => t,
            None => html@,
        },
{
    match rendered {
        Some(t) => t,
        None => html.to_owned(),
    }
}

/// Converts content to plain text: HTML is rendered, plain text is kept as it is.
pub fn html_to_text(html: &str) -> (r: String)
    ensures
        r@ == html_text(html@),
{
    if contains_char(html, '<') && html_is_safe(html.as_bytes()) {
        let rendered = render_html(html, HTML_WIDTH);
        text_from_rendering(html, rendered)
    } else {
        html.to_owned()
    }
}

/// Content without a `<` is already plain text and comes out unchanged.
pub proof fn law_plain_text_unchanged(s: Seq<char>)
    requires
        !s.contains('<'),
    ensures
        html_text(s) == s,
{
}

/// Trimmed text neither starts nor ends with white space.
pub proof fn law_trimmed_has_no_outer_space(s: Seq<char>)
    ensures
        trimmed(s).len() > 0 ==> !is_white_space(trimmed(s)[0]) && !is_white_space(trimmed(s).last()),
    decreases s.len(),
{
    lemma_trim_start_no_space(s);
    lemma_trim_end_prefix(trim_start(s));
}

proof fn lemma_trim_start_no_space(s: Seq<char>)
    ensures
        trim_start(s).len() > 0 ==> !is_white_space(trim_start(s)[0]),
    decreases s.len(),
{
    if s.len() > 0 && is_white_space(s[0]) {
        lemma_trim_start_no_space(s.drop_first());
    }
}

proof fn lemma_trim_end_prefix(s: Seq<char>)
    ensures
        trim_end(s).len() <= s.len(),
        forall|i: int| 0 <= i < trim_end(s).len() ==> #[trigger] trim_end(s)[i] == s[i],
        trim_end(s).len() > 0 ==> !is_white_space(trim_end(s).last()),
    decreases s.len(),
{
    if s.len() > 0 && is_white_space(s.last()) {
        lemma_trim_end_prefix(s.drop_last());
    }
}

} // verus!

verus! {

proof fn lemma_decimal_len(n: nat)
    ensures
        decimal(n).len() >= 1,
        n >= 10 ==> decimal(n).len() >= 2,
    decreases n,
{
    if n >= 10 {
        lemma_decimal_len(n / 10);
    }
}

/// Different numbers have different decimal representations.
pub proof fn law_decimal_injective(a: nat, b: nat)
    requires
        decimal(a) == decimal(b),
    ensures
        a == b,
    decreases a,
{
    lemma_decimal_len(a);
    lemma_decimal_len(b);
    if a >= 10 && b >= 10 {
        assert(decimal(a).last() == digit_char(a % 10));
        assert(decimal(b).last() == digit_char(b % 10));
        assert(decimal(a).drop_last() =~= decimal(a / 10));
        assert(decimal(b).drop_last() =~= decimal(b / 10));
        law_decimal_injective(a / 10, b / 10);
    } else if a < 10 && b < 10 {
        assert(decimal(a)[0] == digit_char(a));
        assert(decimal(b)[0] == digit_char(b));
    } else {
        assert(decimal(a).len() != decimal(b).len());
    }
}

} // verus!
