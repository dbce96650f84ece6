use vstd::prelude::*;

verus! {

/// The bytes of `b` from `i` on start with `pat`.
pub open spec fn matches_at(b: Seq<u8>, i: int, pat: Seq<u8>) -> bool {
    0 <= i && i + pat.len() <= b.len() && b.subrange(i, i + pat.len()) == pat
}

/// Whether the bytes of `b` from `i` on start with `pat`.
pub fn has_at(b: &[u8], i: usize, pat: &[u8]) -> (r: bool)
    ensures
        r == matches_at(b@, i as int, pat@),
{
    if i > b.len() || pat.len() > b.len() - i {
        return false;
    }
    let mut j: usize = 0;
    while j < pat.len()
        invariant
            i + pat@.len() <= b@.len(),
            b@.len() <= usize::MAX,
            j <= pat@.len(),
            forall|k: int| 0 <= k < j ==> b@[i + k] == pat@[k],
        decreases pat.len() - j,
    {
        if b[i + j] != pat[j] {
            assert(b@.subrange(i as int, i + pat@.len())[j as int] != pat@[j as int]);
            return false;
        }
        j = j + 1;
    }
    assert(b@.subrange(i as int, i + pat@.len()) =~= pat@);
    true
}

/// An XML white-space byte: space, tab, carriage return or line feed.
pub open spec fn is_xml_space(c: u8) -> bool {
    c == 0x20 || c == 0x09 || c == 0x0d || c == 0x0a
}

/// The first index from `k` on that does not hold XML white space (the length where
/// there is none).
pub open spec fn skip_space(b: Seq<u8>, k: int) -> int
    decreases b.len() - k,
{
    if 0 <= k < b.len() && is_xml_space(b[k]) {
        skip_space(b, k + 1)
    } else {
        k
    }
}

/// The first index from `k` on that does not hold XML white space.
pub fn skip_space_from(b: &[u8], k: usize) -> (r: usize)
    ensures
        r == skip_space(b@, k as int),
        k <= r,
        k <= b@.len() ==> r <= b@.len(),
{
    let mut j = k;
    while j < b.len() && (b[j] == 0x20 || b[j] == 0x09 || b[j] == 0x0d || b[j] == 0x0a)
        invariant
            k <= j,
            k <= b@.len() ==> j <= b@.len(),
            skip_space(b@, k as int) == skip_space(b@, j as int),
        decreases b.len() - j,
    {
        j = j + 1;
    }
    j
}

/// A byte that may stand in an XML name: an ASCII letter or digit, `_`, `-`, `.`, or any
/// byte of a non-ASCII character.
pub open spec fn is_name_byte(c: u8) -> bool {
    ||| 0x61 <= c <= 0x7a
    ||| 0x41 <= c <= 0x5a
    ||| 0x30 <= c <= 0x39
    ||| c == 0x5f || c == 0x2d || c == 0x2e
    ||| c >= 0x80
}

/// Whether `c` may stand in an XML name.
pub fn name_byte(c: u8) -> (r: bool)
    ensures
        r == is_name_byte(c),
{
    (0x61 <= c && c <= 0x7a) || (0x41 <= c && c <= 0x5a) || (0x30 <= c && c <= 0x39) || c == 0x5f
        || c == 0x2d || c == 0x2e || c >= 0x80
}

/// Going back from `k`, the last index before the name bytes that end at `k` (`-1`
/// where they reach the start).
pub open spec fn before_name(b: Seq<u8>, k: int) -> int
    decreases k + 1,
{
    if 0 <= k < b.len() && is_name_byte(b[k]) {
        before_name(b, k - 1)
    } else {
        k
    }
}

/// The name bytes that end just before `i` are preceded by `<`: they open a tag.
pub open spec fn opens_tag_before(b: Seq<u8>, i: int) -> bool {
    let p = before_name(b, i - 1);
    0 <= p < b.len() && b[p] == 0x3c
}

/// Whether the name bytes that end just before `i` are preceded by `<`.
pub fn is_tag_opening_before(b: &[u8], i: usize) -> (r: bool)
    requires
        i <= b@.len(),
    ensures
        r == opens_tag_before(b@, i as int),
{
    let mut j = i;
    while j > 0 && name_byte(b[j - 1])
        invariant
            j <= i <= b@.len(),
            before_name(b@, j - 1) == before_name(b@, i - 1),
        decreases j,
    {
        j = j - 1;
    }
    j > 0 && b[j - 1] == 0x3c
}

} // verus!
