use vstd::prelude::*;

use crate::scan::{
    has_at, is_name_byte, is_tag_opening_before, is_xml_space, matches_at, name_byte, opens_tag_before, skip_space,
    skip_space_from,
};
use crate::text::ascii_lower;

verus! {

/// The largest number that a digit run of a play-time value may write: feed-rs reads
/// the hours of `H:MM:SS` into a `u64` and multiplies them by 3600, and this bound keeps
/// that sum, and every number it reads, within `u64`.
pub open spec fn npt_limit() -> nat {
    5_000_000_000_000_000
}

/// `b` holds the byte `c` at `j`.
pub open spec fn byte_at(b: Seq<u8>, j: int, c: u8) -> bool {
    0 <= j < b.len() && b[j] == c
}

fn byte_is(b: &[u8], j: usize, off: usize, c: u8) -> (r: bool)
    requires
        j <= b@.len(),
    ensures
        r == byte_at(b@, j + off, c),
{
    off < b.len() - j && b[j + off] == c
}

/// A decimal digit other than `0` to `9`: a code point of the Unicode category `Nd`
/// (Unicode 16), which the `\d` of feed-rs's play-time patterns also matches.
pub open spec fn is_other_decimal_digit(c: int) -> bool {
    ||| 0x660 <= c <= 0x669
    ||| 0x6f0 <= c <= 0x6f9
    ||| 0x7c0 <= c <= 0x7c9
    ||| 0x966 <= c <= 0x96f
    ||| 0x9e6 <= c <= 0x9ef
    ||| 0xa66 <= c <= 0xa6f
    ||| 0xae6 <= c <= 0xaef
    ||| 0xb66 <= c <= 0xb6f
    ||| 0xbe6 <= c <= 0xbef
    ||| 0xc66 <= c <= 0xc6f
    ||| 0xce6 <= c <= 0xcef
    ||| 0xd66 <= c <= 0xd6f
    ||| 0xde6 <= c <= 0xdef
    ||| 0xe50 <= c <= 0xe59
    ||| 0xed0 <= c <= 0xed9
    ||| 0xf20 <= c <= 0xf29
    ||| 0x1040 <= c <= 0x1049
    ||| 0x1090 <= c <= 0x1099
    ||| 0x17e0 <= c <= 0x17e9
    ||| 0x1810 <= c <= 0x1819
    ||| 0x1946 <= c <= 0x194f
    ||| 0x19d0 <= c <= 0x19d9
    ||| 0x1a80 <= c <= 0x1a89
    ||| 0x1a90 <= c <= 0x1a99
    ||| 0x1b50 <= c <= 0x1b59
    ||| 0x1bb0 <= c <= 0x1bb9
    ||| 0x1c40 <= c <= 0x1c49
    ||| 0x1c50 <= c <= 0x1c59
    ||| 0xa620 <= c <= 0xa629
    ||| 0xa8d0 <= c <= 0xa8d9
    ||| 0xa900 <= c <= 0xa909
    ||| 0xa9d0 <= c <= 0xa9d9
    ||| 0xa9f0 <= c <= 0xa9f9
    ||| 0xaa50 <= c <= 0xaa59
    ||| 0xabf0 <= c <= 0xabf9
    ||| 0xff10 <= c <= 0xff19
    ||| 0x104a0 <= c <= 0x104a9
    ||| 0x10d30 <= c <= 0x10d39
    ||| 0x10d40 <= c <= 0x10d49
    ||| 0x11066 <= c <= 0x1106f
    ||| 0x110f0 <= c <= 0x110f9
    ||| 0x11136 <= c <= 0x1113f
    ||| 0x111d0 <= c <= 0x111d9
    ||| 0x112f0 <= c <= 0x112f9
    ||| 0x11450 <= c <= 0x11459
    ||| 0x114d0 <= c <= 0x114d9
    ||| 0x11650 <= c <= 0x11659
    ||| 0x116c0 <= c <= 0x116c9
    ||| 0x116d0 <= c <= 0x116e3
    ||| 0x11730 <= c <= 0x11739
    ||| 0x118e0 <= c <= 0x118e9
    ||| 0x11950 <= c <= 0x11959
    ||| 0x11bf0 <= c <= 0x11bf9
    ||| 0x11c50 <= c <= 0x11c59
    ||| 0x11d50 <= c <= 0x11d59
    ||| 0x11da0 <= c <= 0x11da9
    ||| 0x11f50 <= c <= 0x11f59
    ||| 0x16130 <= c <= 0x16139
    ||| 0x16a60 <= c <= 0x16a69
    ||| 0x16ac0 <= c <= 0x16ac9
    ||| 0x16b50 <= c <= 0x16b59
    ||| 0x16d70 <= c <= 0x16d79
    ||| 0x1ccf0 <= c <= 0x1ccf9
    ||| 0x1d7ce <= c <= 0x1d7ff
    ||| 0x1e140 <= c <= 0x1e149
    ||| 0x1e2f0 <= c <= 0x1e2f9
    ||| 0x1e4f0 <= c <= 0x1e4f9
    ||| 0x1e5f1 <= c <= 0x1e5fa
    ||| 0x1e950 <= c <= 0x1e959
    ||| 0x1fbf0 <= c <= 0x1fbf9
}

fn other_decimal_digit(c: u32) -> (r: bool)
    ensures
        r == is_other_decimal_digit(c as int),
{
    (0x660 <= c && c <= 0x669) ||
        (0x6f0 <= c && c <= 0x6f9) ||
        (0x7c0 <= c && c <= 0x7c9) ||
        (0x966 <= c && c <= 0x96f) ||
        (0x9e6 <= c && c <= 0x9ef) ||
        (0xa66 <= c && c <= 0xa6f) ||
        (0xae6 <= c && c <= 0xaef) ||
        (0xb66 <= c && c <= 0xb6f) ||
        (0xbe6 <= c && c <= 0xbef) ||
        (0xc66 <= c && c <= 0xc6f) ||
        (0xce6 <= c && c <= 0xcef) ||
        (0xd66 <= c && c <= 0xd6f) ||
        (0xde6 <= c && c <= 0xdef) ||
        (0xe50 <= c && c <= 0xe59) ||
        (0xed0 <= c && c <= 0xed9) ||
        (0xf20 <= c && c <= 0xf29) ||
        (0x1040 <= c && c <= 0x1049) ||
        (0x1090 <= c && c <= 0x1099) ||
        (0x17e0 <= c && c <= 0x17e9) ||
        (0x1810 <= c && c <= 0x1819) ||
        (0x1946 <= c && c <= 0x194f) ||
        (0x19d0 <= c && c <= 0x19d9) ||
        (0x1a80 <= c && c <= 0x1a89) ||
        (0x1a90 <= c && c <= 0x1a99) ||
        (0x1b50 <= c && c <= 0x1b59) ||
        (0x1bb0 <= c && c <= 0x1bb9) ||
        (0x1c40 <= c && c <= 0x1c49) ||
        (0x1c50 <= c && c <= 0x1c59) ||
        (0xa620 <= c && c <= 0xa629) ||
        (0xa8d0 <= c && c <= 0xa8d9) ||
        (0xa900 <= c && c <= 0xa909) ||
        (0xa9d0 <= c && c <= 0xa9d9) ||
        (0xa9f0 <= c && c <= 0xa9f9) ||
        (0xaa50 <= c && c <= 0xaa59) ||
        (0xabf0 <= c && c <= 0xabf9) ||
        (0xff10 <= c && c <= 0xff19) ||
        (0x104a0 <= c && c <= 0x104a9) ||
        (0x10d30 <= c && c <= 0x10d39) ||
        (0x10d40 <= c && c <= 0x10d49) ||
        (0x11066 <= c && c <= 0x1106f) ||
        (0x110f0 <= c && c <= 0x110f9) ||
        (0x11136 <= c && c <= 0x1113f) ||
        (0x111d0 <= c && c <= 0x111d9) ||
        (0x112f0 <= c && c <= 0x112f9) ||
        (0x11450 <= c && c <= 0x11459) ||
        (0x114d0 <= c && c <= 0x114d9) ||
        (0x11650 <= c && c <= 0x11659) ||
        (0x116c0 <= c && c <= 0x116c9) ||
        (0x116d0 <= c && c <= 0x116e3) ||
        (0x11730 <= c && c <= 0x11739) ||
        (0x118e0 <= c && c <= 0x118e9) ||
        (0x11950 <= c && c <= 0x11959) ||
        (0x11bf0 <= c && c <= 0x11bf9) ||
        (0x11c50 <= c && c <= 0x11c59) ||
        (0x11d50 <= c && c <= 0x11d59) ||
        (0x11da0 <= c && c <= 0x11da9) ||
        (0x11f50 <= c && c <= 0x11f59) ||
        (0x16130 <= c && c <= 0x16139) ||
        (0x16a60 <= c && c <= 0x16a69) ||
        (0x16ac0 <= c && c <= 0x16ac9) ||
        (0x16b50 <= c && c <= 0x16b59) ||
        (0x16d70 <= c && c <= 0x16d79) ||
        (0x1ccf0 <= c && c <= 0x1ccf9) ||
        (0x1d7ce <= c && c <= 0x1d7ff) ||
        (0x1e140 <= c && c <= 0x1e149) ||
        (0x1e2f0 <= c && c <= 0x1e2f9) ||
        (0x1e4f0 <= c && c <= 0x1e4f9) ||
        (0x1e5f1 <= c && c <= 0x1e5fa) ||
        (0x1e950 <= c && c <= 0x1e959) ||
        (0x1fbf0 <= c && c <= 0x1fbf9)
}

/// How a character counts in a play-time value: `2 + d` for the ASCII digit `d`, `1`
/// for another decimal digit (which feed-rs fails to read as a number), `0` otherwise.
pub open spec fn digit_or_other(cp: int) -> u8 {
    if 0x30 <= cp <= 0x39 {
        (cp - 0x30 + 2) as u8
    } else if is_other_decimal_digit(cp) {
        1
    } else {
        0
    }
}

fn digit_or_other_of(cp: u32) -> (r: u8)
    ensures
        r == digit_or_other(cp as int),
{
    if 0x30 <= cp && cp <= 0x39 {
        (cp - 0x30 + 2) as u8
    } else if other_decimal_digit(cp) {
        1
    } else {
        0
    }
}

/// A UTF-8 continuation byte.
pub open spec fn is_cont(c: u8) -> bool {
    0x80 <= c <= 0xbf
}

/// The character at byte `j`, classed as [`digit_or_other`] does, and the number of its
/// bytes. In a body in another encoding than UTF-8 (`legacy`) every non-ASCII byte, and
/// in UTF-8 every byte that starts no character, counts as a possible digit (`1`).
pub open spec fn char_class(b: Seq<u8>, j: int, legacy: bool) -> (u8, int) {
    let c = b[j];
    if c < 0x80 {
        (digit_or_other(c as int), 1)
    } else if legacy {
        (1, 1)
    } else if 0xc2 <= c <= 0xdf && 1 < b.len() - j && is_cont(b[j + 1]) {
        (digit_or_other((c - 0xc0) * 64 + (b[j + 1] - 0x80)), 2)
    } else if 0xe0 <= c <= 0xef && 2 < b.len() - j && is_cont(b[j + 1]) && is_cont(b[j + 2]) {
        (digit_or_other((c - 0xe0) * 4096 + (b[j + 1] - 0x80) * 64 + (b[j + 2] - 0x80)), 3)
    } else if 0xf0 <= c <= 0xf4 && 3 < b.len() - j && is_cont(b[j + 1]) && is_cont(b[j + 2]) && is_cont(
        b[j + 3],
    ) {
        (digit_or_other(
            (c - 0xf0) * 262144 + (b[j + 1] - 0x80) * 4096 + (b[j + 2] - 0x80) * 64 + (b[j + 3] - 0x80),
        ), 4)
    } else {
        (1, 1)
    }
}

fn char_class_of(b: &[u8], j: usize, legacy: bool) -> (r: (u8, usize))
    requires
        j < b@.len(),
    ensures
        (r.0, r.1 as int) == char_class(b@, j as int, legacy),
{
    let c = b[j];
    if c < 0x80 {
        (digit_or_other_of(c as u32), 1)
    } else if legacy {
        (1, 1)
    } else if 0xc2 <= c && c <= 0xdf && 1 < b.len() - j && 0x80 <= b[j + 1] && b[j + 1] <= 0xbf {
        let cp: u32 = (c - 0xc0) as u32 * 64 + (b[j + 1] - 0x80) as u32;
        (digit_or_other_of(cp), 2)
    } else if 0xe0 <= c && c <= 0xef && 2 < b.len() - j && 0x80 <= b[j + 1] && b[j + 1] <= 0xbf && 0x80
        <= b[j + 2] && b[j + 2] <= 0xbf {
        let cp: u32 = (c - 0xe0) as u32 * 4096 + (b[j + 1] - 0x80) as u32 * 64 + (b[j + 2] - 0x80) as u32;
        (digit_or_other_of(cp), 3)
    } else if 0xf0 <= c && c <= 0xf4 && 3 < b.len() - j && 0x80 <= b[j + 1] && b[j + 1] <= 0xbf && 0x80
        <= b[j + 2] && b[j + 2] <= 0xbf && 0x80 <= b[j + 3] && b[j + 3] <= 0xbf {
        let cp: u32 = (c - 0xf0) as u32 * 262144 + (b[j + 1] - 0x80) as u32 * 4096 + (b[j + 2] - 0x80) as u32
            * 64 + (b[j + 3] - 0x80) as u32;
        (digit_or_other_of(cp), 4)
    } else {
        (1, 1)
    }
}

/// A decimal digit byte, or a hexadecimal one where `hex` holds.
pub open spec fn is_ref_digit(c: u8, hex: bool) -> bool {
    ||| 0x30 <= c <= 0x39
    ||| hex && 0x61 <= c <= 0x66
    ||| hex && 0x41 <= c <= 0x46
}

/// The value of the digit byte `c`.
pub open spec fn ref_digit_value(c: u8) -> nat {
    if 0x30 <= c <= 0x39 {
        (c - 0x30) as nat
    } else if 0x61 <= c <= 0x66 {
        (c - 0x61 + 10) as nat
    } else {
        (c - 0x41 + 10) as nat
    }
}

/// The number written by the digits of `b` from `k` on, read onto `acc`, and the index
/// after them; a number past the last code point stays past it.
pub open spec fn ref_number(b: Seq<u8>, k: int, hex: bool, acc: nat) -> (nat, int)
    decreases b.len() - k,
{
    if 0 <= k < b.len() && is_ref_digit(b[k], hex) {
        ref_number(
            b,
            k + 1,
            hex,
            if acc >= 0x110000 { acc } else { acc * (if hex { 16nat } else { 10nat }) + ref_digit_value(b[k]) },
        )
    } else {
        (acc, k)
    }
}

fn ref_number_from(b: &[u8], k0: usize, hex: bool) -> (r: (u32, usize))
    requires
        k0 <= b@.len(),
    ensures
        (r.0 as nat, r.1 as int) == ref_number(b@, k0 as int, hex, 0),
        k0 <= r.1 <= b@.len(),
{
    let mut k = k0;
    let mut acc: u32 = 0;
    while k < b.len() && ((0x30 <= b[k] && b[k] <= 0x39) || (hex && 0x61 <= b[k] && b[k] <= 0x66) || (
    hex && 0x41 <= b[k] && b[k] <= 0x46))
        invariant
            k0 <= k <= b@.len(),
            acc < 0x110000 * 16 + 16,
            ref_number(b@, k as int, hex, acc as nat) == ref_number(b@, k0 as int, hex, 0),
        decreases b.len() - k,
    {
        let c = b[k];
        if acc < 0x110000 {
            let d: u32 = if 0x30 <= c && c <= 0x39 {
                (c - 0x30) as u32
            } else if 0x61 <= c && c <= 0x66 {
                (c - 0x61 + 10) as u32
            } else {
                (c - 0x41 + 10) as u32
            };
            assert(d == ref_digit_value(c));
            acc = acc * (if hex { 16 } else { 10 }) + d;
        }
        k = k + 1;
    }
    (acc, k)
}

/// How the character that a numeric character reference names counts: not a character
/// at all (an error, counted as a possible digit) or as [`digit_or_other`] classes it.
pub open spec fn code_class(v: nat) -> u8 {
    if v == 0 || v >= 0x110000 || (0xd800 <= v <= 0xdfff) {
        1
    } else {
        digit_or_other(v as int)
    }
}

/// The `&` at `j`, classed: a numeric character reference counts as the character it
/// names (a malformed one as a possible digit), any other `&` as itself.
pub open spec fn ref_class(b: Seq<u8>, j: int) -> (u8, int) {
    if byte_at(b, j + 1, 0x23) {
        let hex = byte_at(b, j + 2, 0x78) || byte_at(b, j + 2, 0x58);
        let start = if hex { j + 3 } else { j + 2 };
        let v = ref_number(b, start, hex, 0);
        if v.1 > start && byte_at(b, v.1, 0x3b) {
            (code_class(v.0), v.1 + 1 - j)
        } else {
            (1, 1)
        }
    } else {
        (0, 1)
    }
}

fn ref_class_of(b: &[u8], j: usize) -> (r: (u8, usize))
    requires
        j < b@.len(),
    ensures
        (r.0, r.1 as int) == ref_class(b@, j as int),
{
    assert(b@.len() == b.len());
    if byte_is(b, j, 1, 0x23) {
        let hex = byte_is(b, j, 2, 0x78) || byte_is(b, j, 2, 0x58);
        let start = if hex { j + 3 } else { j + 2 };
        let (v, end) = ref_number_from(b, start, hex);
        if end > start && byte_is(b, end, 0, 0x3b) {
            assert(end < b.len());
            let cls: u8 = if v == 0 || v >= 0x110000 || (0xd800 <= v && v <= 0xdfff) {
                1
            } else {
                digit_or_other_of(v)
            };
            (cls, end + 1 - j)
        } else {
            (1, 1)
        }
    } else {
        (0, 1)
    }
}

/// The reading modes of a value: element text, inside CDATA, inside a comment, inside a
/// processing instruction, an attribute value read as written, one with its references
/// resolved.
pub const TEXT: u8 = 0;
pub const CDATA: u8 = 1;
pub const COMMENT: u8 = 2;
pub const PI: u8 = 3;
pub const RAW: u8 = 4;
pub const RESOLVED: u8 = 5;

/// The outcomes of a step: a character that is no digit, a possible digit that feed-rs
/// cannot read (`RISKY`), an ASCII digit `d` (`2 + d`), the end of the value (`END`), or
/// markup that adds no character (`SKIP`).
pub const OTHER: u8 = 0;
pub const RISKY: u8 = 1;
pub const END: u8 = 12;
pub const SKIP: u8 = 13;

pub open spec fn cdata_open_at(b: Seq<u8>, j: int) -> bool {
    byte_at(b, j, 0x3c) && byte_at(b, j + 1, 0x21) && byte_at(b, j + 2, 0x5b) && byte_at(b, j + 3, 0x43)
        && byte_at(b, j + 4, 0x44) && byte_at(b, j + 5, 0x41) && byte_at(b, j + 6, 0x54) && byte_at(b, j + 7, 0x41)
        && byte_at(b, j + 8, 0x5b)
}

pub open spec fn cdata_close_at(b: Seq<u8>, j: int) -> bool {
    byte_at(b, j, 0x5d) && byte_at(b, j + 1, 0x5d) && byte_at(b, j + 2, 0x3e)
}

pub open spec fn comment_open_at(b: Seq<u8>, j: int) -> bool {
    byte_at(b, j, 0x3c) && byte_at(b, j + 1, 0x21) && byte_at(b, j + 2, 0x2d) && byte_at(b, j + 3, 0x2d)
}

pub open spec fn comment_close_at(b: Seq<u8>, j: int) -> bool {
    byte_at(b, j, 0x2d) && byte_at(b, j + 1, 0x2d) && byte_at(b, j + 2, 0x3e)
}

pub open spec fn pi_close_at(b: Seq<u8>, j: int) -> bool {
    byte_at(b, j, 0x3f) && byte_at(b, j + 1, 0x3e)
}

/// One step of reading a value at byte `j` in `mode`: its outcome, its length in bytes,
/// and the mode after it. Element text runs through CDATA sections, comments and
/// processing instructions, as feed-rs joins them into one text, and ends at the next
/// tag; `<!` that opens neither a CDATA section nor a comment counts as possibly
/// hiding a digit. An attribute value ends at its quote `term`.
pub open spec fn next_action(b: Seq<u8>, j: int, mode: u8, term: u8, legacy: bool) -> (u8, int, u8) {
    if mode == CDATA {
        if cdata_close_at(b, j) {
            (SKIP, 3, TEXT)
        } else {
            let c = char_class(b, j, legacy);
            (c.0, c.1, CDATA)
        }
    } else if mode == COMMENT {
        if comment_close_at(b, j) { (SKIP, 3, TEXT) } else { (SKIP, 1, COMMENT) }
    } else if mode == PI {
        if pi_close_at(b, j) { (SKIP, 2, TEXT) } else { (SKIP, 1, PI) }
    } else if mode == TEXT {
        if b[j] == 0x3c {
            if cdata_open_at(b, j) {
                (SKIP, 9, CDATA)
            } else if comment_open_at(b, j) {
                (SKIP, 4, COMMENT)
            } else if byte_at(b, j + 1, 0x3f) {
                (SKIP, 2, PI)
            } else if byte_at(b, j + 1, 0x21) {
                (RISKY, 1, TEXT)
            } else {
                (END, 1, TEXT)
            }
        } else if b[j] == 0x26 {
            let c = ref_class(b, j);
            (c.0, c.1, TEXT)
        } else {
            let c = char_class(b, j, legacy);
            (c.0, c.1, TEXT)
        }
    } else {
        if b[j] == term {
            (END, 1, mode)
        } else if mode == RESOLVED && b[j] == 0x26 {
            let c = ref_class(b, j);
            (c.0, c.1, mode)
        } else {
            let c = char_class(b, j, legacy);
            (c.0, c.1, mode)
        }
    }
}

fn next_action_of(b: &[u8], j: usize, mode: u8, term: u8, legacy: bool) -> (r: (u8, usize, u8))
    requires
        j < b@.len(),
    ensures
        (r.0, r.1 as int, r.2) == next_action(b@, j as int, mode, term, legacy),
{
    if mode == CDATA {
        if byte_is(b, j, 0, 0x5d) && byte_is(b, j, 1, 0x5d) && byte_is(b, j, 2, 0x3e) {
            (SKIP, 3, TEXT)
        } else {
            let (c, n) = char_class_of(b, j, legacy);
            (c, n, CDATA)
        }
    } else if mode == COMMENT {
        if byte_is(b, j, 0, 0x2d) && byte_is(b, j, 1, 0x2d) && byte_is(b, j, 2, 0x3e) {
            (SKIP, 3, TEXT)
        } else {
            (SKIP, 1, COMMENT)
        }
    } else if mode == PI {
        if byte_is(b, j, 0, 0x3f) && byte_is(b, j, 1, 0x3e) {
            (SKIP, 2, TEXT)
        } else {
            (SKIP, 1, PI)
        }
    } else if mode == TEXT {
        if b[j] == 0x3c {
            if byte_is(b, j, 1, 0x21) && byte_is(b, j, 2, 0x5b) && byte_is(b, j, 3, 0x43) && byte_is(b, j, 4, 0x44) && byte_is(b, j, 5, 0x41) && byte_is(b, j, 6, 0x54) && byte_is(b, j, 7, 0x41) && byte_is(b, j, 8, 0x5b) {
                (SKIP, 9, CDATA)
            } else if byte_is(b, j, 1, 0x21) && byte_is(b, j, 2, 0x2d) && byte_is(b, j, 3, 0x2d) {
                (SKIP, 4, COMMENT)
            } else if byte_is(b, j, 1, 0x3f) {
                (SKIP, 2, PI)
            } else if byte_is(b, j, 1, 0x21) {
                (RISKY, 1, TEXT)
            } else {
                (END, 1, TEXT)
            }
        } else if b[j] == 0x26 {
            let (c, n) = ref_class_of(b, j);
            (c, n, TEXT)
        } else {
            let (c, n) = char_class_of(b, j, legacy);
            (c, n, TEXT)
        }
    } else {
        if b[j] == term {
            (END, 1, mode)
        } else if mode == RESOLVED && b[j] == 0x26 {
            let (c, n) = ref_class_of(b, j);
            (c, n, mode)
        } else {
            let (c, n) = char_class_of(b, j, legacy);
            (c, n, mode)
        }
    }
}

/// From `j` on, read in `mode`, `b` holds a play-time value that feed-rs reads without
/// fault: no decimal digit that is not ASCII, and no run of ASCII digits writing more
/// than [`npt_limit`]. `run` is the number written by the digits just read.
pub open spec fn value_ok(b: Seq<u8>, j: int, mode: u8, term: u8, run: nat, legacy: bool) -> bool
    decreases b.len() - j,
{
    if !(0 <= j < b.len()) {
        true
    } else {
        let a = next_action(b, j, mode, term, legacy);
        if a.1 < 1 {
            false
        } else if a.0 == END {
            true
        } else if a.0 == SKIP {
            value_ok(b, j + a.1, a.2, term, run, legacy)
        } else if a.0 == OTHER {
            value_ok(b, j + a.1, a.2, term, 0, legacy)
        } else if 2 <= a.0 <= 11 {
            let r = run * 10 + (a.0 - 2) as nat;
            r <= npt_limit() && value_ok(b, j + a.1, a.2, term, r, legacy)
        } else {
            false
        }
    }
}

fn value_check(b: &[u8], j0: usize, mode0: u8, term: u8, legacy: bool) -> (r: bool)
    ensures
        r == value_ok(b@, j0 as int, mode0, term, 0, legacy),
{
    let mut j = j0;
    let mut mode = mode0;
    let mut run: u64 = 0;
    while j < b.len()
        invariant
            run <= npt_limit(),
            value_ok(b@, j as int, mode, term, run as nat, legacy) == value_ok(b@, j0 as int, mode0, term, 0, legacy),
        decreases b.len() - j,
    {
        let (k, n, m) = next_action_of(b, j, mode, term, legacy);
        if n < 1 {
            return false;
        }
        let nj = if n <= b.len() - j { j + n } else { b.len() };
        assert(value_ok(b@, nj as int, m, term, 0, legacy) == value_ok(b@, j + n, m, term, 0, legacy));
        if k == END {
            return true;
        } else if k == SKIP {
            assert(value_ok(b@, nj as int, m, term, run as nat, legacy) == value_ok(b@, j + n, m, term, run as nat, legacy));
        } else if k == OTHER {
            run = 0;
        } else if 2 <= k && k <= 11 {
            let r = run * 10 + (k - 2) as u64;
            if r > 5_000_000_000_000_000 {
                return false;
            }
            assert(value_ok(b@, nj as int, m, term, r as nat, legacy) == value_ok(b@, j + n, m, term, r as nat, legacy));
            run = r;
        } else {
            return false;
        }
        j = nj;
        mode = m;
    }
    true
}

/// The index of the `>` that closes the tag whose rest starts at `k` (quoted attribute
/// values skipped; `q` is the quote being read, `0` outside quotes), or `-1` where the
/// body ends first.
pub open spec fn tag_close(b: Seq<u8>, k: int, q: u8) -> int
    decreases b.len() - k,
{
    if !(0 <= k < b.len()) {
        -1
    } else if q != 0 {
        if b[k] == q { tag_close(b, k + 1, 0) } else { tag_close(b, k + 1, q) }
    } else if b[k] == 0x3e {
        k
    } else if b[k] == 0x22 || b[k] == 0x27 {
        tag_close(b, k + 1, b[k])
    } else {
        tag_close(b, k + 1, 0)
    }
}

fn tag_close_from(b: &[u8], k0: usize) -> (r: Option<usize>)
    ensures
        match r {
            Some(g) => g as int == tag_close(b@, k0 as int, 0) && g < b@.len(),
            None => tag_close(b@, k0 as int, 0) == -1,
        },
{
    let mut k = k0;
    let mut q: u8 = 0;
    while k < b.len()
        invariant
            k0 <= k,
            tag_close(b@, k as int, q) == tag_close(b@, k0 as int, 0),
        decreases b.len() - k,
    {
        let c = b[k];
        if q != 0 {
            if c == q {
                q = 0;
            }
        } else if c == 0x3e {
            return Some(k);
        } else if c == 0x22 || c == 0x27 {
            q = c;
        }
        k = k + 1;
    }
    None
}

/// The bytes of `duration`.
pub open spec fn duration_name() -> Seq<u8> {
    seq![0x64u8, 0x75, 0x72, 0x61, 0x74, 0x69, 0x6f, 0x6e]
}

/// The element whose start tag goes on at `e` (after its name) has a text that feed-rs
/// reads as a play time without fault: the tag never closes, is empty (`/>`), or its
/// text is a [`value_ok`] value.
pub open spec fn element_value_ok(b: Seq<u8>, e: int, legacy: bool) -> bool {
    let g = tag_close(b, e, 0);
    g < 0 || byte_at(b, g - 1, 0x2f) || value_ok(b, g + 1, TEXT, 0, 0, legacy)
}

/// At `i` a `duration` element starts (`<duration` or `<prefix:duration`; feed-rs reads
/// that of the iTunes namespace as a play time) whose text feed-rs could not read
/// without fault.
pub open spec fn duration_risk(b: Seq<u8>, i: int, legacy: bool) -> bool {
    let e = i + 9;
    &&& 0 <= i < b.len()
    &&& (b[i] == 0x3c || (b[i] == 0x3a && opens_tag_before(b, i)))
    &&& matches_at(b, i + 1, duration_name())
    &&& !(e < b.len() && is_name_byte(b[e]))
    &&& !element_value_ok(b, e, legacy)
}

/// At `i` an attribute `name` (after white space or a namespace prefix) is given a
/// value that feed-rs could not read as a play time without fault, whether it reads the
/// value with its references resolved or, where resolving fails, as written; or a value
/// that is not quoted.
pub open spec fn attr_risk(b: Seq<u8>, i: int, name: Seq<u8>, legacy: bool) -> bool {
    let e = skip_space(b, i + name.len());
    let q = skip_space(b, e + 1);
    &&& matches_at(b, i, name)
    &&& i > 0 && (is_xml_space(b[i - 1]) || b[i - 1] == 0x3a)
    &&& e < b.len() && b[e] == 0x3d
    &&& !(q < b.len() && (b[q] == 0x22 || b[q] == 0x27) && value_ok(b, q + 1, RAW, b[q], 0, legacy)
        && value_ok(b, q + 1, RESOLVED, b[q], 0, legacy))
}

/// Whether a `duration` element starts at `i` whose text feed-rs could not read as a
/// play time without fault.
pub fn duration_risk_check(b: &[u8], i: usize, legacy: bool) -> (r: bool)
    requires
        i < b@.len(),
    ensures
        r == duration_risk(b@, i as int, legacy),
{
    let name: Vec<u8> = vec![0x64, 0x75, 0x72, 0x61, 0x74, 0x69, 0x6f, 0x6e];
    assert(name@ =~= duration_name());
    let c = b[i];
    if !(c == 0x3c || (c == 0x3a && is_tag_opening_before(b, i))) {
        return false;
    }
    if !has_at(b, i + 1, name.as_slice()) {
        return false;
    }
    let e = i + 9;
    if e < b.len() && name_byte(b[e]) {
        return false;
    }
    let ok = match tag_close_from(b, e) {
        None => true,
        Some(g) => (g > 0 && b[g - 1] == 0x2f) || value_check(b, g + 1, TEXT, 0, legacy),
    };
    !ok
}

/// Whether an attribute `name` at `i` is given a value that feed-rs could not read as a
/// play time without fault (see [`attr_risk`]).
pub fn attr_risk_check(b: &[u8], i: usize, name: &[u8], legacy: bool) -> (r: bool)
    requires
        i < b@.len(),
        name@.len() <= 5,
    ensures
        r == attr_risk(b@, i as int, name@, legacy),
{
    if !has_at(b, i, name) {
        return false;
    }
    if !(i > 0 && (b[i - 1] == 0x20 || b[i - 1] == 0x09 || b[i - 1] == 0x0d || b[i - 1] == 0x0a
        || b[i - 1] == 0x3a)) {
        return false;
    }
    let e = skip_space_from(b, i + name.len());
    if !(e < b.len() && b[e] == 0x3d) {
        return false;
    }
    let q = skip_space_from(b, e + 1);
    !(q < b.len() && (b[q] == 0x22 || b[q] == 0x27) && value_check(b, q + 1, RAW, b[q], legacy)
        && value_check(b, q + 1, RESOLVED, b[q], legacy))
}

/// The bytes of `encoding`.
pub open spec fn encoding_name() -> Seq<u8> {
    seq![0x65u8, 0x6e, 0x63, 0x6f, 0x64, 0x69, 0x6e, 0x67]
}

/// At `q` a quoted `utf-8` or `utf8`, in any case, is written.
pub open spec fn utf8_label_at(b: Seq<u8>, q: int) -> bool {
    &&& 0 <= q < b.len()
    &&& (b[q] == 0x22 || b[q] == 0x27)
    &&& q + 3 < b.len()
    &&& ascii_lower(b[q + 1]) == 0x75 && ascii_lower(b[q + 2]) == 0x74 && ascii_lower(b[q + 3]) == 0x66
    &&& ((byte_at(b, q + 4, 0x2d) && byte_at(b, q + 5, 0x38) && byte_at(b, q + 6, b[q])) || (byte_at(
        b,
        q + 4,
        0x38,
    ) && byte_at(b, q + 5, b[q])))
}

/// The `encoding` at `i` is set to UTF-8.
pub open spec fn declares_utf8_at(b: Seq<u8>, i: int) -> bool {
    let e = skip_space(b, i + 8);
    byte_at(b, e, 0x3d) && utf8_label_at(b, skip_space(b, e + 1))
}

/// Somewhere the body names an encoding that is not UTF-8 (or names one in a form not
/// read here). quick-xml takes the encoding from an XML declaration, which may stand
/// wherever a processing instruction may; any `encoding` counts here.
pub open spec fn legacy_encoding(b: Seq<u8>) -> bool {
    exists|i: int| 0 <= i < b.len() && #[trigger] matches_at(b, i, encoding_name()) && !declares_utf8_at(b, i)
}

fn utf8_label_check(b: &[u8], q: usize) -> (r: bool)
    ensures
        r == utf8_label_at(b@, q as int),
{
    if !(q < b.len() && (b[q] == 0x22 || b[q] == 0x27) && 3 < b.len() - q) {
        return false;
    }
    let l1: u8 = if 0x41 <= b[q + 1] && b[q + 1] <= 0x5a { b[q + 1] + 0x20 } else { b[q + 1] };
    let l2: u8 = if 0x41 <= b[q + 2] && b[q + 2] <= 0x5a { b[q + 2] + 0x20 } else { b[q + 2] };
    let l3: u8 = if 0x41 <= b[q + 3] && b[q + 3] <= 0x5a { b[q + 3] + 0x20 } else { b[q + 3] };
    if !(l1 == 0x75 && l2 == 0x74 && l3 == 0x66) {
        return false;
    }
    let quote = b[q];
    (byte_is(b, q, 4, 0x2d) && byte_is(b, q, 5, 0x38) && byte_is(b, q, 6, quote)) || (byte_is(b, q, 4, 0x38)
        && byte_is(b, q, 5, quote))
}

/// Whether the body names an encoding other than UTF-8 (see [`legacy_encoding`]).
pub fn legacy_encoding_check(b: &[u8]) -> (r: bool)
    ensures
        r == legacy_encoding(b@),
{
    let enc: Vec<u8> = vec![0x65, 0x6e, 0x63, 0x6f, 0x64, 0x69, 0x6e, 0x67];
    assert(enc@ =~= encoding_name());
    let mut i: usize = 0;
    while i < b.len()
        invariant
            i <= b@.len(),
            enc@ == encoding_name(),
            forall|k: int| 0 <= k < i ==> !(#[trigger] matches_at(b@, k, encoding_name()) && !declares_utf8_at(b@, k)),
        decreases b.len() - i,
    {
        if has_at(b, i, enc.as_slice()) {
            let e = skip_space_from(b, i + 8);
            let declared = byte_is(b, e, 0, 0x3d) && utf8_label_check(b, skip_space_from(b, e + 1));
            if !declared {
                assert(matches_at(b@, i as int, encoding_name()) && !declares_utf8_at(b@, i as int));
                return true;
            }
        }
        i = i + 1;
    }
    false
}

} // verus!
