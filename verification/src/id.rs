//! Ids: trees and tasks are named by UUIDs, held here as the 128-bit value
//! the `uuid` crate reads them into, most significant byte first.
use vstd::prelude::*;
use vstd::utf8::{encode_utf8, is_ascii_chars, is_ascii_chars_encode_utf8};
use crate::text::is_space;

verus! {

/// The lowercase hexadecimal digit of the low four bits' value `n` (a value
/// above fifteen is written as `f`).
pub open spec fn hex_digit(n: u128) -> char {
    if n == 0 { '0' } else if n == 1 { '1' } else if n == 2 { '2' } else if n == 3 { '3' }
    else if n == 4 { '4' } else if n == 5 { '5' } else if n == 6 { '6' } else if n == 7 { '7' }
    else if n == 8 { '8' } else if n == 9 { '9' } else if n == 10 { 'a' } else if n == 11 { 'b' }
    else if n == 12 { 'c' } else if n == 13 { 'd' } else if n == 14 { 'e' } else { 'f' }
}

/// The `k`th of the 32 four-bit digits of `id`, counting from the most significant.
pub open spec fn nibble(id: u128, k: int) -> u128 {
    (id >> ((124 - 4 * k) as u128)) & 15
}

/// Whether position `p` of a hyphenated id holds a hyphen.
pub open spec fn is_hyphen_position(p: int) -> bool {
    p == 8 || p == 13 || p == 18 || p == 23
}

/// How many hyphens stand before position `p` of a hyphenated id.
pub open spec fn hyphens_before(p: int) -> int {
    if p < 9 { 0 } else if p < 14 { 1 } else if p < 19 { 2 } else if p < 24 { 3 } else { 4 }
}

/// The hyphenated form of `id`: 32 lowercase hexadecimal digits grouped
/// 8-4-4-4-12, as in `67e55044-10b1-426f-9247-bb680e5fe0c8`.
pub open spec fn hyphenated(id: u128) -> Seq<char> {
    Seq::new(
        36,
        |p: int|
            if is_hyphen_position(p) {
                '-'
            } else {
                hex_digit(nibble(id, p - hyphens_before(p)))
            },
    )
}

/// The hyphenated form of an id holds only hexadecimal digits and hyphens:
/// no whitespace, no line ending, nothing but ASCII.
pub proof fn lemma_hyphenated_plain(id: u128)
    ensures
        hyphenated(id).len() == 36,
        forall|p: int| 0 <= p < 36 ==> !is_space(#[trigger] hyphenated(id)[p]),
        forall|p: int| 0 <= p < 36 ==> #[trigger] hyphenated(id)[p] != '\n',
        forall|p: int| 0 <= p < 36 ==> #[trigger] hyphenated(id)[p] != '\r',
        forall|p: int| 0 <= p < 36 ==> '\0' <= #[trigger] hyphenated(id)[p] <= '\u{7f}',
{
}

/// The value of the ASCII hexadecimal digit `c`, in either case.
pub open spec fn hex_value(c: u8) -> Option<int> {
    if 48 <= c <= 57 {
        Some(c - 48)
    } else if 97 <= c <= 102 {
        Some(c - 87)
    } else if 65 <= c <= 70 {
        Some(c - 55)
    } else {
        None
    }
}

/// Where the `k`th of the 32 digits of a hyphenated id stands.
pub open spec fn digit_position(k: int) -> int {
    if k < 8 { k } else if k < 12 { k + 1 } else if k < 16 { k + 2 } else if k < 20 { k + 3 } else { k + 4 }
}

/// The value of the first `n` of the digits `d`, most significant first, if
/// each is a hexadecimal digit.
pub open spec fn hex_run(d: Seq<u8>, n: int) -> Option<int>
    decreases n,
{
    if n <= 0 {
        Some(0)
    } else {
        match (hex_run(d, n - 1), hex_value(d[n - 1])) {
            (Some(v), Some(x)) => Some(v * 16 + x),
            _ => None,
        }
    }
}

/// The id 32 hexadecimal digits of either case spell, most significant first.
pub open spec fn hex_id(d: Seq<u8>) -> Option<u128> {
    match hex_run(d, 32) {
        Some(v) => Some(v as u128),
        None => None,
    }
}

/// The 32 digits of a hyphenated id, its hyphens left out.
pub open spec fn hyphenated_digits(b: Seq<u8>) -> Seq<u8> {
    Seq::new(32, |k: int| b[digit_position(k)])
}

/// The id 36 bytes spell in the hyphenated form: hyphens at 8, 13, 18 and 23,
/// and 32 hexadecimal digits of either case, most significant first.
pub open spec fn hyphenated_value(b: Seq<u8>) -> Option<u128> {
    if b[8] == 45 && b[13] == 45 && b[18] == 45 && b[23] == 45 {
        hex_id(hyphenated_digits(b))
    } else {
        None
    }
}

/// `c` in lowercase, when it is an ASCII capital.
pub open spec fn ascii_lower(c: u8) -> u8 {
    if 65 <= c <= 90 {
        (c + 32) as u8
    } else {
        c
    }
}

/// Whether `b` starts with `urn:uuid:`, case aside.
pub open spec fn urn_prefix(b: Seq<u8>) -> bool {
    &&& ascii_lower(b[0]) == 117
    &&& ascii_lower(b[1]) == 114
    &&& ascii_lower(b[2]) == 110
    &&& b[3] == 58
    &&& ascii_lower(b[4]) == 117
    &&& ascii_lower(b[5]) == 117
    &&& ascii_lower(b[6]) == 105
    &&& ascii_lower(b[7]) == 100
    &&& b[8] == 58
}

/// The id `uuid::Uuid::try_parse_ascii` reads out of `bytes`: 32 bytes in
/// the simple form, 36 in the hyphenated form, 38 in the hyphenated form
/// between braces, 45 in the hyphenated form behind `urn:uuid:`; nothing out
/// of any other length.
pub open spec fn ascii_uuid(b: Seq<u8>) -> Option<u128> {
    if b.len() == 32 {
        hex_id(b)
    } else if b.len() == 36 {
        hyphenated_value(b)
    } else if b.len() == 38 {
        if b[0] == 123 && b[37] == 125 {
            hyphenated_value(b.subrange(1, 37))
        } else {
            None
        }
    } else if b.len() == 45 {
        if urn_prefix(b) {
            hyphenated_value(b.subrange(9, 45))
        } else {
            None
        }
    } else {
        None
    }
}

/// `uuid::Uuid::try_parse_ascii`, the id as its 128-bit value.
/// Claimed: the result is what `ascii_uuid` reads out of the bytes.
#[verifier::external_body]
pub(crate) fn parse_id(bytes: &[u8]) -> (id: Option<u128>)
    ensures
        id == ascii_uuid(bytes@),
{
    match uuid::Uuid::try_parse_ascii(bytes) {
        Ok(uuid) => Some(uuid.as_u128()),
        Err(_) => None,
    }
}

/// `uuid::Uuid::hyphenated` written out with `to_string`, on the id built by
/// `uuid::Uuid::from_u128`.
/// Claimed: the text is the lowercase hyphenated form of `id`.
#[verifier::external_body]
pub(crate) fn hyphenate(id: u128) -> (s: String)
    ensures
        s@ == hyphenated(id),
{
    uuid::Uuid::from_u128(id).hyphenated().to_string()
}

/// The hyphenated form of `id`.
pub fn hyphenated_text(id: u128) -> (s: String)
    ensures
        s@ == hyphenated(id),
{
    hyphenate(id)
}

/// The digits of `id` above its lowest `4 * (32 - n)` bits.
pub open spec fn leading_digits(id: u128, n: int) -> int {
    if n <= 0 {
        0
    } else {
        (id >> ((128 - 4 * n) as u128)) as int
    }
}

proof fn lemma_shift_step(x: u128, s: u128)
    requires
        s <= 120,
    ensures
        (x >> s) as int == ((x >> (s + 4)) as int) * 16 + ((x >> s) & 15) as int,
{
    assert((x >> s) == ((x >> (s + 4)) << 4) + ((x >> s) & 15) && (x >> (s + 4)) < 0x1000_0000_0000_0000_0000_0000_0000_0000) by (bit_vector)
        requires s <= 120;
    let y = x >> (s + 4);
    assert((y << 4) == y * 16) by (bit_vector)
        requires y < 0x1000_0000_0000_0000_0000_0000_0000_0000;
}

proof fn lemma_nibble_facts(x: u128)
    ensures
        (x >> 124u128) == (x >> 124u128) & 15,
        x >> 0u128 == x,
{
    assert((x >> 124u128) == (x >> 124u128) & 15) by (bit_vector);
    assert(x >> 0u128 == x) by (bit_vector);
}

proof fn lemma_nibble_small(x: u128, s: u128)
    ensures
        (x >> s) & 15 < 16,
{
    assert((x >> s) & 15 < 16) by (bit_vector);
}

/// The digits of the hyphenated form of `id` read back, one by one, as the
/// leading digits of `id`.
proof fn lemma_digits_read_back(id: u128, n: int)
    requires
        0 <= n <= 32,
    ensures
        hex_run(hyphenated_digits(ascii_of(hyphenated(id))), n) == Some(leading_digits(id, n)),
    decreases n,
{
    if n > 0 {
        lemma_digits_read_back(id, n - 1);
        let k = n - 1;
        let h = hyphenated(id);
        lemma_hyphenated_plain(id);
        let p = digit_position(k);
        assert(!is_hyphen_position(p));
        assert(p - hyphens_before(p) == k);
        assert(hyphenated_digits(ascii_of(h))[k] == h[p] as u8);
        let s = (124 - 4 * k) as u128;
        lemma_nibble_small(id, s);
        let d = nibble(id, k);
        assert(h[p] == hex_digit(d));
        assert(hex_value(hex_digit(d) as u8) == Some(d as int));
        if k == 0 {
            lemma_nibble_facts(id);
        } else {
            lemma_shift_step(id, s);
            assert((128 - 4 * k) as u128 == s + 4);
        }
    }
}

/// The bytes of the ASCII text `s`.
pub open spec fn ascii_of(s: Seq<char>) -> Seq<u8> {
    s.map_values(|c: char| c as u8)
}

/// The hyphenated form of an id, as bytes, reads back as the id: what a
/// store writes, a read gives back.
pub proof fn lemma_hyphenated_reads_back(id: u128)
    ensures
        ascii_uuid(encode_utf8(hyphenated(id))) == Some(id),
{
    let h = hyphenated(id);
    lemma_hyphenated_plain(id);
    assert(is_ascii_chars(h));
    is_ascii_chars_encode_utf8(h);
    let e = encode_utf8(h);
    assert(e == ascii_of(h));
    lemma_digits_read_back(id, 32);
    lemma_nibble_facts(id);
    assert(e[8] == 45 && e[13] == 45 && e[18] == 45 && e[23] == 45);
}

/// Whether `v` holds `x`.
pub fn holds(v: &Vec<u128>, x: u128) -> (b: bool)
    ensures
        b == v@.contains(x),
{
    let mut i: usize = 0;
    while i < v.len()
        invariant
            i <= v@.len(),
            forall|j: int| 0 <= j < i ==> v@[j] != x,
        decreases v.len() - i,
    {
        if v[i] == x {
            return true;
        }
        i += 1;
    }
    false
}

} // verus!
