//! The text of an identifier: a prefix and three decimal digits for each
//! byte, so that text sorts as the numbers do; and what parsing that text
//! gives.

use vstd::prelude::*;
use crate::number::{be_value, lemma_value_order, lex_lt, lex_lt_at};

verus! {

/// The decimal digit of `b` at `place` (0: hundreds, 1: tens, 2: units), as
/// an ASCII byte.
pub open spec fn digit_of(b: u8, place: int) -> u8 {
    if place == 0 {
        (48 + b / 100) as u8
    } else if place == 1 {
        (48 + (b / 10) % 10) as u8
    } else {
        (48 + b % 10) as u8
    }
}

/// The text of a byte string: three decimal digits for each byte.
pub open spec fn digits(bytes: Seq<u8>) -> Seq<u8> {
    Seq::new(3 * bytes.len(), |k: int| digit_of(bytes[k / 3], k % 3))
}

/// The text of an identifier under a prefix.
pub open spec fn encode(prefix: Seq<u8>, bytes: Seq<u8>) -> Seq<u8> {
    prefix + digits(bytes)
}

/// `c` is one of the ASCII digits `0` to `9`.
pub open spec fn is_digit(c: u8) -> bool {
    48 <= c <= 57
}

/// The number that the three digits of group `j` of `text` spell.
pub open spec fn group_value(text: Seq<u8>, j: int) -> int {
    100 * (text[3 * j] - 48) + 10 * (text[3 * j + 1] - 48) + (text[3 * j + 2] - 48)
}

/// `text` is 48 decimal digits, each group of three spelling a byte.
pub open spec fn well_formed_digits(text: Seq<u8>) -> bool {
    &&& text.len() == 48
    &&& forall|k: int| 0 <= k < 48 ==> is_digit(#[trigger] text[k])
    &&& forall|j: int| 0 <= j < 16 ==> #[trigger] group_value(text, j) <= 255
}

/// The bytes that well-formed digits spell.
pub open spec fn undigits(text: Seq<u8>) -> Seq<u8> {
    Seq::new(16, |j: int| group_value(text, j) as u8)
}

/// `text` is `prefix` followed by well-formed digits and nothing else.
pub open spec fn is_encoding(prefix: Seq<u8>, text: Seq<u8>) -> bool {
    &&& text.len() == prefix.len() + 48
    &&& text.take(prefix.len() as int) == prefix
    &&& well_formed_digits(text.skip(prefix.len() as int))
}

/// The bytes of the identifier numbered 1.
pub open spec fn default_bytes() -> Seq<u8> {
    Seq::new(16, |i: int| 0u8).update(15, 1u8)
}

/// What an identifier is to a contract: its sixteen bytes and its flag.
pub struct IdView {
    pub bytes: Seq<u8>,
    pub valid: bool,
}

/// The identifier that stands for text that did not parse.
pub open spec fn invalid_id() -> IdView {
    IdView { bytes: default_bytes(), valid: false }
}

/// What parsing `text` under `prefix` gives: the identifier spelled, or the
/// invalid identifier where `text` is not an encoding.
pub open spec fn parse_text(prefix: Seq<u8>, text: Seq<u8>) -> IdView {
    if is_encoding(prefix, text) {
        IdView { bytes: undigits(text.skip(prefix.len() as int)), valid: true }
    } else {
        invalid_id()
    }
}

/// Three digits spell the byte they were written from.
pub proof fn lemma_digits_well_formed(bytes: Seq<u8>)
    requires
        bytes.len() == 16,
    ensures
        well_formed_digits(digits(bytes)),
        undigits(digits(bytes)) == bytes,
{
    let text = digits(bytes);
    assert forall|j: int| 0 <= j < 16 implies #[trigger] group_value(text, j) == bytes[j] by {
        assert(text[3 * j] == digit_of(bytes[j], 0));
        assert(text[3 * j + 1] == digit_of(bytes[j], 1));
        assert(text[3 * j + 2] == digit_of(bytes[j], 2));
    }
    assert(undigits(text) =~= bytes);
}

/// Writing an identifier and parsing the text gives the identifier back.
pub proof fn lemma_parse_encode(prefix: Seq<u8>, bytes: Seq<u8>)
    requires
        bytes.len() == 16,
    ensures
        is_encoding(prefix, encode(prefix, bytes)),
        parse_text(prefix, encode(prefix, bytes)) == (IdView { bytes, valid: true }),
{
    lemma_digits_well_formed(bytes);
    let text = encode(prefix, bytes);
    assert(text.take(prefix.len() as int) =~= prefix);
    assert(text.skip(prefix.len() as int) =~= digits(bytes));
}

/// Three digits that spell a byte are the digits of that byte.
proof fn lemma_group(a: u8, b: u8, c: u8)
    requires
        is_digit(a),
        is_digit(b),
        is_digit(c),
        100 * (a - 48) + 10 * (b - 48) + (c - 48) <= 255,
    ensures
        digit_of((100 * (a - 48) + 10 * (b - 48) + (c - 48)) as u8, 0) == a,
        digit_of((100 * (a - 48) + 10 * (b - 48) + (c - 48)) as u8, 1) == b,
        digit_of((100 * (a - 48) + 10 * (b - 48) + (c - 48)) as u8, 2) == c,
{
}

/// In well-formed digits each digit is the one its group's byte is written
/// with.
proof fn lemma_digit_back(tail: Seq<u8>, k: int)
    requires
        well_formed_digits(tail),
        0 <= k < 48,
    ensures
        digit_of(group_value(tail, k / 3) as u8, k % 3) == tail[k],
{
    let j = k / 3;
    assert(group_value(tail, j) <= 255);
    assert(is_digit(tail[3 * j]) && is_digit(tail[3 * j + 1]) && is_digit(tail[3 * j + 2]));
    lemma_group(tail[3 * j], tail[3 * j + 1], tail[3 * j + 2]);
}

/// Well-formed digits are the digits of the bytes they spell.
pub proof fn lemma_digits_undigits(tail: Seq<u8>)
    requires
        well_formed_digits(tail),
    ensures
        digits(undigits(tail)) == tail,
{
    let bytes = undigits(tail);
    assert(bytes.len() == 16);
    assert(digits(bytes).len() == 48);
    assert forall|k: int| 0 <= k < 48 implies #[trigger] digits(bytes)[k] == tail[k] by {
        lemma_digit_back(tail, k);
        assert(0 <= k / 3 < 16);
        assert(bytes[k / 3] == group_value(tail, k / 3) as u8);
    }
    assert(digits(bytes) =~= tail);
}

/// A string is what stands before a position followed by what stands
/// from it on.
proof fn lemma_take_skip(text: Seq<u8>, n: int)
    requires
        0 <= n <= text.len(),
    ensures
        text.take(n) + text.skip(n) == text,
{
    assert(text.take(n) + text.skip(n) =~= text);
}

/// Parsing accepts nothing but what writing produces.
pub proof fn lemma_encode_parse(prefix: Seq<u8>, text: Seq<u8>)
    requires
        is_encoding(prefix, text),
    ensures
        encode(prefix, parse_text(prefix, text).bytes) == text,
{
    let n = prefix.len() as int;
    let tail = text.skip(n);
    let bytes = parse_text(prefix, text).bytes;
    assert(bytes == undigits(tail));
    assert(well_formed_digits(tail));
    assert(text.take(n) == prefix);
    lemma_digits_undigits(tail);
    lemma_take_skip(text, n);
    assert(encode(prefix, bytes) == prefix + tail);
}

/// A smaller byte has the smaller digits: its three digits differ from the
/// other's at some place, and hold the smaller digit at the first such place.
proof fn lemma_byte_digits(x: u8, y: u8) -> (place: int)
    requires
        x < y,
    ensures
        0 <= place < 3,
        forall|q: int| 0 <= q < place ==> digit_of(x, q) == digit_of(y, q),
        digit_of(x, place) < digit_of(y, place),
{
    if x / 100 < y / 100 {
        0
    } else if (x / 10) % 10 < (y / 10) % 10 {
        1
    } else {
        2
    }
}

/// The digits of the smaller of two byte strings sort before the digits of
/// the other.
proof fn lemma_digits_order_forward(a: Seq<u8>, b: Seq<u8>)
    requires
        a.len() == b.len(),
        lex_lt(a, b),
    ensures
        lex_lt(digits(a), digits(b)),
{
    let k = choose|k: int| lex_lt_at(a, b, k);
    let place = lemma_byte_digits(a[k], b[k]);
    let da = digits(a);
    let db = digits(b);
    let w = 3 * k + place;
    assert forall|j: int| 0 <= j < w implies da[j] == db[j] by {
        if j / 3 < k {
            assert(a[j / 3] == b[j / 3]);
        } else {
            assert(j / 3 == k);
            assert(j % 3 < place);
        }
    }
    assert(w / 3 == k && w % 3 == place);
    assert(lex_lt_at(da, db, w));
}

/// Writing bytes as digits keeps their order.
pub proof fn lemma_digits_order(a: Seq<u8>, b: Seq<u8>)
    requires
        a.len() == b.len(),
    ensures
        lex_lt(a, b) <==> lex_lt(digits(a), digits(b)),
{
    if lex_lt(a, b) {
        lemma_digits_order_forward(a, b);
    }
    if lex_lt(digits(a), digits(b)) && !lex_lt(a, b) {
        lemma_value_order(a, b);
        lemma_value_order(b, a);
        lemma_value_order(digits(a), digits(b));
        lemma_value_order(digits(b), digits(a));
        if a != b {
            lemma_digits_order_forward(b, a);
        }
    }
}

/// A common prefix does not change the order of two strings.
pub proof fn lemma_prefix_order(prefix: Seq<u8>, s: Seq<u8>, t: Seq<u8>)
    ensures
        lex_lt(prefix + s, prefix + t) <==> lex_lt(s, t),
{
    let n = prefix.len() as int;
    if lex_lt(prefix + s, prefix + t) {
        let k = choose|k: int| lex_lt_at(prefix + s, prefix + t, k);
        if k < n {
            assert((prefix + s)[k] == prefix[k]);
            assert((prefix + t)[k] == prefix[k]);
        }
        assert forall|j: int| 0 <= j < k - n implies s[j] == t[j] by {
            assert((prefix + s)[j + n] == s[j]);
            assert((prefix + t)[j + n] == t[j]);
        }
        if k < (prefix + s).len() {
            assert((prefix + s)[k] == s[k - n]);
            assert((prefix + t)[k] == t[k - n]);
        }
        assert(lex_lt_at(s, t, k - n));
    }
    if lex_lt(s, t) {
        let k = choose|k: int| lex_lt_at(s, t, k);
        assert forall|j: int| 0 <= j < k + n implies (prefix + s)[j] == (prefix + t)[j] by {
            if j >= n {
                assert(s[j - n] == t[j - n]);
            }
        }
        assert(lex_lt_at(prefix + s, prefix + t, k + n));
    }
}

/// Under one prefix the text of identifiers sorts as their numbers do.
pub proof fn lemma_text_order(prefix: Seq<u8>, a: Seq<u8>, b: Seq<u8>)
    requires
        a.len() == b.len(),
    ensures
        be_value(a) < be_value(b) <==> lex_lt(encode(prefix, a), encode(prefix, b)),
{
    lemma_value_order(a, b);
    lemma_digits_order(a, b);
    lemma_prefix_order(prefix, digits(a), digits(b));
}

} // verus!
