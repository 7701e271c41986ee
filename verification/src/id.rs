//! Sequence identifiers: sixteen bytes read as a big-endian number, written
//! as fixed-width decimal text whose byte order is the numeric order.

use vstd::prelude::*;
use vstd::string::StringSliceAdditionalSpecFns;
use crate::errors::{Error, Result};
use crate::number::{
    be_value,
    gap,
    id_limit,
    lemma_be_value_bound,
    lemma_be_value_push,
    lemma_carry,
    lemma_pow256_16,
    lemma_pow256_mono,
    lemma_pow256_step,
    lemma_succ_n,
    lemma_value_order,
    lemma_wrap,
    lemma_zero_value,
    lex_lt,
    succ,
    succ_n,
};
use crate::text::{
    IdView,
    default_bytes,
    digits,
    encode,
    group_value,
    invalid_id,
    is_digit,
    lemma_parse_encode,
    lemma_text_order,
    parse_text,
    undigits,
};

verus! {

/// Number of bytes in an identifier.
pub const IDENTIFIER_SIZE: usize = 16;

/// A monotonic identifier. `id` is the number, most significant byte first;
/// `valid` is false on an identifier that stands for text that did not parse.
#[derive(Clone, Copy, Debug, Hash, PartialEq, Eq)]
pub struct StreamID {
    pub id: [u8; IDENTIFIER_SIZE],
    pub valid: bool,
}

impl Default for StreamID {
    /// The identifier that a fresh sequence starts at: number 1.
    fn default() -> (r: StreamID)
        ensures
            r.valid,
            r.num() == 1,
            r.id@ == default_bytes(),
    {
        let mut id = [0u8; IDENTIFIER_SIZE];
        id[IDENTIFIER_SIZE - 1] = 1;
        proof {
            lemma_carry(Seq::new(16, |i: int| 0u8), id@, 15);
            lemma_zero_value(Seq::new(16, |i: int| 0u8));
            assert(id@ =~= default_bytes());
        }
        StreamID { id, valid: true }
    }
}

impl View for StreamID {
    type V = IdView;

    open spec fn view(&self) -> IdView {
        IdView { bytes: self.id@, valid: self.valid }
    }
}

/// The prefix of an identifier written on its own: `stream-`.
pub open spec fn stream_prefix() -> Seq<u8> {
    seq![115u8, 116u8, 114u8, 101u8, 97u8, 109u8, 45u8]
}

/// A byte string read as one character for each byte.
pub open spec fn chars_of(bytes: Seq<u8>) -> Seq<char> {
    Seq::new(bytes.len(), |i: int| bytes[i] as char)
}

/// The text `0` to `9` of one decimal digit.
fn digit_str(d: u8) -> (r: &'static str)
    requires
        d < 10,
    ensures
        r@ == seq![(48 + d) as u8 as char],
{
    proof {
        reveal_strlit("0");
        reveal_strlit("1");
        reveal_strlit("2");
        reveal_strlit("3");
        reveal_strlit("4");
        reveal_strlit("5");
        reveal_strlit("6");
        reveal_strlit("7");
        reveal_strlit("8");
        reveal_strlit("9");
    }
    let r = if d == 0 {
        "0"
    } else if d == 1 {
        "1"
    } else if d == 2 {
        "2"
    } else if d == 3 {
        "3"
    } else if d == 4 {
        "4"
    } else if d == 5 {
        "5"
    } else if d == 6 {
        "6"
    } else if d == 7 {
        "7"
    } else if d == 8 {
        "8"
    } else {
        "9"
    };
    assert(r@ =~= seq![(48 + d) as u8 as char]);
    r
}

/// The bytes of `stream-`.
fn stream_prefix_bytes() -> (r: Vec<u8>)
    ensures
        r@ == stream_prefix(),
{
    let r: Vec<u8> = vec![115u8, 116u8, 114u8, 101u8, 97u8, 109u8, 45u8];
    assert(r@ =~= stream_prefix());
    r
}

impl StreamID {
    /// The number this identifier denotes.
    pub open spec fn num(&self) -> nat {
        be_value(self.id@)
    }

    /// The text of this identifier written on its own: `stream-` and 48
    /// decimal digits, as bytes.
    pub open spec fn text(&self) -> Seq<u8> {
        encode(stream_prefix(), self.id@)
    }

    /// The identifier that stands for text that did not parse.
    fn invalid() -> (r: StreamID)
        ensures
            r@ == invalid_id(),
    {
        let mut id = [0u8; IDENTIFIER_SIZE];
        id[IDENTIFIER_SIZE - 1] = 1;
        assert(id@ =~= default_bytes());
        StreamID { id, valid: false }
    }

    /// Writes this identifier under `prefix`: the prefix, then three decimal
    /// digits for each byte of the number.
    pub fn to_key(&self, prefix: &[u8]) -> (r: Vec<u8>)
        ensures
            r@ == encode(prefix@, self.id@),
    {
        let mut out: Vec<u8> = Vec::new();
        let mut k: usize = 0;
        while k < prefix.len()
            invariant
                k <= prefix@.len(),
                out@ == prefix@.take(k as int),
            decreases prefix@.len() - k,
        {
            out.push(prefix[k]);
            k += 1;
            assert(out@ =~= prefix@.take(k as int));
        }
        assert(prefix@.take(k as int) =~= prefix@);
        let mut j: usize = 0;
        while j < IDENTIFIER_SIZE
            invariant
                j <= 16,
                self.id@.len() == 16,
                out@ == prefix@ + digits(self.id@.take(j as int)),
            decreases 16 - j,
        {
            let b: u8 = self.id[j];
            let ghost before = out@;
            out.push(48 + b / 100);
            out.push(48 + (b / 10) % 10);
            out.push(48 + b % 10);
            j += 1;
            proof {
                let done = self.id@.take(j as int);
                let prev = self.id@.take(j - 1);
                assert(out@.len() == (prefix@ + digits(done)).len());
                assert forall|m: int| 0 <= m < out@.len() implies out@[m] == (prefix@ + digits(
                    done,
                ))[m] by {
                    let n = prefix@.len() as int;
                    if m < n + 3 * (j - 1) {
                        assert(out@[m] == before[m]);
                        if m >= n {
                            assert(digits(prev)[m - n] == crate::text::digit_of(prev[(m - n) / 3], (m - n) % 3));
                        }
                    } else {
                        assert((m - n) / 3 == j - 1);
                    }
                }
                assert(out@ =~= prefix@ + digits(done));
            }
        }
        assert(self.id@.take(16) =~= self.id@);
        out
    }

    /// Reads an identifier written under `prefix`. Text that is not the
    /// prefix followed by 48 well-formed digits gives the invalid identifier.
    pub fn from_key(prefix: &[u8], key: &[u8]) -> (r: StreamID)
        ensures
            r@ == parse_text(prefix@, key@),
    {
        let plen = prefix.len();
        if key.len() < plen || key.len() - plen != 3 * IDENTIFIER_SIZE {
            return Self::invalid();
        }
        let mut k: usize = 0;
        while k < plen
            invariant
                k <= plen,
                plen == prefix@.len(),
                key@.len() == plen + 48,
                forall|j: int| 0 <= j < k ==> key@[j] == prefix@[j],
            decreases plen - k,
        {
            if key[k] != prefix[k] {
                proof {
                    assert(key@.take(plen as int)[k as int] != prefix@[k as int]);
                }
                return Self::invalid();
            }
            k += 1;
        }
        assert(key@.take(plen as int) =~= prefix@);
        let ghost tail = key@.skip(plen as int);
        let mut id = [0u8; IDENTIFIER_SIZE];
        let mut j: usize = 0;
        while j < IDENTIFIER_SIZE
            invariant
                j <= 16,
                plen == prefix@.len(),
                key@.len() == plen + 48,
                key.len() == plen + 48,
                tail == key@.skip(plen as int),
                id@.len() == 16,
                forall|m: int| 0 <= m < 3 * j ==> is_digit(#[trigger] tail[m]),
                forall|m: int| 0 <= m < j ==> #[trigger] group_value(tail, m) <= 255,
                forall|m: int| 0 <= m < j ==> #[trigger] id@[m] == group_value(tail, m) as u8,
            decreases 16 - j,
        {
            let a: u8 = key[plen + 3 * j];
            let b: u8 = key[plen + 3 * j + 1];
            let c: u8 = key[plen + 3 * j + 2];
            proof {
                assert(tail[3 * j] == a && tail[3 * j + 1] == b && tail[3 * j + 2] == c);
            }
            if a < 48 || a > 57 || b < 48 || b > 57 || c < 48 || c > 57 {
                return Self::invalid();
            }
            let v: u16 = 100 * ((a - 48) as u16) + 10 * ((b - 48) as u16) + (c - 48) as u16;
            if v > 255 {
                proof {
                    assert(group_value(tail, j as int) == v);
                }
                return Self::invalid();
            }
            id[j] = v as u8;
            proof {
                assert(group_value(tail, j as int) == v);
                assert forall|m: int| 0 <= m < 3 * (j + 1) implies is_digit(
                    #[trigger] tail[m],
                ) by {
                    if m >= 3 * j {
                        assert(m == 3 * j || m == 3 * j + 1 || m == 3 * j + 2);
                    }
                }
            }
            j += 1;
        }
        assert(id@ =~= undigits(tail));
        StreamID { id, valid: true }
    }

    /// The text of this identifier: `stream-` followed by 48 decimal digits.
    pub fn to_string(&self) -> (r: String)
        ensures
            r@ == chars_of(self.text()),
            r.is_ascii(),
    {
        let bytes = self.to_key(stream_prefix_bytes().as_slice());
        let mut out = String::from_str("stream-");
        proof {
            reveal_strlit("stream-");
            assert(out@ =~= chars_of(self.text().take(7)));
        }
        let mut k: usize = 7;
        while k < bytes.len()
            invariant
                7 <= k <= bytes@.len(),
                bytes@ == self.text(),
                bytes@.len() == 55,
                self.id@.len() == 16,
                out@ == chars_of(self.text().take(k as int)),
            decreases bytes@.len() - k,
        {
            let d: u8 = bytes[k];
            proof {
                assert(d == digits(self.id@)[k - 7]);
            }
            out.append(digit_str(d - 48));
            k += 1;
            proof {
                assert(out@ =~= chars_of(self.text().take(k as int)));
            }
        }
        proof {
            assert(self.text().take(k as int) =~= self.text());
            assert forall|i: int| 0 <= i < out@.len() implies (out@[i] as u32) < 128 by {
                if i >= 7 {
                    assert(self.text()[i] == digits(self.id@)[i - 7]);
                }
            }
        }
        out
    }

    /// The text of this identifier as bytes.
    pub fn to_bytes(&self) -> (r: Vec<u8>)
        ensures
            r@ == self.text(),
    {
        self.to_key(stream_prefix_bytes().as_slice())
    }

    /// Reads an identifier from its text. Text that is not `stream-`
    /// followed by 48 well-formed digits gives the invalid identifier.
    pub fn from(key: &str) -> (r: StreamID)
        ensures
            r@ == parse_text(stream_prefix(), key.spec_bytes()),
    {
        Self::from_key(stream_prefix_bytes().as_slice(), key.as_bytes())
    }

    /// The identifier reserved for metadata: number 0.
    pub fn metadata() -> (r: StreamID)
        ensures
            r.valid,
            r.num() == 0,
            r.id@ == Seq::new(16, |i: int| 0u8),
    {
        let id = [0u8; IDENTIFIER_SIZE];
        proof {
            lemma_zero_value(id@);
        }
        StreamID { id, valid: true }
    }

    /// The sixteen bytes of the number, most significant first.
    pub fn raw_value(&self) -> (r: &[u8])
        ensures
            r@ == self.id@,
    {
        vstd::array::array_as_slice(&self.id)
    }

    /// The sixteen bytes of the number, in a vector of their own.
    pub fn to_vec(&self) -> (r: Vec<u8>)
        ensures
            r@ == self.id@,
    {
        vstd::slice::slice_to_vec(vstd::array::array_as_slice(&self.id))
    }

    /// Reads an identifier from the bytes of its text; see `from`.
    pub fn from_bytes(key: &[u8]) -> (r: StreamID)
        ensures
            r@ == parse_text(stream_prefix(), key@),
    {
        Self::from_key(stream_prefix_bytes().as_slice(), key)
    }

    /// This identifier where it is valid, and `InvalidSeqId` where it
    /// stands for text that did not parse.
    pub fn check(&self) -> (r: Result<StreamID>)
        ensures
            self.valid ==> r == Ok::<StreamID, Error>(*self),
            !self.valid ==> r == Err::<StreamID, Error>(Error::InvalidSeqId),
    {
        if self.valid {
            Ok(*self)
        } else {
            Err(Error::InvalidSeqId)
        }
    }

    /// The identifier that follows this one. The number goes up by one and
    /// starts again at 0 after the largest; the result is always valid.
    pub fn next(&self) -> (r: StreamID)
        ensures
            r.valid,
            r.num() == succ(self.num()),
    {
        let mut next_id = self.id;
        let mut i: usize = IDENTIFIER_SIZE;
        let mut carry = true;
        while carry && i > 0
            invariant
                i <= 16,
                next_id@.len() == 16,
                self.id@.len() == 16,
                forall|j: int| 0 <= j < i ==> next_id@[j] == self.id@[j],
                !carry ==> i < 16 && self.id@[i as int] < 255 && next_id@[i as int]
                    == self.id@[i as int] + 1,
                forall|j: int| (if carry { i as int } else { i + 1 }) <= j < 16 ==> self.id@[j] == 255,
                forall|j: int| (if carry { i as int } else { i + 1 }) <= j < 16 ==> next_id@[j] == 0,
            decreases i + if carry { 1int } else { 0int },
        {
            i -= 1;
            let byte: u8 = next_id[i];
            if byte == u8::MAX {
                next_id[i] = 0;
            } else {
                next_id[i] = byte + 1;
                carry = false;
            }
        }
        proof {
            lemma_pow256_16();
            lemma_be_value_bound(self.id@);
            if carry {
                lemma_wrap(self.id@, next_id@);
            } else {
                lemma_carry(self.id@, next_id@, i as int);
                lemma_be_value_bound(next_id@);
            }
        }
        StreamID { id: next_id, valid: true }
    }

    /// The number this identifier denotes.
    pub fn to_u128(&self) -> (r: u128)
        ensures
            r == self.num(),
    {
        let mut result: u128 = 0;
        let mut i: usize = 0;
        while i < IDENTIFIER_SIZE
            invariant
                i <= 16,
                result == be_value(self.id@.take(i as int)),
            decreases 16 - i,
        {
            proof {
                lemma_be_value_bound(self.id@.take(i as int));
                lemma_pow256_mono(i as nat, 15);
                lemma_pow256_step(15);
                lemma_pow256_16();
                assert(self.id@.take(i + 1) =~= self.id@.take(i as int).push(self.id@[i as int]));
                lemma_be_value_push(self.id@.take(i as int), self.id@[i as int]);
            }
            result = result * 256 + self.id[i] as u128;
            i += 1;
        }
        proof {
            assert(self.id@.take(16) =~= self.id@);
        }
        result
    }

    /// How many identifiers lie between `other` and this one: the difference
    /// of the two numbers where this one is the larger, and 0 otherwise.
    pub fn distance(&self, other: &StreamID) -> (r: u128)
        ensures
            r == gap(self.num(), other.num()),
    {
        let lhs = self.to_u128();
        let rhs = other.to_u128();
        if lhs < rhs {
            return 0;
        }
        lhs - rhs
    }
}

/// An ASCII byte string is the UTF-8 form of its characters.
pub proof fn lemma_ascii_bytes(bytes: Seq<u8>)
    requires
        forall|i: int| 0 <= i < bytes.len() ==> bytes[i] < 128,
    ensures
        vstd::utf8::encode_utf8(chars_of(bytes)) == bytes,
{
    let chars = chars_of(bytes);
    assert(vstd::utf8::is_ascii_chars(chars));
    vstd::utf8::is_ascii_chars_encode_utf8(chars);
    assert(vstd::utf8::encode_utf8(chars) =~= bytes);
}

/// The text of an identifier is ASCII.
pub proof fn lemma_text_ascii(x: StreamID)
    ensures
        forall|i: int| 0 <= i < x.text().len() ==> x.text()[i] < 128,
{
    assert forall|i: int| 0 <= i < x.text().len() implies x.text()[i] < 128 by {
        if i >= 7 {
            assert(x.text()[i] == digits(x.id@)[i - 7]);
        }
    }
}

/// Parsing the text of a valid identifier gives that identifier back, for
/// the text as a string and for the text under any prefix.
pub proof fn law_parse_to_string(x: StreamID, prefix: Seq<u8>)
    requires
        x.valid,
    ensures
        parse_text(stream_prefix(), vstd::utf8::encode_utf8(chars_of(x.text()))) == x@,
        parse_text(prefix, encode(prefix, x.id@)) == x@,
{
    lemma_text_ascii(x);
    lemma_ascii_bytes(x.text());
    lemma_parse_encode(stream_prefix(), x.id@);
    lemma_parse_encode(prefix, x.id@);
}

/// The successor of an identifier sorts strictly after it, as text on its
/// own and as text under any prefix. The largest identifier is left out: its
/// successor starts again at 0.
pub proof fn law_next_sorts_after(x: StreamID, y: StreamID, prefix: Seq<u8>)
    requires
        y.num() == succ(x.num()),
        x.num() + 1 < id_limit(),
    ensures
        lex_lt(x.text(), y.text()),
        lex_lt(encode(prefix, x.id@), encode(prefix, y.id@)),
{
    lemma_text_order(stream_prefix(), x.id@, y.id@);
    lemma_text_order(prefix, x.id@, y.id@);
}

/// Two identifiers sort as text, on their own or under one prefix, exactly
/// as their numbers do.
pub proof fn law_text_order_is_numeric(x: StreamID, y: StreamID, prefix: Seq<u8>)
    ensures
        x.num() < y.num() <==> lex_lt(x.text(), y.text()),
        x.num() < y.num() <==> lex_lt(encode(prefix, x.id@), encode(prefix, y.id@)),
        x.num() == y.num() <==> x.id@ == y.id@,
{
    lemma_text_order(stream_prefix(), x.id@, y.id@);
    lemma_text_order(prefix, x.id@, y.id@);
    lemma_value_order(x.id@, y.id@);
}

/// An identifier reached from another by `k` steps of `next` lies at
/// distance `k` from it, and the other at distance 0 from it where `k` is
/// not 0. Steps that pass the largest identifier are left out: they start
/// again at 0.
pub proof fn law_distance_counts_steps(x: StreamID, y: StreamID, k: nat)
    requires
        y.num() == succ_n(x.num(), k),
        x.num() + k < id_limit(),
    ensures
        gap(y.num(), x.num()) == k,
        k > 0 ==> gap(x.num(), y.num()) == 0,
{
    lemma_succ_n(x.num(), k);
}

} // verus!
