//! Numbers as strings of bytes, most significant byte first: their value,
//! their successor, and why their order is the order of the bytes.

use vstd::prelude::*;

verus! {

/// `256^n`.
pub open spec fn pow256(n: nat) -> nat
    decreases n,
{
    if n == 0 {
        1
    } else {
        256 * pow256((n - 1) as nat)
    }
}

/// One more than the largest number an identifier can hold: `2^128`.
pub open spec fn id_limit() -> nat {
    (u128::MAX + 1) as nat
}

/// The number that a byte string denotes, most significant byte first.
pub open spec fn be_value(bytes: Seq<u8>) -> nat
    decreases bytes.len(),
{
    if bytes.len() == 0 {
        0
    } else {
        be_value(bytes.drop_last()) * 256 + bytes.last() as nat
    }
}

/// The `width` bytes that denote `n`, most significant first.
pub open spec fn be_bytes(n: nat, width: nat) -> Seq<u8>
    decreases width,
{
    if width == 0 {
        Seq::empty()
    } else {
        be_bytes(n / 256, (width - 1) as nat).push((n % 256) as u8)
    }
}

/// The sixteen bytes of the identifier numbered `n`.
pub open spec fn id_bytes(n: nat) -> Seq<u8> {
    be_bytes(n, 16)
}

/// The successor of `n` among the numbers below `2^128`, wrapping to 0.
pub open spec fn succ(n: nat) -> nat {
    if n + 1 >= id_limit() {
        0
    } else {
        n + 1
    }
}

/// `n` steps of `succ` from `start`.
pub open spec fn succ_n(start: nat, n: nat) -> nat
    decreases n,
{
    if n == 0 {
        start
    } else {
        succ(succ_n(start, (n - 1) as nat))
    }
}

/// How far `x` lies above `y`, and 0 where it does not.
pub open spec fn gap(x: nat, y: nat) -> nat {
    if x >= y {
        (x - y) as nat
    } else {
        0
    }
}

/// Bytewise lexicographic order, witnessed at position `k`: the two strings
/// agree before `k`, and there either `a` ends and `b` goes on, or `a` holds
/// the smaller byte.
pub open spec fn lex_lt_at(a: Seq<u8>, b: Seq<u8>, k: int) -> bool {
    &&& 0 <= k <= a.len()
    &&& k < b.len()
    &&& forall|j: int| 0 <= j < k ==> a[j] == b[j]
    &&& k < a.len() ==> a[k] < b[k]
}

/// `a` sorts strictly before `b` in bytewise lexicographic order.
pub open spec fn lex_lt(a: Seq<u8>, b: Seq<u8>) -> bool {
    exists|k: int| lex_lt_at(a, b, k)
}

/// One more byte makes 256 times as many numbers.
pub proof fn lemma_pow256_step(n: nat)
    ensures
        pow256(n + 1) == 256 * pow256(n),
        pow256(n) >= 1,
    decreases n,
{
    if n > 0 {
        lemma_pow256_step((n - 1) as nat);
    }
}

/// More bytes hold no fewer numbers.
pub proof fn lemma_pow256_mono(a: nat, b: nat)
    requires
        a <= b,
    ensures
        pow256(a) <= pow256(b),
    decreases b,
{
    if a < b {
        lemma_pow256_mono(a, (b - 1) as nat);
        lemma_pow256_step((b - 1) as nat);
    }
}

/// Sixteen bytes hold the numbers below `2^128`.
pub proof fn lemma_pow256_16()
    ensures
        pow256(16) == id_limit(),
{
    reveal_with_fuel(pow256, 17);
}

/// Appending one byte shifts the number by a byte and adds the new one.
pub proof fn lemma_be_value_push(bytes: Seq<u8>, b: u8)
    ensures
        be_value(bytes.push(b)) == be_value(bytes) * 256 + b as nat,
{
    assert(bytes.push(b).drop_last() =~= bytes);
}

/// A string of `n` bytes denotes a number below `256^n`.
pub proof fn lemma_be_value_bound(bytes: Seq<u8>)
    ensures
        be_value(bytes) < pow256(bytes.len()),
    decreases bytes.len(),
{
    if bytes.len() > 0 {
        lemma_be_value_bound(bytes.drop_last());
        lemma_pow256_step((bytes.len() - 1) as nat);
    }
}

/// A string of zero bytes denotes 0.
pub proof fn lemma_zero_value(bytes: Seq<u8>)
    requires
        forall|j: int| 0 <= j < bytes.len() ==> bytes[j] == 0,
    ensures
        be_value(bytes) == 0,
    decreases bytes.len(),
{
    if bytes.len() > 0 {
        lemma_zero_value(bytes.drop_last());
    }
}

/// The bytes of a number that fits denote that number.
pub proof fn lemma_be_bytes(n: nat, width: nat)
    requires
        n < pow256(width),
    ensures
        be_bytes(n, width).len() == width,
        be_value(be_bytes(n, width)) == n,
    decreases width,
{
    if width > 0 {
        lemma_pow256_step((width - 1) as nat);
        lemma_be_bytes(n / 256, (width - 1) as nat);
        lemma_be_value_push(be_bytes(n / 256, (width - 1) as nat), (n % 256) as u8);
    }
}

/// Adding one to a number whose bytes after position `at` are all 255:
/// the byte at `at` goes up by one and those after it fall to 0.
pub proof fn lemma_carry(before: Seq<u8>, after: Seq<u8>, at: int)
    requires
        before.len() == after.len(),
        0 <= at < before.len(),
        before[at] < 255,
        after[at] == before[at] + 1,
        forall|j: int| 0 <= j < at ==> after[j] == before[j],
        forall|j: int| at < j < before.len() ==> before[j] == 255,
        forall|j: int| at < j < before.len() ==> after[j] == 0,
    ensures
        be_value(after) == be_value(before) + 1,
    decreases before.len(),
{
    let n = before.len() as int;
    if at == n - 1 {
        assert(after.drop_last() =~= before.drop_last());
    } else {
        lemma_carry(before.drop_last(), after.drop_last(), at);
    }
}

/// A number whose bytes are all 255 is the largest of its width.
pub proof fn lemma_wrap(before: Seq<u8>, after: Seq<u8>)
    requires
        before.len() == after.len(),
        forall|j: int| 0 <= j < before.len() ==> before[j] == 255,
        forall|j: int| 0 <= j < before.len() ==> after[j] == 0,
    ensures
        be_value(before) + 1 == pow256(before.len()),
        be_value(after) == 0,
    decreases before.len(),
{
    if before.len() > 0 {
        lemma_wrap(before.drop_last(), after.drop_last());
        lemma_pow256_step((before.len() - 1) as nat);
    }
}

/// `k` successors of a number that do not pass the largest number add `k`
/// to it.
pub proof fn lemma_succ_n(x: nat, k: nat)
    requires
        x + k < id_limit(),
    ensures
        succ_n(x, k) == x + k,
    decreases k,
{
    if k > 0 {
        lemma_succ_n(x, (k - 1) as nat);
    }
}

/// Among byte strings of one length, the order of the numbers is the
/// bytewise lexicographic order, and equal numbers have equal bytes.
pub proof fn lemma_value_order(a: Seq<u8>, b: Seq<u8>)
    requires
        a.len() == b.len(),
    ensures
        be_value(a) < be_value(b) <==> lex_lt(a, b),
        be_value(a) == be_value(b) <==> a == b,
    decreases a.len(),
{
    if a.len() == 0 {
        assert(a =~= b);
        assert forall|k: int| !lex_lt_at(a, b, k) by {}
    } else {
        let n = a.len() as int;
        let a0 = a.drop_last();
        let b0 = b.drop_last();
        lemma_value_order(a0, b0);
        if lex_lt(a, b) {
            let k = choose|k: int| lex_lt_at(a, b, k);
            if k == n - 1 {
                assert(a0 =~= b0);
            } else {
                assert forall|j: int| 0 <= j < k implies a0[j] == b0[j] by {
                    assert(a[j] == b[j]);
                }
                assert(a0[k] == a[k] && b0[k] == b[k]);
                assert(lex_lt_at(a0, b0, k));
            }
        }
        if be_value(a) < be_value(b) {
            if be_value(a0) < be_value(b0) {
                let k = choose|k: int| lex_lt_at(a0, b0, k);
                assert forall|j: int| 0 <= j < k implies a[j] == b[j] by {
                    assert(a0[j] == b0[j]);
                }
                assert(a[k] == a0[k] && b[k] == b0[k]);
                assert(lex_lt_at(a, b, k));
            } else {
                assert(be_value(a0) == be_value(b0));
                assert forall|j: int| 0 <= j < n - 1 implies a[j] == b[j] by {
                    assert(a0[j] == b0[j]);
                }
                assert(lex_lt_at(a, b, n - 1));
            }
        }
        if be_value(a) == be_value(b) {
            assert(be_value(a0) == be_value(b0));
            assert(a.last() == b.last());
            assert(a =~= a0.push(a.last()));
            assert(b =~= b0.push(b.last()));
        }
    }
}

/// An identifier's bytes are the bytes of its number.
pub proof fn lemma_id_bytes(bytes: Seq<u8>)
    requires
        bytes.len() == 16,
    ensures
        be_value(bytes) < id_limit(),
        id_bytes(be_value(bytes)) == bytes,
{
    lemma_be_value_bound(bytes);
    lemma_pow256_16();
    lemma_be_bytes(be_value(bytes), 16);
    lemma_value_order(id_bytes(be_value(bytes)), bytes);
}

} // verus!
