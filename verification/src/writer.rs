//! The write buffer: payloads staged in memory until a flush hands them to
//! the engine as one atomic batch.

use vstd::prelude::*;
use vstd::slice::slice_to_vec;
use crate::errors::Error;
use crate::id::StreamID;
use crate::number::{id_bytes, id_limit, lemma_id_bytes, succ_n};
use crate::text::encode;
use crate::record::{Entry, EntryView, bytes_of, entries_of, is_topic_key, key_num};
use crate::topic::{last_key, last_key_bytes, topic_prefix, topic_prefix_bytes};

verus! {

/// The number of staged bytes at which a flush is due, unless another is
/// chosen.
pub const FLUSH_THRESHOLD: u128 = 64512;

/// The number of bytes in a list of payloads.
pub open spec fn total_len(payloads: Seq<Seq<u8>>) -> nat
    decreases payloads.len(),
{
    if payloads.len() == 0 {
        0
    } else {
        total_len(payloads.drop_last()) + payloads.last().len()
    }
}

/// The key of the record numbered `n`.
pub open spec fn topic_key(n: nat) -> Seq<u8> {
    encode(topic_prefix(), id_bytes(n))
}

/// The atomic batch that flushes `staged` after the identifier numbered
/// `last`: payload `i` under the `i + 1`-th successor of `last`, then the
/// marker of the last identifier assigned.
pub open spec fn flush_batch(last: nat, staged: Seq<Seq<u8>>) -> Seq<EntryView> {
    Seq::new(
        staged.len() + 1,
        |i: int|
            if i < staged.len() {
                EntryView { key: topic_key(succ_n(last, (i + 1) as nat)), value: staged[i] }
            } else {
                EntryView { key: last_key(), value: topic_key(succ_n(last, staged.len())) }
            },
    )
}

/// Payloads waiting for a flush, and the identifiers around them.
pub struct WriteBuffer {
    last_insert: StreamID,
    last_staged: StreamID,
    buffer: Vec<Vec<u8>>,
    buffer_size: u128,
    txn_size: u128,
}

impl WriteBuffer {
    /// The number of the last identifier that a committed flush assigned.
    pub closed spec fn last(&self) -> nat {
        self.last_insert.num()
    }

    /// The staged payloads, oldest first.
    pub closed spec fn staged(&self) -> Seq<Seq<u8>> {
        bytes_of(self.buffer@)
    }

    /// The number of staged bytes.
    pub closed spec fn size(&self) -> nat {
        self.buffer_size as nat
    }

    /// The number of staged bytes at which a flush is due.
    pub closed spec fn threshold(&self) -> nat {
        self.txn_size as nat
    }

    /// The buffer's invariant: the tally is the number of staged bytes, and
    /// the identifier kept for the newest staged payload is the right one.
    pub closed spec fn wf(&self) -> bool {
        &&& self.buffer_size == total_len(bytes_of(self.buffer@))
        &&& total_len(bytes_of(self.buffer@)) <= self.buffer@.len() * usize::MAX
        &&& self.last_staged.num() == succ_n(self.last_insert.num(), self.buffer@.len())
    }

    /// An empty buffer that continues after `last_insert`, with the default
    /// threshold.
    pub fn new(last_insert: StreamID) -> (r: WriteBuffer)
        ensures
            r.wf(),
            r.last() == last_insert.num(),
            r.staged() == Seq::<Seq<u8>>::empty(),
            r.size() == 0,
            r.threshold() == FLUSH_THRESHOLD,
    {
        Self::with_threshold(last_insert, FLUSH_THRESHOLD)
    }

    /// An empty buffer that continues after `last_insert` and is due for a
    /// flush at `txn_size` staged bytes.
    pub fn with_threshold(last_insert: StreamID, txn_size: u128) -> (r: WriteBuffer)
        ensures
            r.wf(),
            r.last() == last_insert.num(),
            r.staged() == Seq::<Seq<u8>>::empty(),
            r.size() == 0,
            r.threshold() == txn_size,
    {
        let r = WriteBuffer {
            last_insert,
            last_staged: last_insert,
            buffer: Vec::new(),
            buffer_size: 0,
            txn_size,
        };
        assert(bytes_of(r.buffer@) =~= Seq::<Seq<u8>>::empty());
        r
    }

    /// The last identifier that a committed flush assigned.
    pub fn last_insert(&self) -> (r: StreamID)
        ensures
            r.num() == self.last(),
    {
        self.last_insert
    }

    /// The number of staged payloads.
    pub fn len(&self) -> (r: usize)
        ensures
            r == self.staged().len(),
    {
        self.buffer.len()
    }

    /// The number of staged bytes.
    pub fn buffer_size(&self) -> (r: u128)
        ensures
            r == self.size(),
    {
        self.buffer_size
    }

    /// Whether a flush that is not forced would write.
    pub fn is_due(&self) -> (r: bool)
        ensures
            r == (self.size() >= self.threshold()),
    {
        self.buffer_size >= self.txn_size
    }

    /// Stages one payload, and returns the identifier that it is assigned
    /// when it is flushed.
    pub fn add(&mut self, value: &[u8]) -> (key: StreamID)
        requires
            old(self).wf(),
        ensures
            final(self).wf(),
            key.valid,
            key.num() == succ_n(old(self).last(), final(self).staged().len()),
            final(self).staged() == old(self).staged().push(value@),
            final(self).size() == old(self).size() + value@.len(),
            final(self).last() == old(self).last(),
            final(self).threshold() == old(self).threshold(),
    {
        let ghost before = bytes_of(self.buffer@);
        self.buffer.push(slice_to_vec(value));
        let count = self.buffer.len();
        proof {
            assert(bytes_of(self.buffer@) =~= before.push(value@));
            assert(bytes_of(self.buffer@).drop_last() =~= before);
            assert(count * usize::MAX == before.len() * usize::MAX + usize::MAX)
                by (nonlinear_arith)
                requires
                    count == before.len() + 1,
            ;
            assert(count * usize::MAX <= u128::MAX) by (nonlinear_arith)
                requires
                    count <= usize::MAX,
                    usize::MAX <= u64::MAX,
            ;
        }
        self.buffer_size = self.buffer_size + value.len() as u128;
        self.last_staged = self.last_staged.next();
        self.last_staged
    }

    /// Plans a flush. Nothing is due, and nothing is returned, where the
    /// flush is not forced and fewer bytes are staged than the threshold.
    /// Otherwise the result is the one batch that the engine is to commit
    /// atomically: each staged payload under the identifier it is assigned,
    /// and the marker of the last of them. The buffer changes only when the
    /// outcome of the commit is reported.
    pub fn flush(&self, force: bool) -> (batch: Option<Vec<Entry>>)
        requires
            self.wf(),
        ensures
            batch is None <==> !force && self.size() < self.threshold(),
            batch matches Some(b) ==> entries_of(b@) == flush_batch(self.last(), self.staged()),
    {
        if !force && self.buffer_size < self.txn_size {
            return None;
        }
        let prefix = topic_prefix_bytes();
        let mut batch: Vec<Entry> = Vec::new();
        let mut id = self.last_insert;
        let mut i: usize = 0;
        while i < self.buffer.len()
            invariant
                i <= self.buffer@.len(),
                prefix@ == topic_prefix(),
                id.num() == succ_n(self.last_insert.num(), i as nat),
                batch@.len() == i,
                forall|j: int|
                    0 <= j < i ==> (#[trigger] batch@[j])@ == flush_batch(
                        self.last(),
                        self.staged(),
                    )[j],
            decreases self.buffer@.len() - i,
        {
            id = id.next();
            proof {
                lemma_id_bytes(id.id@);
            }
            let entry = Entry {
                key: id.to_key(prefix.as_slice()),
                value: slice_to_vec(self.buffer[i].as_slice()),
            };
            batch.push(entry);
            i += 1;
        }
        proof {
            lemma_id_bytes(id.id@);
        }
        batch.push(Entry { key: last_key_bytes(), value: id.to_key(prefix.as_slice()) });
        assert(entries_of(batch@) =~= flush_batch(self.last(), self.staged()));
        Some(batch)
    }

    /// Takes in the outcome of the commit of the batch that `flush` planned.
    /// After a commit that succeeded the buffer is empty and continues after
    /// the last identifier of the batch. After one that failed nothing has
    /// changed, so that the flush can be tried again, and the error is handed
    /// on.
    pub fn flushed(&mut self, outcome: Result<(), Error>) -> (r: Result<(), Error>)
        requires
            old(self).wf(),
        ensures
            final(self).wf(),
            r == outcome,
            final(self).threshold() == old(self).threshold(),
            outcome is Ok ==> final(self).staged() == Seq::<Seq<u8>>::empty() && final(self).size()
                == 0 && final(self).last() == succ_n(old(self).last(), old(self).staged().len()),
            outcome is Err ==> final(self).staged() == old(self).staged() && final(self).size()
                == old(self).size() && final(self).last() == old(self).last(),
    {
        if outcome.is_ok() {
            self.last_insert = self.last_staged;
            self.buffer = Vec::new();
            self.buffer_size = 0;
            assert(bytes_of(self.buffer@) =~= Seq::<Seq<u8>>::empty());
        }
        outcome
    }
}

/// The marker of a flush names the last identifier that the flush assigns.
pub proof fn law_flush_marker(last: nat, staged: Seq<Seq<u8>>)
    requires
        last + staged.len() < id_limit(),
    ensures
        flush_batch(last, staged).last().key == last_key(),
        is_topic_key(flush_batch(last, staged).last().value),
        key_num(flush_batch(last, staged).last().value) == last + staged.len(),
{
    crate::number::lemma_succ_n(last, staged.len());
    lemma_topic_key(last + staged.len());
}

/// Before its marker, a flush holds each staged payload as a record of the
/// topic, under the identifier that the payload is assigned: the `i`-th
/// payload under the `i + 1`-th identifier after the last one.
pub proof fn law_flush_records(last: nat, staged: Seq<Seq<u8>>, i: int)
    requires
        last + staged.len() < id_limit(),
        0 <= i < staged.len(),
    ensures
        is_topic_key(flush_batch(last, staged)[i].key),
        key_num(flush_batch(last, staged)[i].key) == last + i + 1,
        flush_batch(last, staged)[i].value == staged[i],
{
    crate::number::lemma_succ_n(last, (i + 1) as nat);
    lemma_topic_key((last + i + 1) as nat);
}

/// A flush keeps the order of the topic: the keys of its records sort in
/// the order of the staged payloads, and after the key of every record
/// numbered up to the last identifier assigned before.
pub proof fn law_flush_order(last: nat, staged: Seq<Seq<u8>>, earlier: Seq<u8>, i: int, j: int)
    requires
        last + staged.len() < id_limit(),
        0 <= i < j < staged.len(),
        is_topic_key(earlier),
        key_num(earlier) <= last,
    ensures
        crate::number::lex_lt(earlier, flush_batch(last, staged)[i].key),
        crate::number::lex_lt(flush_batch(last, staged)[i].key, flush_batch(last, staged)[j].key),
{
    law_flush_records(last, staged, i);
    law_flush_records(last, staged, j);
    crate::iterator_single::lemma_topic_keys_order(earlier, flush_batch(last, staged)[i].key);
    crate::iterator_single::lemma_topic_keys_order(
        flush_batch(last, staged)[i].key,
        flush_batch(last, staged)[j].key,
    );
}

/// The key of the record numbered `n` is a topic key, and spells `n`.
pub proof fn lemma_topic_key(n: nat)
    requires
        n < id_limit(),
    ensures
        is_topic_key(topic_key(n)),
        key_num(topic_key(n)) == n,
{
    crate::number::lemma_pow256_16();
    crate::number::lemma_be_bytes(n, 16);
    crate::text::lemma_parse_encode(topic_prefix(), id_bytes(n));
}

} // verus!
