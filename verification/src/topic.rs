//! A topic: the key layout of its column family, the recovery of its write
//! position, and the append path.

use vstd::prelude::*;
use vstd::slice::slice_to_vec;
use crate::id::StreamID;
use crate::number::{succ, succ_n};
use crate::iterator_batch::{IteratorBatch, WindowState, cursor_of};
use crate::iterator_single::IteratorSingle;
use crate::record::{
    Entry,
    Record,
    RecordView,
    SeqRecord,
    bytes_of,
    entries_of,
    is_topic_key,
    key_num,
};
use crate::writer::{WriteBuffer, flush_batch};

verus! {

/// The prefix of the keys under which iterators keep their cursors.
pub const TOPIC_ITERATOR_KEY_PREFIX: &'static str = "iter";

/// The prefix of the keys of records.
pub const TOPIC_KEY_PREFIX: &'static str = "topic";

/// The key of the marker of the last flush.
pub const TOPIC_LAST_INSERT_KEY: &'static str = "last";

/// `topic:`, the bytes before the digits of a record's key.
pub open spec fn topic_prefix() -> Seq<u8> {
    seq![116u8, 111u8, 112u8, 105u8, 99u8, 58u8]
}

/// `iter:`, the bytes before the name in a cursor's key.
pub open spec fn iter_prefix() -> Seq<u8> {
    seq![105u8, 116u8, 101u8, 114u8, 58u8]
}

/// `last`, the key of the marker of the last flush.
pub open spec fn last_key() -> Seq<u8> {
    seq![108u8, 97u8, 115u8, 116u8]
}

/// The key of the cursor of the iterator called `name`.
pub open spec fn iter_key(name: Seq<u8>) -> Seq<u8> {
    iter_prefix() + name
}

/// The bytes of `topic:`.
pub fn topic_prefix_bytes() -> (r: Vec<u8>)
    ensures
        r@ == topic_prefix(),
{
    let r: Vec<u8> = vec![116u8, 111u8, 112u8, 105u8, 99u8, 58u8];
    assert(r@ =~= topic_prefix());
    r
}

/// The bytes of `last`.
pub fn last_key_bytes() -> (r: Vec<u8>)
    ensures
        r@ == last_key(),
{
    let r: Vec<u8> = vec![108u8, 97u8, 115u8, 116u8];
    assert(r@ =~= last_key());
    r
}

/// The key of the cursor of the iterator called `name`: `iter:` and the
/// name.
pub fn iter_key_bytes(name: &[u8]) -> (r: Vec<u8>)
    ensures
        r@ == iter_key(name@),
{
    let mut r: Vec<u8> = vec![105u8, 116u8, 101u8, 114u8, 58u8];
    assert(r@ =~= iter_prefix());
    let mut k: usize = 0;
    while k < name.len()
        invariant
            k <= name@.len(),
            r@ == iter_prefix() + name@.take(k as int),
        decreases name@.len() - k,
    {
        r.push(name[k]);
        k += 1;
        assert(r@ =~= iter_prefix() + name@.take(k as int));
    }
    assert(name@.take(k as int) =~= name@);
    r
}

/// `m` is the largest number among the topic keys in `keys`, and 0 where
/// there is none.
pub open spec fn is_max_topic_num(keys: Seq<Seq<u8>>, m: nat) -> bool {
    &&& forall|i: int|
        0 <= i < keys.len() && is_topic_key(#[trigger] keys[i]) ==> key_num(keys[i]) <= m
    &&& (m == 0 || exists|i: int|
        0 <= i < keys.len() && is_topic_key(#[trigger] keys[i]) && key_num(keys[i]) == m)
}

/// What an append hands back: the record, and the batch to commit where the
/// append made a flush due.
pub struct Appended {
    pub record: SeqRecord,
    pub batch: Option<Vec<Entry>>,
}

/// The writer's side of a topic.
pub struct TopicImpl {
    writer: WriteBuffer,
}

impl TopicImpl {
    /// The number of the last identifier that a committed flush assigned.
    pub closed spec fn last(&self) -> nat {
        self.writer.last()
    }

    /// The payloads staged for the next flush, oldest first.
    pub closed spec fn staged(&self) -> Seq<Seq<u8>> {
        self.writer.staged()
    }

    /// The number of staged bytes.
    pub closed spec fn size(&self) -> nat {
        self.writer.size()
    }

    /// The number of staged bytes at which an append makes a flush due.
    pub closed spec fn threshold(&self) -> nat {
        self.writer.threshold()
    }

    /// The topic's invariant: that of its write buffer.
    pub closed spec fn wf(&self) -> bool {
        self.writer.wf()
    }

    /// Opens the topic from the keys that a scan of its column family found,
    /// in any order. Keys that are not topic keys are passed over. The topic
    /// continues after the largest identifier among the rest, and starts at
    /// the default identifier where there is none.
    pub fn new(keys: &Vec<Vec<u8>>) -> (r: TopicImpl)
        ensures
            r.wf(),
            is_max_topic_num(bytes_of(keys@), r.last()),
            r.staged() == Seq::<Seq<u8>>::empty(),
            r.size() == 0,
            r.threshold() == crate::writer::FLUSH_THRESHOLD,
    {
        let last = Self::seek_last(keys);
        TopicImpl { writer: WriteBuffer::new(last) }
    }

    /// As `new`, with a flush due at `threshold` staged bytes.
    pub fn with_threshold(keys: &Vec<Vec<u8>>, threshold: u128) -> (r: TopicImpl)
        ensures
            r.wf(),
            is_max_topic_num(bytes_of(keys@), r.last()),
            r.staged() == Seq::<Seq<u8>>::empty(),
            r.size() == 0,
            r.threshold() == threshold,
    {
        let last = Self::seek_last(keys);
        TopicImpl { writer: WriteBuffer::with_threshold(last, threshold) }
    }

    /// The key at which the scan for `new` may start: the key that the
    /// marker of the last flush names, and the topic prefix where there is
    /// no marker or it is not a topic key.
    pub fn scan_start(marker: Option<&[u8]>) -> (r: Vec<u8>)
        ensures
            r@ == match marker {
                Some(m) => if is_topic_key(m@) {
                    m@
                } else {
                    topic_prefix()
                },
                None => topic_prefix(),
            },
    {
        let prefix = topic_prefix_bytes();
        match marker {
            Some(m) => {
                if StreamID::from_key(prefix.as_slice(), m).valid {
                    slice_to_vec(m)
                } else {
                    prefix
                }
            },
            None => prefix,
        }
    }

    /// The largest identifier among the topic keys in `keys`; the identifier
    /// numbered 0 where there is none.
    fn seek_last(keys: &Vec<Vec<u8>>) -> (last: StreamID)
        ensures
            is_max_topic_num(bytes_of(keys@), last.num()),
    {
        let prefix = topic_prefix_bytes();
        let mut last = StreamID::metadata();
        let mut best: u128 = 0;
        let mut i: usize = 0;
        while i < keys.len()
            invariant
                i <= keys@.len(),
                prefix@ == topic_prefix(),
                best == last.num(),
                is_max_topic_num(bytes_of(keys@).take(i as int), last.num()),
            decreases keys@.len() - i,
        {
            let ghost seen = bytes_of(keys@).take(i as int);
            let ghost before = last.num();
            let id = StreamID::from_key(prefix.as_slice(), keys[i].as_slice());
            if id.valid {
                let n = id.to_u128();
                if n > best {
                    last = id;
                    best = n;
                }
            }
            i += 1;
            proof {
                let now = bytes_of(keys@).take(i as int);
                assert(now.drop_last() =~= seen);
                assert(now.last() == keys@[i - 1]@);
                assert forall|j: int| 0 <= j < now.len() && is_topic_key(
                    #[trigger] now[j],
                ) implies key_num(now[j]) <= last.num() by {
                    if j < i - 1 {
                        assert(now[j] == seen[j]);
                    }
                }
                if last.num() != 0 {
                    if last.num() == before {
                        let w = choose|w: int|
                            0 <= w < seen.len() && is_topic_key(#[trigger] seen[w]) && key_num(
                                seen[w],
                            ) == before;
                        assert(now[w] == seen[w]);
                    } else {
                        assert(is_topic_key(now[i - 1]) && key_num(now[i - 1]) == last.num());
                    }
                }
            }
        }
        assert(bytes_of(keys@).take(i as int) =~= bytes_of(keys@));
        last
    }

    /// The identifier that the first record of the next flush is assigned.
    pub fn next_insert(&self) -> (r: StreamID)
        ensures
            r.valid,
            r.num() == succ(self.last()),
    {
        self.writer.last_insert().next()
    }

    /// The number of staged payloads.
    pub fn pending(&self) -> (r: usize)
        ensures
            r == self.staged().len(),
    {
        self.writer.len()
    }

    /// Appends a payload: stages it and, where the staged bytes have then
    /// reached the threshold, plans the flush. The record handed back holds
    /// the identifier that the payload is assigned when it is flushed.
    pub fn append(&mut self, value: &Record) -> (r: Appended)
        requires
            old(self).wf(),
        ensures
            final(self).wf(),
            final(self).staged() == old(self).staged().push(value@),
            final(self).size() == old(self).size() + value@.len(),
            final(self).last() == old(self).last(),
            final(self).threshold() == old(self).threshold(),
            r.record.key.valid,
            r.record.key.num() == succ_n(old(self).last(), final(self).staged().len()),
            r.record.value@ == value@,
            r.batch is Some <==> final(self).size() >= final(self).threshold(),
            r.batch matches Some(b) ==> entries_of(b@) == flush_batch(
                final(self).last(),
                final(self).staged(),
            ),
    {
        let key = self.writer.add(value.as_slice());
        let batch = self.writer.flush(false);
        Appended { record: SeqRecord::new(key, slice_to_vec(value.as_slice())), batch }
    }

    /// A window iterator called `name` over this topic, taking up to
    /// `batch_size` records at a time. `stored` is the value kept under the
    /// iterator's cursor key, `None` where the engine holds none.
    pub fn window(&self, name: &str, batch_size: usize, stored: Option<&[u8]>) -> (r:
        IteratorBatch)
        ensures
            r.wf(),
            r.name() == name@,
            r.limit() == batch_size,
            r.state() == WindowState::Idle,
            r.batch() == Seq::<RecordView>::empty(),
            r.cursor() == cursor_of(
                match stored {
                    Some(value) => Some(value@),
                    None => None,
                },
            ),
    {
        IteratorBatch::new(name, batch_size, stored)
    }

    /// A single iterator over this topic.
    pub fn iter(&self) -> IteratorSingle {
        IteratorSingle::new()
    }

    /// Plans a flush of what is staged; see `WriteBuffer::flush`.
    pub fn flush(&self, force: bool) -> (batch: Option<Vec<Entry>>)
        requires
            self.wf(),
        ensures
            batch is None <==> !force && self.size() < self.threshold(),
            batch matches Some(b) ==> entries_of(b@) == flush_batch(self.last(), self.staged()),
    {
        self.writer.flush(force)
    }

    /// Takes in the outcome of the commit of a planned flush; see
    /// `WriteBuffer::flushed`.
    pub fn flushed(&mut self, outcome: Result<(), crate::errors::Error>) -> (r: Result<
        (),
        crate::errors::Error,
    >)
        requires
            old(self).wf(),
        ensures
            final(self).wf(),
            r == outcome,
            final(self).threshold() == old(self).threshold(),
            outcome is Ok ==> final(self).staged() == Seq::<Seq<u8>>::empty() && final(self).size()
                == 0 && final(self).last() == succ_n(old(self).last(), old(self).staged().len()),
            outcome is Err ==> final(self).staged() == old(self).staged() && final(self).size()
                == old(self).size() && final(self).last() == old(self).last(),
    {
        self.writer.flushed(outcome)
    }
}

/// The keys of records, the keys of cursors and the key of the marker never
/// coincide: what is stored under one kind is never read as another.
pub proof fn law_keyspaces_disjoint(key: Seq<u8>, name: Seq<u8>)
    ensures
        is_topic_key(key) ==> key != last_key() && key != iter_key(name),
        iter_key(name) != last_key(),
        !is_topic_key(last_key()),
        !is_topic_key(iter_key(name)),
{
    assert(iter_key(name)[0] == 105u8);
    assert(last_key()[0] == 108u8);
    if is_topic_key(key) {
        assert(key.take(6)[0] == 116u8);
    }
    if is_topic_key(iter_key(name)) {
        assert(iter_key(name).take(6)[0] == 116u8);
    }
}

/// A store that holds a committed flush is reopened at the writer's own
/// position: the largest topic key among the keys of the batch is the last
/// identifier that the flush assigned.
pub proof fn law_reopen_after_flush(last: nat, staged: Seq<Seq<u8>>)
    requires
        last + staged.len() < crate::number::id_limit(),
        staged.len() > 0,
    ensures
        is_max_topic_num(
            Seq::new(flush_batch(last, staged).len(), |i: int| flush_batch(last, staged)[i].key),
            last + staged.len(),
        ),
{
    let batch = flush_batch(last, staged);
    let keys = Seq::new(batch.len(), |i: int| batch[i].key);
    let n = staged.len() as int;
    assert forall|i: int| 0 <= i < keys.len() && is_topic_key(#[trigger] keys[i]) implies key_num(
        keys[i],
    ) <= last + n by {
        if i < n {
            crate::writer::law_flush_records(last, staged, i);
        } else {
            law_keyspaces_disjoint(keys[i], Seq::empty());
        }
    }
    crate::writer::law_flush_records(last, staged, n - 1);
    assert(is_topic_key(keys[n - 1]) && key_num(keys[n - 1]) == last + n);
}

} // verus!
