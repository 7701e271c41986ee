//! The window iterator: a named consumer that takes records in batches and
//! keeps, next to the records, a cursor of the last one it has taken.

use vstd::prelude::*;
use crate::errors::Error;
use crate::id::StreamID;
use crate::number::{be_value, gap, lemma_id_bytes, succ};
use crate::text::{IdView, encode, invalid_id, parse_text};
use crate::record::{
    Entry,
    EntryView,
    RecordView,
    SeqRecord,
    decode_entry,
    entries_of,
    is_topic_key,
    records_of,
};
use crate::topic::{iter_key, iter_key_bytes, topic_prefix, topic_prefix_bytes};
use crate::writer::topic_key;

verus! {

/// Where a window iterator stands in a call of `next`.
#[derive(Clone, Copy, Debug, PartialEq, Eq, Structural)]
pub enum WindowState {
    /// Between calls.
    Idle,
    /// Taking records from the engine.
    Draining,
    /// Waiting for the cursor of a batch to be stored.
    Committing,
    /// The engine had no more items and the batch was empty.
    Exhausted,
}

/// What the caller of a window iterator is to do next.
pub enum WindowAction {
    /// Hand over the item that the engine's iterator stands on, and move
    /// that iterator forward.
    Pull,
    /// Store this entry, and report how that went.
    Persist(Entry),
    /// The call is complete and its batch is empty.
    Empty,
}

/// The cursor that a stored value holds: invalid where nothing is stored or
/// the value is not the text of an identifier.
pub open spec fn cursor_of(stored: Option<Seq<u8>>) -> IdView {
    match stored {
        Some(value) => parse_text(topic_prefix(), value),
        None => invalid_id(),
    }
}

/// The number of the first identifier that a cursor has not passed.
pub open spec fn start_num(cursor: IdView) -> nat {
    if cursor.valid {
        succ(be_value(cursor.bytes))
    } else {
        1
    }
}

/// The key at which an iterator with this cursor starts: the key after the
/// cursor's, and the topic prefix where the cursor is invalid.
pub open spec fn seek_key(cursor: IdView) -> Seq<u8> {
    if cursor.valid {
        topic_key(succ(be_value(cursor.bytes)))
    } else {
        topic_prefix()
    }
}

/// The entry that stores, for the iterator called `name`, that `last` was
/// the last record taken.
pub open spec fn cursor_entry(name: Seq<char>, last: RecordView) -> EntryView {
    EntryView {
        key: iter_key(vstd::utf8::encode_utf8(name)),
        value: encode(topic_prefix(), last.key.bytes),
    }
}

/// A named consumer of a topic, taking up to `batch_size` records at a time.
pub struct IteratorBatch {
    name: String,
    batch_size: usize,
    cursor: StreamID,
    state: WindowState,
    batch: Vec<SeqRecord>,
}

impl IteratorBatch {
    /// The name under which the iterator keeps its cursor.
    pub closed spec fn name(&self) -> Seq<char> {
        self.name@
    }

    /// The state of the iterator.
    pub closed spec fn state(&self) -> WindowState {
        self.state
    }

    /// The cursor that the iterator has committed: the last record taken.
    pub closed spec fn cursor(&self) -> IdView {
        self.cursor@
    }

    /// The records taken so far in the current call.
    pub closed spec fn batch(&self) -> Seq<RecordView> {
        records_of(self.batch@)
    }

    /// The largest number of records in a batch.
    pub closed spec fn limit(&self) -> nat {
        self.batch_size as nat
    }

    /// The iterator's invariant: a batch holds valid records only and no
    /// more than the limit; it is empty between calls, short of the limit
    /// while draining, and not empty while its cursor is being stored.
    pub open spec fn wf(&self) -> bool {
        &&& self.batch().len() <= self.limit()
        &&& forall|i: int| 0 <= i < self.batch().len() ==> (#[trigger] self.batch()[i]).key.valid
        &&& match self.state() {
            WindowState::Idle | WindowState::Exhausted => self.batch().len() == 0,
            WindowState::Draining => self.batch().len() < self.limit(),
            WindowState::Committing => self.batch().len() > 0,
        }
    }

    /// An iterator called `name` over batches of up to `batch_size` records.
    /// `stored` is the value kept under the iterator's cursor key, `None`
    /// where the engine holds none.
    pub fn new(name: &str, batch_size: usize, stored: Option<&[u8]>) -> (r: IteratorBatch)
        ensures
            r.wf(),
            r.name() == name@,
            r.limit() == batch_size,
            r.state() == WindowState::Idle,
            r.batch() == Seq::<RecordView>::empty(),
            r.cursor() == cursor_of(
                match stored {
                    Some(value) => Some(value@),
                    None => None,
                },
            ),
    {
        let cursor = match stored {
            Some(value) => StreamID::from_key(topic_prefix_bytes().as_slice(), value),
            None => {
                let mut none = StreamID::default();
                none.valid = false;
                none
            },
        };
        let r = IteratorBatch {
            name: name.to_owned(),
            batch_size,
            cursor,
            state: WindowState::Idle,
            batch: Vec::new(),
        };
        assert(r.batch() =~= Seq::<RecordView>::empty());
        r
    }

    /// The name under which the iterator keeps its cursor.
    pub fn get_name(&self) -> (r: &str)
        ensures
            r@ == self.name(),
    {
        self.name.as_str()
    }

    /// The state of the iterator.
    pub fn current_state(&self) -> (r: WindowState)
        ensures
            r == self.state(),
    {
        self.state
    }

    /// The key of the entry that holds this iterator's cursor.
    pub fn cursor_key(&self) -> (r: Vec<u8>)
        ensures
            r@ == iter_key(vstd::utf8::encode_utf8(self.name())),
    {
        iter_key_bytes(self.name.as_str().as_bytes())
    }

    /// The key at which the engine's iterator is to be placed before the
    /// first pull of each call: the key after the cursor.
    pub fn start_key(&self) -> (r: Vec<u8>)
        ensures
            r@ == seek_key(self.cursor()),
    {
        let prefix = topic_prefix_bytes();
        if self.cursor.valid {
            let next = self.cursor.next();
            proof {
                lemma_id_bytes(next.id@);
            }
            next.to_key(prefix.as_slice())
        } else {
            prefix
        }
    }

    /// The entry that stores the last record of the batch as the cursor.
    fn entry_for_last(&self) -> (r: Entry)
        requires
            self.batch@.len() > 0,
        ensures
            r@ == cursor_entry(self.name(), self.batch().last()),
    {
        let last = &self.batch[self.batch.len() - 1];
        Entry {
            key: self.cursor_key(),
            value: last.key.to_key(topic_prefix_bytes().as_slice()),
        }
    }

    /// Starts a call of `next`. A batch of limit 0 is complete at once, and
    /// empty; otherwise the iterator is draining and asks for the first
    /// item. A batch left over from a call that was not completed is dropped.
    pub fn begin(&mut self) -> (r: WindowAction)
        requires
            old(self).wf(),
            old(self).state() != WindowState::Committing,
        ensures
            final(self).wf(),
            final(self).name() == old(self).name(),
            final(self).limit() == old(self).limit(),
            final(self).cursor() == old(self).cursor(),
            final(self).batch() == Seq::<RecordView>::empty(),
            old(self).limit() == 0 ==> r is Empty && final(self).state() == WindowState::Idle,
            old(self).limit() > 0 ==> r is Pull && final(self).state() == WindowState::Draining,
    {
        self.batch = Vec::new();
        assert(self.batch() =~= Seq::<RecordView>::empty());
        if self.batch_size == 0 {
            self.state = WindowState::Idle;
            WindowAction::Empty
        } else {
            self.state = WindowState::Draining;
            WindowAction::Pull
        }
    }

    /// Takes the item that the engine's iterator stands on, `None` where it
    /// stands on nothing.
    ///
    /// A record of the topic joins the batch; the batch is then either full,
    /// and its cursor is to be stored, or the next item is asked for. Any
    /// other entry, and the end of the items, close the batch: where it
    /// holds records its cursor is to be stored, and where it holds none the
    /// call is complete. The iterator is exhausted only where the items
    /// ended on an empty batch.
    pub fn offer(&mut self, item: Option<(&[u8], &[u8])>) -> (r: WindowAction)
        requires
            old(self).wf(),
            old(self).state() == WindowState::Draining,
        ensures
            final(self).wf(),
            final(self).name() == old(self).name(),
            final(self).limit() == old(self).limit(),
            final(self).cursor() == old(self).cursor(),
            match offered(item) {
                Some(record) => {
                    &&& final(self).batch() == old(self).batch().push(record)
                    &&& if final(self).batch().len() == old(self).limit() {
                        &&& final(self).state() == WindowState::Committing
                        &&& r matches WindowAction::Persist(e)
                        &&& e@ == cursor_entry(old(self).name(), record)
                    } else {
                        final(self).state() == WindowState::Draining && r is Pull
                    }
                },
                None => {
                    &&& final(self).batch() == old(self).batch()
                    &&& if old(self).batch().len() > 0 {
                        &&& final(self).state() == WindowState::Committing
                        &&& r matches WindowAction::Persist(e)
                        &&& e@ == cursor_entry(old(self).name(), old(self).batch().last())
                    } else {
                        &&& r is Empty
                        &&& final(self).state() == if item is None {
                            WindowState::Exhausted
                        } else {
                            WindowState::Idle
                        }
                    }
                },
            },
    {
        let ghost before = self.batch();
        let exhausted = item.is_none();
        let record = SeqRecord::from(item);
        if record.is_valid() {
            self.batch.push(record);
            assert(self.batch() =~= before.push(record@));
            if self.batch.len() == self.batch_size {
                self.state = WindowState::Committing;
                WindowAction::Persist(self.entry_for_last())
            } else {
                WindowAction::Pull
            }
        } else if self.batch.len() > 0 {
            self.state = WindowState::Committing;
            WindowAction::Persist(self.entry_for_last())
        } else {
            self.state = if exhausted {
                WindowState::Exhausted
            } else {
                WindowState::Idle
            };
            WindowAction::Empty
        }
    }

    /// Takes in how the storing of the cursor went. After a success the
    /// cursor is the last record of the batch, the batch is handed out and
    /// the iterator is idle. After a failure the cursor has not moved, the
    /// batch is dropped and the error is handed on; the iterator is draining
    /// again, from `start_key`, where the engine's iterator is to be put
    /// back.
    pub fn persisted(&mut self, outcome: Result<(), Error>) -> (r: Result<Vec<SeqRecord>, Error>)
        requires
            old(self).wf(),
            old(self).state() == WindowState::Committing,
        ensures
            final(self).wf(),
            final(self).name() == old(self).name(),
            final(self).limit() == old(self).limit(),
            final(self).batch() == Seq::<RecordView>::empty(),
            match outcome {
                Ok(_) => {
                    &&& final(self).state() == WindowState::Idle
                    &&& final(self).cursor() == old(self).batch().last().key
                    &&& r matches Ok(records)
                    &&& records_of(records@) == old(self).batch()
                },
                Err(e) => {
                    &&& final(self).state() == WindowState::Draining
                    &&& final(self).cursor() == old(self).cursor()
                    &&& r == Err::<Vec<SeqRecord>, Error>(e)
                },
            },
    {
        let mut records: Vec<SeqRecord> = Vec::new();
        std::mem::swap(&mut self.batch, &mut records);
        assert(self.batch() =~= Seq::<RecordView>::empty());
        match outcome {
            Ok(_) => {
                self.cursor = records[records.len() - 1].key;
                self.state = WindowState::Idle;
                Ok(records)
            },
            Err(e) => {
                self.state = WindowState::Draining;
                Err(e)
            },
        }
    }

    /// Gives up the current call, as after an interruption: the batch is
    /// dropped, the cursor stays where it was, and the iterator is idle. The
    /// engine's iterator is to be put back at `start_key`.
    pub fn abandon(&mut self)
        ensures
            final(self).wf(),
            final(self).name() == old(self).name(),
            final(self).limit() == old(self).limit(),
            final(self).cursor() == old(self).cursor(),
            final(self).batch() == Seq::<RecordView>::empty(),
            final(self).state() == WindowState::Idle,
    {
        self.batch = Vec::new();
        self.state = WindowState::Idle;
        assert(self.batch() =~= Seq::<RecordView>::empty());
    }

    /// The same iterator between calls, with another limit.
    pub fn resized(self, batch_size: usize) -> (r: IteratorBatch)
        ensures
            r.wf(),
            r.name() == self.name(),
            r.limit() == batch_size,
            r.cursor() == self.cursor(),
            r.batch() == Seq::<RecordView>::empty(),
            r.state() == WindowState::Idle,
    {
        let r = IteratorBatch {
            name: self.name,
            batch_size,
            cursor: self.cursor,
            state: WindowState::Idle,
            batch: Vec::new(),
        };
        assert(r.batch() =~= Seq::<RecordView>::empty());
        r
    }

    /// The number of records taken so far in the current call.
    pub fn pending(&self) -> (r: usize)
        ensures
            r == self.batch().len(),
    {
        self.batch.len()
    }

    /// The largest number of records in a batch.
    pub fn batch_size(&self) -> (r: usize)
        ensures
            r == self.limit(),
    {
        self.batch_size
    }

    /// Drains a run of entries: `items` is all that the engine's iterator
    /// holds from where it stands. Records are taken from the front for as
    /// long as the entries are records of the topic and the batch is short
    /// of the limit. The result asks for the cursor of the batch to be
    /// stored, or says that the batch is empty.
    pub fn drain(&mut self, items: &Vec<Entry>) -> (r: WindowAction)
        requires
            old(self).wf(),
            old(self).state() == WindowState::Draining,
            old(self).batch().len() == 0,
        ensures
            final(self).wf(),
            final(self).name() == old(self).name(),
            final(self).limit() == old(self).limit(),
            final(self).cursor() == old(self).cursor(),
            is_window_len(entries_of(items@), old(self).limit(), final(self).batch().len()),
            final(self).batch() == window_records(entries_of(items@), final(self).batch().len()),
            if final(self).batch().len() > 0 {
                &&& final(self).state() == WindowState::Committing
                &&& r matches WindowAction::Persist(e)
                &&& e@ == cursor_entry(old(self).name(), final(self).batch().last())
            } else {
                &&& r is Empty
                &&& final(self).state() == if items@.len() == 0 {
                    WindowState::Exhausted
                } else {
                    WindowState::Idle
                }
            },
    {
        let ghost all = entries_of(items@);
        let mut action = WindowAction::Pull;
        let mut i: usize = 0;
        assert(self.batch() =~= window_records(all, 0));
        while i < items.len() && self.state == WindowState::Draining
            invariant
                self.wf(),
                self.name() == old(self).name(),
                self.limit() == old(self).limit(),
                self.cursor() == old(self).cursor(),
                all == entries_of(items@),
                i <= items@.len(),
                self.state() == WindowState::Draining ==> {
                    &&& self.batch().len() == i
                    &&& self.batch() == window_records(all, i as nat)
                    &&& forall|j: int| 0 <= j < i ==> is_topic_key((#[trigger] all[j]).key)
                },
                self.state() != WindowState::Draining ==> {
                    &&& i > 0
                    &&& is_window_len(all, self.limit(), self.batch().len())
                    &&& self.batch() == window_records(all, self.batch().len())
                    &&& if self.batch().len() > 0 {
                        &&& self.state() == WindowState::Committing
                        &&& action matches WindowAction::Persist(e)
                        &&& e@ == cursor_entry(self.name(), self.batch().last())
                    } else {
                        action is Empty && self.state() == WindowState::Idle
                    }
                },
            decreases items@.len() - i,
        {
            let ghost before = self.batch();
            action = self.offer(Some((items[i].key.as_slice(), items[i].value.as_slice())));
            proof {
                assert(all[i as int] == items@[i as int]@);
                if is_topic_key(all[i as int].key) {
                    assert(before.push(decode_entry(all[i as int])) =~= window_records(
                        all,
                        (i + 1) as nat,
                    ));
                }
            }
            i += 1;
        }
        if self.state == WindowState::Draining {
            action = self.offer(None);
        }
        action
    }

    /// How many records the writer has assigned that the stored cursor has
    /// not passed. `next_insert` is the identifier that the writer assigns
    /// next; `stored` is the value kept under the cursor key now.
    pub fn tail_distance(&self, next_insert: &StreamID, stored: Option<&[u8]>) -> (r: u128)
        ensures
            r == gap(
                next_insert.num(),
                start_num(
                    cursor_of(
                        match stored {
                            Some(value) => Some(value@),
                            None => None,
                        },
                    ),
                ),
            ),
    {
        let start = match stored {
            Some(value) => {
                let cursor = StreamID::from_key(topic_prefix_bytes().as_slice(), value);
                if cursor.valid {
                    cursor.next()
                } else {
                    StreamID::default()
                }
            },
            None => StreamID::default(),
        };
        next_insert.distance(&start)
    }
}

/// The record that an offered item holds, where it is a record of the topic.
pub open spec fn offered(item: Option<(&[u8], &[u8])>) -> Option<RecordView> {
    match item {
        Some((key, value)) => if is_topic_key(key@) {
            Some(decode_entry(EntryView { key: key@, value: value@ }))
        } else {
            None
        },
        None => None,
    }
}

/// `m` is the number of records that a drain of `items` takes under
/// `limit`: the entries before `m` are records of the topic, and at `m` the
/// limit is reached, the items end, or an entry is not of the topic.
pub open spec fn is_window_len(items: Seq<EntryView>, limit: nat, m: nat) -> bool {
    &&& m <= limit
    &&& m <= items.len()
    &&& forall|i: int| 0 <= i < m ==> is_topic_key((#[trigger] items[i]).key)
    &&& (m == limit || m == items.len() || !is_topic_key(items[m as int].key))
}

/// The records of the first `m` entries.
pub open spec fn window_records(items: Seq<EntryView>, m: nat) -> Seq<RecordView> {
    Seq::new(m, |i: int| decode_entry(items[i]))
}

/// A batch moves the cursor forward. Where the engine hands out no key
/// before the key that the iterator starts at, the last record of a batch
/// that is not empty lies after the cursor; so the cursor that a successful
/// call stores is larger than the one before. The largest identifier is left
/// out as a cursor: the key after it starts again at 0.
pub proof fn law_cursor_advances(cursor: IdView, items: Seq<EntryView>, limit: nat, m: nat)
    requires
        cursor.valid,
        cursor.bytes.len() == 16,
        be_value(cursor.bytes) + 1 < crate::number::id_limit(),
        forall|i: int| 0 <= i < items.len() ==> !crate::number::lex_lt(
            (#[trigger] items[i]).key,
            seek_key(cursor),
        ),
        is_window_len(items, limit, m),
        m > 0,
    ensures
        window_records(items, m).last().key.valid,
        be_value(window_records(items, m).last().key.bytes) > be_value(cursor.bytes),
{
    let key = items[m - 1].key;
    let prefix = topic_prefix();
    let next = (be_value(cursor.bytes) + 1) as nat;
    assert(is_topic_key(key));
    assert(!crate::number::lex_lt(items[m - 1].key, seek_key(cursor)));
    crate::number::lemma_pow256_16();
    crate::number::lemma_be_bytes(next, 16);
    crate::text::lemma_encode_parse(prefix, key);
    crate::text::lemma_text_order(prefix, parse_text(prefix, key).bytes, crate::number::id_bytes(next));
}

/// Read from entries in ascending key order, the records of a batch are in
/// strictly increasing order of their identifiers.
pub proof fn law_window_ascending(items: Seq<EntryView>, limit: nat, m: nat)
    requires
        crate::iterator_single::keys_ascending(items),
        is_window_len(items, limit, m),
    ensures
        crate::iterator_single::ids_ascending(window_records(items, m)),
{
    let records = window_records(items, m);
    assert forall|a: int, b: int| 0 <= a < b < records.len() implies be_value(
        (#[trigger] records[a]).key.bytes,
    ) < be_value((#[trigger] records[b]).key.bytes) by {
        assert(crate::number::lex_lt(items[a].key, items[b].key));
        crate::iterator_single::lemma_topic_keys_order(items[a].key, items[b].key);
    }
}

/// On an empty topic nothing lies between the writer and a cursor that was
/// never stored, and a batch is empty.
pub proof fn law_empty_topic(limit: nat, m: nat)
    requires
        is_window_len(Seq::<EntryView>::empty(), limit, m),
    ensures
        m == 0,
        gap(succ(0), start_num(cursor_of(None))) == 0,
{
}

/// The cursor that a batch stores reads back as the identifier of the
/// batch's last record, and an iterator made from it starts at the key
/// after that record's.
pub proof fn law_cursor_round_trip(name: Seq<char>, last: RecordView)
    requires
        last.key.valid,
        last.key.bytes.len() == 16,
    ensures
        cursor_of(Some(cursor_entry(name, last).value)) == last.key,
        seek_key(cursor_of(Some(cursor_entry(name, last).value))) == topic_key(
            succ(be_value(last.key.bytes)),
        ),
{
    crate::text::lemma_parse_encode(topic_prefix(), last.key.bytes);
}

/// The tail distance counts the records that the cursor has not passed:
/// with the records numbered 1 to `last` flushed, it is `last` for an
/// iterator without a cursor, and `last - taken` for one whose cursor is the
/// record numbered `taken`.
pub proof fn law_tail_distance(last: nat, cursor: IdView)
    requires
        last + 1 < crate::number::id_limit(),
        cursor.valid ==> be_value(cursor.bytes) <= last,
    ensures
        gap(succ(last), start_num(cursor)) == if cursor.valid {
            last - be_value(cursor.bytes)
        } else {
            last as int
        },
{
}

} // verus!
