//! Records, and the key-value entries they are stored as.

use vstd::prelude::*;
use vstd::slice::slice_to_vec;
use crate::id::StreamID;
use crate::number::be_value;
use crate::text::{IdView, encode, invalid_id, parse_text, lemma_parse_encode};
use crate::topic::{topic_prefix, topic_prefix_bytes};

verus! {

/// A payload: bytes that the store does not look into.
pub type Record = Vec<u8>;

/// What an entry is to a contract.
pub struct EntryView {
    pub key: Seq<u8>,
    pub value: Seq<u8>,
}

/// A key and a value as the engine holds them.
#[derive(Debug, Clone, PartialEq, Eq)]
pub struct Entry {
    pub key: Vec<u8>,
    pub value: Vec<u8>,
}

impl View for Entry {
    type V = EntryView;

    open spec fn view(&self) -> EntryView {
        EntryView { key: self.key@, value: self.value@ }
    }
}

/// The entries of a list, each by its view.
pub open spec fn entries_of(list: Seq<Entry>) -> Seq<EntryView> {
    Seq::new(list.len(), |i: int| list[i]@)
}

/// The byte strings of a list, each by its view.
pub open spec fn bytes_of(list: Seq<Vec<u8>>) -> Seq<Seq<u8>> {
    Seq::new(list.len(), |i: int| list[i]@)
}

/// What a record is to a contract.
pub struct RecordView {
    pub key: IdView,
    pub value: Seq<u8>,
}

/// An appended payload under the identifier it was assigned.
#[derive(Debug, Clone, Hash, PartialEq, Eq)]
pub struct SeqRecord {
    pub key: StreamID,
    pub value: Record,
}

impl View for SeqRecord {
    type V = RecordView;

    open spec fn view(&self) -> RecordView {
        RecordView { key: self.key@, value: self.value@ }
    }
}

/// The records of a list, each by its view.
pub open spec fn records_of(list: Seq<SeqRecord>) -> Seq<RecordView> {
    Seq::new(list.len(), |i: int| list[i]@)
}

/// `key` is the key of a topic record: the topic prefix and well-formed
/// digits.
pub open spec fn is_topic_key(key: Seq<u8>) -> bool {
    parse_text(topic_prefix(), key).valid
}

/// The number of the identifier that a key spells.
pub open spec fn key_num(key: Seq<u8>) -> nat {
    be_value(parse_text(topic_prefix(), key).bytes)
}

/// The record that an entry holds. Its key is invalid where the entry's key
/// is not that of a topic record.
pub open spec fn decode_entry(e: EntryView) -> RecordView {
    RecordView { key: parse_text(topic_prefix(), e.key), value: e.value }
}

/// The entry that a record is stored as.
pub open spec fn encode_record(r: RecordView) -> EntryView {
    EntryView { key: encode(topic_prefix(), r.key.bytes), value: r.value }
}

impl SeqRecord {
    /// The record of `value` under `key`.
    pub fn new(key: StreamID, value: Vec<u8>) -> (r: SeqRecord)
        ensures
            r.key == key,
            r.value == value,
    {
        SeqRecord { key, value }
    }

    /// The number of payload bytes.
    pub fn size(&self) -> (r: usize)
        ensures
            r == self.value@.len(),
    {
        self.value.len()
    }

    /// Whether this record belongs to the topic: its key was read from, or
    /// will be written as, the topic prefix followed by well-formed digits.
    pub fn is_valid(&self) -> (r: bool)
        ensures
            r == self.key.valid,
    {
        self.key.valid
    }

    /// Reads a record from what the engine's iterator stands on. A key that
    /// is not a topic key gives a record that is not valid; no item gives
    /// the invalid record without payload.
    pub fn from(value: Option<(&[u8], &[u8])>) -> (r: SeqRecord)
        ensures
            match value {
                Some((key, payload)) => r@ == decode_entry(
                    EntryView { key: key@, value: payload@ },
                ),
                None => r@ == (RecordView { key: invalid_id(), value: Seq::<u8>::empty() }),
            },
    {
        match value {
            Some((key, payload)) => {
                let prefix = topic_prefix_bytes();
                SeqRecord {
                    key: StreamID::from_key(prefix.as_slice(), key),
                    value: slice_to_vec(payload),
                }
            },
            None => {
                let mut key = StreamID::default();
                key.valid = false;
                let r = SeqRecord { key, value: Vec::new() };
                assert(r.value@ =~= Seq::<u8>::empty());
                r
            },
        }
    }

    /// Reads a record from an entry.
    pub fn from_entry(entry: &Entry) -> (r: SeqRecord)
        ensures
            r@ == decode_entry(entry@),
    {
        let prefix = topic_prefix_bytes();
        SeqRecord {
            key: StreamID::from_key(prefix.as_slice(), entry.key.as_slice()),
            value: slice_to_vec(entry.value.as_slice()),
        }
    }

    /// The entry this record is stored as: its identifier under the topic
    /// prefix, and the payload.
    pub fn to_entry(&self) -> (e: Entry)
        ensures
            e@ == encode_record(self@),
    {
        let prefix = topic_prefix_bytes();
        Entry { key: self.key.to_key(prefix.as_slice()), value: slice_to_vec(self.value.as_slice()) }
    }
}

/// Storing a valid record and reading the entry gives the record back.
pub proof fn law_record_round_trip(r: SeqRecord)
    requires
        r.key.valid,
    ensures
        decode_entry(encode_record(r@)) == r@,
        is_topic_key(encode_record(r@).key),
{
    lemma_parse_encode(topic_prefix(), r.key.id@);
}

} // verus!
