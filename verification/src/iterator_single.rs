//! The single iterator: a forward scan that yields the records of a topic
//! and passes over every other key in its column family.

use vstd::prelude::*;
use crate::number::{be_value, lex_lt};
use crate::text::{lemma_encode_parse, lemma_text_order, parse_text};
use crate::record::{
    Entry,
    EntryView,
    RecordView,
    SeqRecord,
    decode_entry,
    entries_of,
    is_topic_key,
    records_of,
};
use crate::topic::{topic_prefix, topic_prefix_bytes};

verus! {

/// The record that an entry holds, where its key is a topic key.
pub open spec fn topic_record(e: EntryView) -> Option<RecordView> {
    if is_topic_key(e.key) {
        Some(decode_entry(e))
    } else {
        None
    }
}

/// What a scan of `items` yields: the records of the entries with a topic
/// key, in the order of the entries.
pub open spec fn scan(items: Seq<EntryView>) -> Seq<RecordView> {
    items.filter_map(|e: EntryView| topic_record(e))
}

/// What the iterator makes of one item of the engine.
pub enum Step {
    /// The item is a record of the topic.
    Yield(SeqRecord),
    /// The item is not of the topic: go on to the next one.
    Skip,
    /// The engine has no more items.
    Done,
}

/// A forward scan over a topic. It keeps no state of its own: the position
/// is the engine's.
pub struct IteratorSingle {}

impl IteratorSingle {
    /// A scan that has not started.
    pub fn new() -> (r: IteratorSingle) {
        IteratorSingle {  }
    }

    /// The key to seek to before the first item: the topic prefix.
    pub fn start_key(&self) -> (r: Vec<u8>)
        ensures
            r@ == topic_prefix(),
    {
        topic_prefix_bytes()
    }

    /// Takes the item that the engine's iterator stands on, `None` where it
    /// stands on nothing. An entry with a topic key is yielded as a record;
    /// any other is passed over; with no item the scan is done.
    pub fn next(&mut self, item: Option<(&[u8], &[u8])>) -> (r: Step)
        ensures
            match item {
                Some((key, value)) => match topic_record(EntryView { key: key@, value: value@ }) {
                    Some(record) => r matches Step::Yield(got) && got@ == record,
                    None => r is Skip,
                },
                None => r is Done,
            },
    {
        match item {
            Some(_) => {
                let record = SeqRecord::from(item);
                if record.is_valid() {
                    Step::Yield(record)
                } else {
                    Step::Skip
                }
            },
            None => Step::Done,
        }
    }

    /// Scans a whole run of entries, as the engine hands them out in order.
    pub fn collect(&mut self, items: &Vec<Entry>) -> (r: Vec<SeqRecord>)
        ensures
            records_of(r@) == scan(entries_of(items@)),
    {
        let mut out: Vec<SeqRecord> = Vec::new();
        let mut i: usize = 0;
        assert(entries_of(items@).take(0) =~= Seq::<EntryView>::empty());
        assert(records_of(out@) =~= scan(entries_of(items@).take(0)));
        while i < items.len()
            invariant
                i <= items@.len(),
                records_of(out@) == scan(entries_of(items@).take(i as int)),
            decreases items@.len() - i,
        {
            let ghost before = records_of(out@);
            let step = self.next(Some((items[i].key.as_slice(), items[i].value.as_slice())));
            proof {
                lemma_scan_step(entries_of(items@), i as int);
            }
            match step {
                Step::Yield(record) => {
                    out.push(record);
                    assert(records_of(out@) =~= before.push(record@));
                },
                _ => {},
            }
            i += 1;
        }
        assert(entries_of(items@).take(i as int) =~= entries_of(items@));
        out
    }
}

/// One more entry adds its record to the scan, or nothing.
pub proof fn lemma_scan_step(items: Seq<EntryView>, i: int)
    requires
        0 <= i < items.len(),
    ensures
        scan(items.take(i + 1)) == match topic_record(items[i]) {
            Some(record) => scan(items.take(i)).push(record),
            None => scan(items.take(i)),
        },
{
    items.lemma_filter_map_take_succ(|e: EntryView| topic_record(e), i);
    match topic_record(items[i]) {
        Some(record) => {
            assert(scan(items.take(i)) + seq![record] =~= scan(items.take(i)).push(record));
        },
        None => {
            assert(scan(items.take(i)) + Seq::<RecordView>::empty() =~= scan(items.take(i)));
        },
    }
}

/// Each record of a scan is the record of one of the entries.
pub proof fn lemma_scan_origin(items: Seq<EntryView>, a: int) -> (i: int)
    requires
        0 <= a < scan(items).len(),
    ensures
        0 <= i < items.len(),
        topic_record(items[i]) == Some(scan(items)[a]),
    decreases items.len(),
{
    let n = items.len() as int;
    if n == 0 {
        0
    } else {
        let init = items.drop_last();
        lemma_scan_step(items, n - 1);
        assert(items.take(n) =~= items);
        assert(items.take(n - 1) =~= init);
        if topic_record(items[n - 1]) is Some && a == scan(init).len() {
            n - 1
        } else {
            let i = lemma_scan_origin(init, a);
            assert(init[i] == items[i]);
            i
        }
    }
}

/// The scan of two runs of entries, one after the other, is the scan of the
/// first followed by the scan of the second.
pub proof fn lemma_scan_concat(a: Seq<EntryView>, b: Seq<EntryView>)
    ensures
        scan(a + b) == scan(a) + scan(b),
    decreases b.len(),
{
    if b.len() == 0 {
        assert(a + b =~= a);
        assert(scan(a) + scan(b) =~= scan(a));
    } else {
        let ab = a + b;
        let n = ab.len() as int;
        let m = b.len() as int;
        lemma_scan_concat(a, b.drop_last());
        lemma_scan_step(ab, n - 1);
        lemma_scan_step(b, m - 1);
        assert(ab.take(n) =~= ab);
        assert(ab.take(n - 1) =~= a + b.drop_last());
        assert(b.take(m) =~= b);
        assert(b.take(m - 1) =~= b.drop_last());
        assert(ab[n - 1] == b[m - 1]);
        assert(scan(a + b) =~= scan(a) + scan(b));
    }
}

/// The entries stand in strictly ascending bytewise order of their keys, as
/// the engine hands them out.
pub open spec fn keys_ascending(items: Seq<EntryView>) -> bool {
    forall|i: int, j: int|
        0 <= i < j < items.len() ==> lex_lt((#[trigger] items[i]).key, (#[trigger] items[j]).key)
}

/// The records are valid and stand in strictly increasing order of their
/// identifiers' numbers.
pub open spec fn ids_ascending(records: Seq<RecordView>) -> bool {
    &&& forall|a: int| 0 <= a < records.len() ==> (#[trigger] records[a]).key.valid
    &&& forall|a: int, b: int|
        0 <= a < b < records.len() ==> be_value((#[trigger] records[a]).key.bytes) < be_value(
            (#[trigger] records[b]).key.bytes,
        )
}

/// Two topic keys in bytewise order spell identifiers in numeric order.
pub proof fn lemma_topic_keys_order(x: Seq<u8>, y: Seq<u8>)
    requires
        is_topic_key(x),
        is_topic_key(y),
    ensures
        lex_lt(x, y) <==> be_value(parse_text(topic_prefix(), x).bytes) < be_value(
            parse_text(topic_prefix(), y).bytes,
        ),
{
    lemma_encode_parse(topic_prefix(), x);
    lemma_encode_parse(topic_prefix(), y);
    lemma_text_order(
        topic_prefix(),
        parse_text(topic_prefix(), x).bytes,
        parse_text(topic_prefix(), y).bytes,
    );
}

/// Read from entries in ascending key order, the records of a scan are in
/// strictly increasing order of their identifiers.
pub proof fn law_scan_ascending(items: Seq<EntryView>)
    requires
        keys_ascending(items),
    ensures
        ids_ascending(scan(items)),
{
    let records = scan(items);
    assert forall|a: int| 0 <= a < records.len() implies (#[trigger] records[a]).key.valid by {
        let i = lemma_scan_origin(items, a);
    }
    assert forall|a: int, b: int| 0 <= a < b < records.len() implies be_value(
        (#[trigger] records[a]).key.bytes,
    ) < be_value((#[trigger] records[b]).key.bytes) by {
        lemma_scan_order(items, a, b);
    }
}

/// Of two records of a scan, the later one is of a later entry.
proof fn lemma_scan_order(items: Seq<EntryView>, a: int, b: int)
    requires
        keys_ascending(items),
        0 <= a < b < scan(items).len(),
    ensures
        be_value(scan(items)[a].key.bytes) < be_value(scan(items)[b].key.bytes),
    decreases items.len(),
{
    let n = items.len() as int;
    if n > 0 {
        let init = items.drop_last();
        lemma_scan_step(items, n - 1);
        assert(items.take(n) =~= items);
        assert(items.take(n - 1) =~= init);
        assert forall|i: int, j: int| 0 <= i < j < init.len() implies lex_lt(
            (#[trigger] init[i]).key,
            (#[trigger] init[j]).key,
        ) by {
            assert(init[i] == items[i] && init[j] == items[j]);
        }
        if b < scan(init).len() {
            lemma_scan_order(init, a, b);
        } else {
            let i = lemma_scan_origin(init, a);
            assert(init[i] == items[i]);
            assert(lex_lt(items[i].key, items[n - 1].key));
            lemma_topic_keys_order(items[i].key, items[n - 1].key);
        }
    }
}

/// An entry whose key is not a topic key, put anywhere among the entries,
/// changes nothing of what a scan yields.
pub proof fn law_scan_fenced(items: Seq<EntryView>, at: int, other: EntryView)
    requires
        0 <= at <= items.len(),
        !is_topic_key(other.key),
    ensures
        scan(items.insert(at, other)) == scan(items),
{
    let head = items.take(at);
    let tail = items.skip(at);
    assert(items.insert(at, other) =~= (head + seq![other]) + tail);
    assert(items =~= head + tail);
    lemma_scan_concat(head + seq![other], tail);
    lemma_scan_concat(head, seq![other]);
    lemma_scan_concat(head, tail);
    lemma_scan_step(seq![other], 0);
    assert(seq![other].take(1) =~= seq![other]);
    assert(seq![other].take(0) =~= Seq::<EntryView>::empty());
    assert(scan(head) + Seq::<RecordView>::empty() =~= scan(head));
}

} // verus!
