use std::collections::BTreeMap;

use structdb::errors::Error;
use structdb::id::StreamID;
use structdb::iterator_batch::{IteratorBatch, WindowAction, WindowState};
use structdb::iterator_single::{IteratorSingle, Step};
use structdb::record::{Entry, SeqRecord};
use structdb::serialization::BinCode;
use structdb::topic::{
    iter_key_bytes, last_key_bytes, topic_prefix_bytes, TopicImpl, TOPIC_ITERATOR_KEY_PREFIX,
    TOPIC_KEY_PREFIX, TOPIC_LAST_INSERT_KEY,
};
use structdb::window::SlideWindow;
use structdb::writer::{WriteBuffer, FLUSH_THRESHOLD};

/// An ordered map of byte strings that stands in for one column family.
struct Family {
    entries: BTreeMap<Vec<u8>, Vec<u8>>,
    fail_writes: bool,
}

impl Family {
    fn new() -> Family {
        Family { entries: BTreeMap::new(), fail_writes: false }
    }

    fn put(&mut self, key: &[u8], value: &[u8]) -> Result<(), Error> {
        if self.fail_writes {
            return Err(Error::DbError("write refused".to_string()));
        }
        self.entries.insert(key.to_vec(), value.to_vec());
        Ok(())
    }

    fn get(&self, key: &[u8]) -> Option<Vec<u8>> {
        self.entries.get(key).cloned()
    }

    fn write(&mut self, batch: &[Entry]) -> Result<(), Error> {
        if self.fail_writes {
            return Err(Error::DbError("write refused".to_string()));
        }
        for entry in batch {
            self.entries.insert(entry.key.clone(), entry.value.clone());
        }
        Ok(())
    }

    fn seek(&self, from: &[u8]) -> Vec<Entry> {
        self.entries
            .range(from.to_vec()..)
            .map(|(key, value)| Entry { key: key.clone(), value: value.clone() })
            .collect()
    }

    fn keys(&self) -> Vec<Vec<u8>> {
        self.entries.keys().cloned().collect()
    }
}

fn open_topic(family: &Family) -> TopicImpl {
    let marker = family.get(&last_key_bytes());
    let start = TopicImpl::scan_start(marker.as_deref());
    let keys: Vec<Vec<u8>> = family.seek(&start).into_iter().map(|e| e.key).collect();
    TopicImpl::new(&keys)
}

fn append(family: &mut Family, topic: &mut TopicImpl, value: &Vec<u8>) -> Result<SeqRecord, Error> {
    let appended = topic.append(value);
    if let Some(batch) = appended.batch {
        let outcome = family.write(&batch);
        topic.flushed(outcome)?;
    }
    Ok(appended.record)
}

fn flush(family: &mut Family, topic: &mut TopicImpl) -> Result<(), Error> {
    match topic.flush(true) {
        Some(batch) => {
            let outcome = family.write(&batch);
            topic.flushed(outcome)
        }
        None => Ok(()),
    }
}

fn open_window(family: &Family, topic: &TopicImpl, name: &str, batch_size: usize) -> IteratorBatch {
    let stored = family.get(&iter_key_bytes(name.as_bytes()));
    topic.window(name, batch_size, stored.as_deref())
}

fn window_next(family: &mut Family, iter: &mut IteratorBatch) -> Result<Vec<SeqRecord>, Error> {
    let items = family.seek(&iter.start_key());
    let mut action = iter.begin();
    let mut at = 0;
    loop {
        match action {
            WindowAction::Pull => {
                let item = items.get(at).map(|e| (&e.key[..], &e.value[..]));
                at += 1;
                action = iter.offer(item);
            }
            WindowAction::Persist(entry) => {
                let outcome = family.put(&entry.key, &entry.value);
                return iter.persisted(outcome);
            }
            WindowAction::Empty => return Ok(vec![]),
        }
    }
}

fn tail_distance(family: &Family, topic: &TopicImpl, iter: &IteratorBatch) -> u128 {
    let stored = family.get(&iter.cursor_key());
    iter.tail_distance(&topic.next_insert(), stored.as_deref())
}

fn slide_next(
    family: &mut Family,
    topic: &TopicImpl,
    window: &mut SlideWindow,
    name: &str,
) -> Option<Vec<SeqRecord>> {
    let stored = family.get(&iter_key_bytes(name.as_bytes()));
    let probe = topic.window(name, 0, stored.as_deref());
    let distance = probe.tail_distance(&topic.next_insert(), stored.as_deref());
    let items = family.seek(&window.start_key());
    let mut action = window.begin(distance)?;
    let mut at = 0;
    loop {
        match action {
            WindowAction::Pull => {
                let item = items.get(at).map(|e| (&e.key[..], &e.value[..]));
                at += 1;
                action = window.offer(item)?;
            }
            WindowAction::Persist(entry) => {
                let outcome = family.put(&entry.key, &entry.value);
                return window.persisted(outcome).ok();
            }
            WindowAction::Empty => return Some(vec![]),
        }
    }
}

fn single_scan(family: &Family, topic: &TopicImpl) -> Vec<SeqRecord> {
    let mut iter = topic.iter();
    let items = family.seek(&iter.start_key());
    let mut out = vec![];
    let mut at = 0;
    loop {
        let item = items.get(at).map(|e| (&e.key[..], &e.value[..]));
        at += 1;
        match iter.next(item) {
            Step::Yield(record) => out.push(record),
            Step::Skip => {}
            Step::Done => return out,
        }
    }
}

fn value(i: usize) -> Vec<u8> {
    format!("topic-value-{}", i).to_bytes().unwrap()
}

#[test]
fn key_layout() {
    assert_eq!(TOPIC_ITERATOR_KEY_PREFIX, "iter");
    assert_eq!(TOPIC_KEY_PREFIX, "topic");
    assert_eq!(TOPIC_LAST_INSERT_KEY, "last");
    assert_eq!(topic_prefix_bytes(), b"topic:".to_vec());
    assert_eq!(last_key_bytes(), b"last".to_vec());
    assert_eq!(iter_key_bytes(b"iter1"), b"iter:iter1".to_vec());
    assert_eq!(iter_key_bytes(b""), b"iter:".to_vec());
    assert_eq!(FLUSH_THRESHOLD, 64512);
}

#[test]
fn test_topic_write() {
    let mut family = Family::new();
    let mut topic = open_topic(&family);

    let value = "topic-value-1".to_string().to_bytes().unwrap();
    let result = append(&mut family, &mut topic, &value);
    assert!(result.is_ok());
    let record = result.unwrap();
    assert!(record.is_valid());
    assert_eq!(record.key.to_u128(), 1);
    assert_eq!(record.value, value);
}

#[test]
fn test_topic_write_continuously() {
    let mut family = Family::new();

    {
        let mut topic = open_topic(&family);

        for i in 0..100 {
            let value = format!("topic-value-{}", i).to_bytes().unwrap();
            let result = append(&mut family, &mut topic, &value);
            assert!(result.is_ok());

            let record = result.unwrap();
            assert!(record.is_valid());
        }
        flush(&mut family, &mut topic).unwrap();
    }

    {
        let mut topic = open_topic(&family);

        for i in 100..200 {
            let value = format!("topic-value-{}", i).to_bytes().unwrap();
            let result = append(&mut family, &mut topic, &value);
            assert!(result.is_ok());

            let record = result.unwrap();
            assert!(record.is_valid());
        }
        flush(&mut family, &mut topic).unwrap();
    }

    {
        let topic = open_topic(&family);
        let mut iter = open_window(&family, &topic, "iter1", 10);

        let mut count = 0;
        loop {
            let batch = window_next(&mut family, &mut iter).unwrap();
            if batch.is_empty() {
                break;
            }
            assert!(batch.len() == 10 || batch.len() == 1);

            for record in batch.iter() {
                let view = String::from_bytes(record.value.clone().as_mut_slice()).unwrap();
                let received = format!("topic-value-{}", count);
                assert_eq!(received, view);
                count += 1;
            }
        }
        assert_eq!(count, 200);
    }
}

#[test]
fn test_topic_read() {
    let mut family = Family::new();
    let mut topic = open_topic(&family);

    for i in 0..101 {
        let value = format!("topic-value-{}", i).to_bytes().unwrap();
        let result = append(&mut family, &mut topic, &value);
        assert!(result.is_ok());

        let record = result.unwrap();
        assert!(record.is_valid());
    }
    flush(&mut family, &mut topic).unwrap();

    {
        let mut count = 0;
        for entry in family.seek(b"topic") {
            let record = SeqRecord::from(Some((&entry.key[..], &entry.value[..])));
            assert!(record.is_valid());
            count += 1;
        }
        assert_eq!(count, 101);
    }

    {
        let mut iter = open_window(&family, &topic, "iter1", 10);

        let mut count = 0;
        loop {
            let batch = window_next(&mut family, &mut iter).unwrap();
            assert!(batch.len() == 10 || batch.len() == 1);

            for record in batch.iter() {
                let view = String::from_bytes(record.value.clone().as_mut_slice()).unwrap();
                let received = format!("topic-value-{}", count);
                assert_eq!(received, view);
                count += 1;
            }

            if count == 50 {
                break;
            }
        }
        assert_eq!(count, 50);
        assert_eq!(tail_distance(&family, &topic, &iter), 51);

        let mut iter2 = open_window(&family, &topic, "iter1", 10);

        loop {
            let batch = window_next(&mut family, &mut iter2).unwrap();
            assert!(batch.len() == 10 || batch.len() == 1);

            for record in batch.iter() {
                let view = String::from_bytes(record.value.clone().as_mut_slice()).unwrap();
                let received = format!("topic-value-{}", count);
                assert_eq!(received, view);
                count += 1;
            }

            if batch.is_empty() || batch.len() < 10 {
                break;
            }
        }
        assert_eq!(count, 101);
        assert_eq!(tail_distance(&family, &topic, &iter), 0);

        let mut iter3 = open_window(&family, &topic, "iter1", 10);

        let batch = window_next(&mut family, &mut iter3).unwrap();
        assert!(batch.len() == 0);
        assert_eq!(tail_distance(&family, &topic, &iter), 0);
    }

    {
        let mut expected = 1;
        for item in single_scan(&family, &topic) {
            let record = item;
            assert!(record.is_valid());
            assert_eq!(record.key.to_u128(), expected);
            expected += 1;
        }
        assert_eq!(expected, 102);
    }
}

#[test]
fn basic_append_and_read_back() {
    let mut family = Family::new();
    let mut topic = open_topic(&family);
    for i in 0..=100 {
        let payload = format!("topic-value-{}", i).into_bytes();
        let record = append(&mut family, &mut topic, &payload).unwrap();
        assert_eq!(record.key.to_u128(), i as u128 + 1);
    }
    assert!(single_scan(&family, &topic).is_empty());
    flush(&mut family, &mut topic).unwrap();
    let records = single_scan(&family, &topic);
    assert_eq!(records.len(), 101);
    for (i, record) in records.iter().enumerate() {
        assert_eq!(record.value, format!("topic-value-{}", i).into_bytes());
        assert_eq!(record.key.to_u128(), i as u128 + 1);
    }
    assert_eq!(
        family.get(b"last").unwrap(),
        b"topic:000000000000000000000000000000000000000000000101".to_vec()
    );
    let mut copy = IteratorSingle::new();
    let all = copy.collect(&family.seek(b""));
    assert_eq!(all, records);
}

#[test]
fn durable_resume() {
    let mut family = Family::new();
    {
        let mut topic = open_topic(&family);
        for i in 1..=100 {
            append(&mut family, &mut topic, &value(i)).unwrap();
        }
        flush(&mut family, &mut topic).unwrap();
        let mut iter = open_window(&family, &topic, "iter1", 10);
        for batch_no in 0..5 {
            let batch = window_next(&mut family, &mut iter).unwrap();
            assert_eq!(batch.len(), 10);
            assert_eq!(batch[0].key.to_u128(), batch_no * 10 + 1);
        }
        assert_eq!(
            family.get(b"iter:iter1").unwrap(),
            b"topic:000000000000000000000000000000000000000000000050".to_vec()
        );
    }
    {
        let topic = open_topic(&family);
        assert_eq!(topic.next_insert().to_u128(), 101);
        let mut iter = open_window(&family, &topic, "iter1", 10);
        assert_eq!(
            iter.start_key(),
            b"topic:000000000000000000000000000000000000000000000051".to_vec()
        );
        let mut seen = vec![];
        loop {
            let batch = window_next(&mut family, &mut iter).unwrap();
            if batch.is_empty() {
                break;
            }
            for record in batch {
                seen.push(record.key.to_u128());
                assert_eq!(record.value, value(record.key.to_u128() as usize));
            }
        }
        assert_eq!(seen, (51..=100).collect::<Vec<u128>>());
        assert!(window_next(&mut family, &mut iter).unwrap().is_empty());
        assert_eq!(iter.current_state(), WindowState::Exhausted);
    }
}

#[test]
fn sliding_window_completeness() {
    let mut family = Family::new();
    let mut topic = open_topic(&family);
    for i in 0..101 {
        append(&mut family, &mut topic, &value(i)).unwrap();
    }
    flush(&mut family, &mut topic).unwrap();
    let mut window = SlideWindow::new(10, open_window(&family, &topic, "slide", 3));
    let mut total = 0;
    for n in 0..10 {
        let batch = slide_next(&mut family, &topic, &mut window, "slide").unwrap();
        assert_eq!(batch.len(), 10);
        assert_eq!(batch[0].key.to_u128(), n * 10 + 1);
        total += batch.len();
    }
    assert_eq!(total, 100);
    assert!(slide_next(&mut family, &topic, &mut window, "slide").is_none());
    assert!(slide_next(&mut family, &topic, &mut window, "slide").is_none());
    assert_eq!(
        family.get(b"iter:slide").unwrap(),
        b"topic:000000000000000000000000000000000000000000000100".to_vec()
    );
    for i in 101..110 {
        append(&mut family, &mut topic, &value(i)).unwrap();
    }
    flush(&mut family, &mut topic).unwrap();
    let batch = slide_next(&mut family, &topic, &mut window, "slide").unwrap();
    assert_eq!(batch.len(), 10);
    assert_eq!(batch[0].key.to_u128(), 101);
    assert_eq!(batch[9].key.to_u128(), 110);
}

#[test]
fn sliding_window_never_hands_out_a_partial_window() {
    let mut family = Family::new();
    let mut topic = open_topic(&family);
    for i in 0..4 {
        append(&mut family, &mut topic, &value(i)).unwrap();
    }
    flush(&mut family, &mut topic).unwrap();
    let mut window = SlideWindow::new(3, open_window(&family, &topic, "w", 3));
    assert!(window.begin(2).is_none());
    assert_eq!(window.current_state(), WindowState::Idle);
    let items = family.seek(&window.start_key());
    assert!(matches!(window.begin(4), Some(WindowAction::Pull)));
    assert!(matches!(
        window.offer(Some((&items[0].key[..], &items[0].value[..]))),
        Some(WindowAction::Pull)
    ));
    assert!(window.offer(Some((&b"zzz"[..], &b""[..]))).is_none());
    assert_eq!(window.current_state(), WindowState::Idle);
    assert!(family.get(b"iter:w").is_none());
    assert!(matches!(window.begin(3), Some(WindowAction::Pull)));
    assert!(window.offer(None).is_none());
    assert_eq!(window.current_state(), WindowState::Exhausted);
    let mut empty = SlideWindow::new(0, open_window(&family, &topic, "none", 1));
    assert!(matches!(empty.begin(0), Some(WindowAction::Empty)));
}

#[test]
fn prefix_fencing() {
    let mut family = Family::new();
    let mut topic = open_topic(&family);
    family.put(b"random-start", b"x").unwrap();
    for i in 0..1000 {
        let payload = format!("value_{}", i).into_bytes();
        append(&mut family, &mut topic, &payload).unwrap();
        flush(&mut family, &mut topic).unwrap();
        family.put(format!("random{}", i).as_bytes(), b"x").unwrap();
    }
    family.put(b"random-end", b"x").unwrap();
    let records = single_scan(&family, &topic);
    assert_eq!(records.len(), 1000);
    for (i, record) in records.iter().enumerate() {
        assert_eq!(record.value, format!("value_{}", i).into_bytes());
    }
}

#[test]
fn single_iterator_passes_over_other_keys() {
    let mut family = Family::new();
    let mut topic = open_topic(&family);
    for i in 0..5 {
        append(&mut family, &mut topic, &value(i)).unwrap();
    }
    flush(&mut family, &mut topic).unwrap();
    let before = single_scan(&family, &topic);
    assert_eq!(before.len(), 5);
    family.put(b"iter:iter1", b"topic:000000000000000000000000000000000000000000000003").unwrap();
    family.put(b"foo", b"bar").unwrap();
    family.put(b"topic:000000000000000000000000000000000000000000000002x", b"odd").unwrap();
    family.put(b"topic:00000000000000000000000000000000000000000000000z", b"odd").unwrap();
    family.put(b"topic:", b"odd").unwrap();
    family.put(b"zzz", b"odd").unwrap();
    assert_eq!(single_scan(&family, &topic), before);
    let mut iter = IteratorSingle::new();
    assert_eq!(iter.collect(&family.seek(b"")), before);
    assert!(matches!(iter.next(None), Step::Done));
    assert!(matches!(iter.next(Some((&b"foo"[..], &b"bar"[..]))), Step::Skip));
}

#[test]
fn window_iterator_stops_at_other_keys() {
    let mut family = Family::new();
    let mut topic = open_topic(&family);
    for i in 0..5 {
        append(&mut family, &mut topic, &value(i)).unwrap();
    }
    flush(&mut family, &mut topic).unwrap();
    family.put(b"topic:000000000000000000000000000000000000000000000002x", b"odd").unwrap();
    let mut iter = open_window(&family, &topic, "w", 10);
    let batch = window_next(&mut family, &mut iter).unwrap();
    assert_eq!(batch.len(), 2);
    assert_eq!(iter.current_state(), WindowState::Idle);
    let again = window_next(&mut family, &mut iter).unwrap();
    assert_eq!(again.len(), 3);
    assert_eq!(again[0].key.to_u128(), 3);
    let mut drained = open_window(&family, &topic, "fresh", 10);
    assert!(matches!(drained.begin(), WindowAction::Pull));
    let action = drained.drain(&family.seek(&drained.start_key()));
    assert!(matches!(action, WindowAction::Persist(_)));
    assert_eq!(drained.pending(), 2);
    assert_eq!(drained.current_state(), WindowState::Committing);
}

#[test]
fn empty_topic() {
    let mut family = Family::new();
    let topic = open_topic(&family);
    assert_eq!(topic.next_insert(), StreamID::default());
    let mut iter = open_window(&family, &topic, "iter1", 10);
    assert_eq!(iter.start_key(), b"topic:".to_vec());
    assert_eq!(tail_distance(&family, &topic, &iter), 0);
    let batch = window_next(&mut family, &mut iter).unwrap();
    assert!(batch.is_empty());
    assert_eq!(iter.current_state(), WindowState::Exhausted);
    assert_eq!(tail_distance(&family, &topic, &iter), 0);
    assert!(family.keys().is_empty());
    assert!(single_scan(&family, &topic).is_empty());
    let mut window = SlideWindow::new(1, open_window(&family, &topic, "iter1", 1));
    assert!(slide_next(&mut family, &topic, &mut window, "iter1").is_none());
}

#[test]
fn tail_distance_back_pressure() {
    let mut family = Family::new();
    let mut topic = open_topic(&family);
    for i in 0..101 {
        append(&mut family, &mut topic, &value(i)).unwrap();
    }
    let mut iter = open_window(&family, &topic, "iter1", 10);
    assert_eq!(tail_distance(&family, &topic, &iter), 0);
    flush(&mut family, &mut topic).unwrap();
    assert_eq!(tail_distance(&family, &topic, &iter), 101);
    for _ in 0..5 {
        assert_eq!(window_next(&mut family, &mut iter).unwrap().len(), 10);
    }
    assert_eq!(tail_distance(&family, &topic, &iter), 51);
    let mut left = 0;
    loop {
        let batch = window_next(&mut family, &mut iter).unwrap();
        if batch.is_empty() {
            break;
        }
        left += batch.len();
    }
    assert_eq!(left, 51);
    assert_eq!(tail_distance(&family, &topic, &iter), 0);
    assert!(window_next(&mut family, &mut iter).unwrap().is_empty());
    assert_eq!(tail_distance(&family, &topic, &iter), 0);
    assert_eq!(iter.tail_distance(&StreamID::default(), Some(&b"garbage"[..])), 0);
    assert_eq!(iter.tail_distance(&topic.next_insert(), Some(&b"garbage"[..])), 101);
}

#[test]
fn flush_threshold() {
    let mut family = Family::new();
    let mut topic = TopicImpl::with_threshold(&vec![], 100);
    let first = topic.append(&vec![7u8; 60]);
    assert!(first.batch.is_none());
    let second = topic.append(&vec![8u8; 39]);
    assert!(second.batch.is_none());
    assert_eq!(topic.pending(), 2);
    assert!(topic.flush(false).is_none());
    assert!(family.keys().is_empty());
    let third = topic.append(&vec![9u8; 1]);
    let batch = third.batch.unwrap();
    assert_eq!(batch.len(), 4);
    assert_eq!(batch[0].key, b"topic:000000000000000000000000000000000000000000000001".to_vec());
    assert_eq!(batch[0].value, vec![7u8; 60]);
    assert_eq!(batch[1].key, b"topic:000000000000000000000000000000000000000000000002".to_vec());
    assert_eq!(batch[1].value, vec![8u8; 39]);
    assert_eq!(batch[2].key, b"topic:000000000000000000000000000000000000000000000003".to_vec());
    assert_eq!(batch[2].value, vec![9u8; 1]);
    assert_eq!(batch[3].key, b"last".to_vec());
    assert_eq!(batch[3].value, b"topic:000000000000000000000000000000000000000000000003".to_vec());
    assert_eq!(first.record.key.to_u128(), 1);
    assert_eq!(second.record.key.to_u128(), 2);
    assert_eq!(third.record.key.to_u128(), 3);
    family.write(&batch).unwrap();
    topic.flushed(Ok(())).unwrap();
    assert_eq!(topic.pending(), 0);
    assert_eq!(topic.next_insert().to_u128(), 4);
    let fourth = topic.append(&vec![1u8; 100]);
    assert_eq!(fourth.batch.unwrap().len(), 2);
    let default_topic = TopicImpl::new(&vec![]);
    assert!(default_topic.flush(false).is_none());
    let forced = default_topic.flush(true).unwrap();
    assert_eq!(forced.len(), 1);
    assert_eq!(forced[0].key, b"last".to_vec());
    assert_eq!(forced[0].value, b"topic:000000000000000000000000000000000000000000000000".to_vec());
}

#[test]
fn default_threshold_is_64512_bytes() {
    let mut topic = TopicImpl::new(&vec![]);
    assert!(topic.append(&vec![0u8; 64511]).batch.is_none());
    let crossing = topic.append(&vec![0u8; 1]);
    assert_eq!(crossing.batch.unwrap().len(), 3);
    let mut buffer = WriteBuffer::new(StreamID::metadata());
    let key = buffer.add(&vec![0u8; 64512]);
    assert_eq!(key.to_u128(), 1);
    assert!(buffer.is_due());
    assert_eq!(buffer.buffer_size(), 64512);
    assert_eq!(buffer.len(), 1);
    assert_eq!(buffer.last_insert().to_u128(), 0);
}

#[test]
fn failed_flush_keeps_the_buffer() {
    let mut family = Family::new();
    let mut topic = TopicImpl::with_threshold(&vec![], 10);
    family.fail_writes = true;
    let result = append(&mut family, &mut topic, &vec![1u8; 10]);
    assert_eq!(result, Err(Error::DbError("write refused".to_string())));
    assert_eq!(topic.pending(), 1);
    assert_eq!(topic.next_insert().to_u128(), 1);
    assert!(family.keys().is_empty());
    family.fail_writes = false;
    flush(&mut family, &mut topic).unwrap();
    assert_eq!(topic.pending(), 0);
    assert_eq!(topic.next_insert().to_u128(), 2);
    let records = single_scan(&family, &topic);
    assert_eq!(records.len(), 1);
    assert_eq!(records[0].key.to_u128(), 1);
    assert_eq!(records[0].value, vec![1u8; 10]);
}

#[test]
fn failed_cursor_write_does_not_move_the_cursor() {
    let mut family = Family::new();
    let mut topic = open_topic(&family);
    for i in 0..25 {
        append(&mut family, &mut topic, &value(i)).unwrap();
    }
    flush(&mut family, &mut topic).unwrap();
    let mut iter = open_window(&family, &topic, "iter1", 10);
    assert_eq!(window_next(&mut family, &mut iter).unwrap().len(), 10);
    family.fail_writes = true;
    let failed = window_next(&mut family, &mut iter);
    assert_eq!(failed, Err(Error::DbError("write refused".to_string())));
    assert_eq!(iter.current_state(), WindowState::Draining);
    assert_eq!(iter.pending(), 0);
    assert_eq!(
        family.get(b"iter:iter1").unwrap(),
        b"topic:000000000000000000000000000000000000000000000010".to_vec()
    );
    assert_eq!(
        iter.start_key(),
        b"topic:000000000000000000000000000000000000000000000011".to_vec()
    );
    family.fail_writes = false;
    let retried = window_next(&mut family, &mut iter).unwrap();
    assert_eq!(retried.len(), 10);
    assert_eq!(retried[0].key.to_u128(), 11);
    let mut cursors = vec![];
    loop {
        let batch = window_next(&mut family, &mut iter).unwrap();
        if batch.is_empty() {
            break;
        }
        cursors.push(StreamID::from_key(b"topic:", &family.get(b"iter:iter1").unwrap()).to_u128());
    }
    assert_eq!(cursors, vec![25]);
}

#[test]
fn abandoned_batch_is_delivered_again() {
    let mut family = Family::new();
    let mut topic = open_topic(&family);
    for i in 0..3 {
        append(&mut family, &mut topic, &value(i)).unwrap();
    }
    flush(&mut family, &mut topic).unwrap();
    let mut iter = open_window(&family, &topic, "iter1", 2);
    let items = family.seek(&iter.start_key());
    assert!(matches!(iter.begin(), WindowAction::Pull));
    assert!(matches!(iter.offer(Some((&items[0].key[..], &items[0].value[..]))), WindowAction::Pull));
    iter.abandon();
    assert_eq!(iter.current_state(), WindowState::Idle);
    assert_eq!(iter.pending(), 0);
    let batch = window_next(&mut family, &mut iter).unwrap();
    assert_eq!(batch.len(), 2);
    assert_eq!(batch[0].key.to_u128(), 1);
    assert_eq!(iter.batch_size(), 2);
    assert_eq!(iter.get_name(), "iter1");
}

#[test]
fn zero_sized_batches_are_empty() {
    let mut family = Family::new();
    let mut topic = open_topic(&family);
    append(&mut family, &mut topic, &value(0)).unwrap();
    flush(&mut family, &mut topic).unwrap();
    let mut iter = open_window(&family, &topic, "z", 0);
    assert!(matches!(iter.begin(), WindowAction::Empty));
    assert_eq!(iter.current_state(), WindowState::Idle);
    assert!(family.get(b"iter:z").is_none());
}

#[test]
fn reopening_continues_after_the_largest_key() {
    let mut family = Family::new();
    {
        let mut topic = open_topic(&family);
        for i in 0..7 {
            append(&mut family, &mut topic, &value(i)).unwrap();
        }
        flush(&mut family, &mut topic).unwrap();
        append(&mut family, &mut topic, &value(7)).unwrap();
    }
    let topic = open_topic(&family);
    assert_eq!(topic.next_insert().to_u128(), 8);
    let shuffled = vec![
        b"topic:000000000000000000000000000000000000000000000009".to_vec(),
        b"zzz".to_vec(),
        b"topic:000000000000000000000000000000000000000000001000".to_vec(),
        b"topic:999".to_vec(),
        b"topic:000000000000000000000000000000000000000000000003".to_vec(),
        b"last".to_vec(),
    ];
    assert_eq!(TopicImpl::new(&shuffled).next_insert().to_u128(), 256 + 1);
    assert_eq!(TopicImpl::new(&vec![b"iter:a".to_vec()]).next_insert().to_u128(), 1);
    assert_eq!(TopicImpl::scan_start(None), b"topic:".to_vec());
    assert_eq!(TopicImpl::scan_start(Some(&b"junk"[..])), b"topic:".to_vec());
    assert_eq!(
        TopicImpl::scan_start(Some(&b"topic:000000000000000000000000000000000000000000000007"[..])),
        b"topic:000000000000000000000000000000000000000000000007".to_vec()
    );
}

#[test]
fn single_iterator_yields_strictly_increasing_identifiers() {
    let mut family = Family::new();
    let mut topic = TopicImpl::with_threshold(&vec![], 64);
    for i in 0..700 {
        append(&mut family, &mut topic, &value(i)).unwrap();
    }
    flush(&mut family, &mut topic).unwrap();
    let records = single_scan(&family, &topic);
    assert_eq!(records.len(), 700);
    for pair in records.windows(2) {
        assert!(pair[0].key.to_u128() < pair[1].key.to_u128());
        assert_eq!(pair[0].key.to_u128() + 1, pair[1].key.to_u128());
    }
    let keys = family.keys();
    let mut sorted = keys.clone();
    sorted.sort();
    assert_eq!(keys, sorted);
}

#[test]
fn committed_cursor_never_goes_back() {
    let mut family = Family::new();
    let mut topic = open_topic(&family);
    for i in 0..95 {
        append(&mut family, &mut topic, &value(i)).unwrap();
    }
    flush(&mut family, &mut topic).unwrap();
    let mut iter = open_window(&family, &topic, "iter1", 7);
    let mut last_cursor = 0u128;
    let mut calls = 0;
    loop {
        if calls % 3 == 1 {
            family.fail_writes = true;
            assert!(window_next(&mut family, &mut iter).is_err());
            family.fail_writes = false;
        }
        let batch = window_next(&mut family, &mut iter).unwrap();
        calls += 1;
        if batch.is_empty() {
            break;
        }
        let stored = family.get(b"iter:iter1").unwrap();
        let cursor = StreamID::from_key(b"topic:", &stored);
        assert!(cursor.valid);
        assert!(cursor.to_u128() > last_cursor);
        assert_eq!(cursor, batch[batch.len() - 1].key);
        last_cursor = cursor.to_u128();
    }
    assert_eq!(last_cursor, 95);
    assert_eq!(calls, 15);
}
