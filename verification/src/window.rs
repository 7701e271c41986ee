//! The sliding window: a window iterator that hands out complete batches
//! only, and holds back while the writer is less than a window ahead.

use vstd::prelude::*;
use crate::errors::Error;
use crate::iterator_batch::{
    IteratorBatch,
    WindowAction,
    WindowState,
    cursor_entry,
    offered,
};
use crate::record::{RecordView, SeqRecord, records_of};

verus! {

/// Windows of exactly `size` records over a topic.
pub struct SlideWindow {
    size: u32,
    iterator: IteratorBatch,
}

impl SlideWindow {
    /// The number of records in a window.
    pub closed spec fn width(&self) -> nat {
        self.size as nat
    }

    /// The window iterator underneath.
    pub closed spec fn inner(&self) -> IteratorBatch {
        self.iterator
    }

    /// The window's invariant: the iterator underneath takes batches of the
    /// window's size, and stores a cursor for a complete window only.
    pub closed spec fn wf(&self) -> bool {
        &&& self.iterator.wf()
        &&& self.iterator.limit() == self.size
        &&& self.iterator.state() == WindowState::Committing ==> self.iterator.batch().len()
            == self.size
    }

    /// A sliding window of `size` records over `iterator`, which keeps its
    /// name and its cursor and is put between calls.
    pub fn new(size: u32, iterator: IteratorBatch) -> (r: SlideWindow)
        ensures
            r.wf(),
            r.width() == size,
            r.inner().name() == iterator.name(),
            r.inner().cursor() == iterator.cursor(),
            r.inner().state() == WindowState::Idle,
            r.inner().batch() == Seq::<RecordView>::empty(),
    {
        SlideWindow { size, iterator: iterator.resized(size as usize) }
    }

    /// The state of the iterator underneath.
    pub fn current_state(&self) -> (r: WindowState)
        ensures
            r == self.inner().state(),
    {
        self.iterator.current_state()
    }

    /// The key at which the engine's iterator is to be placed before the
    /// first pull of a window.
    pub fn start_key(&self) -> (r: Vec<u8>)
        ensures
            r@ == crate::iterator_batch::seek_key(self.inner().cursor()),
    {
        self.iterator.start_key()
    }

    /// Starts a call of `next`. `tail_distance` is what the iterator
    /// underneath reports. Where it is less than the window's size there is
    /// no window and nothing starts; otherwise the first item is asked for
    /// (a window of size 0 is complete at once).
    pub fn begin(&mut self, tail_distance: u128) -> (r: Option<WindowAction>)
        requires
            old(self).wf(),
            old(self).inner().state() != WindowState::Committing,
        ensures
            final(self).wf(),
            final(self).width() == old(self).width(),
            final(self).inner().name() == old(self).inner().name(),
            final(self).inner().cursor() == old(self).inner().cursor(),
            r is None <==> tail_distance < old(self).width(),
            r is None ==> final(self).inner() == old(self).inner(),
            r matches Some(action) ==> {
                &&& final(self).inner().batch() == Seq::<RecordView>::empty()
                &&& old(self).width() == 0 ==> action is Empty && final(self).inner().state()
                    == WindowState::Idle
                &&& old(self).width() > 0 ==> action is Pull && final(self).inner().state()
                    == WindowState::Draining
            },
    {
        if tail_distance < self.size as u128 {
            None
        } else {
            Some(self.iterator.begin())
        }
    }

    /// Takes the item that the engine's iterator stands on, `None` where it
    /// stands on nothing. A record of the topic joins the window, which is
    /// then complete, and its cursor is to be stored, or asks for the next
    /// item. Anything else ends the call without a window: what was taken
    /// is dropped, the cursor stays, and the result is `None`.
    pub fn offer(&mut self, item: Option<(&[u8], &[u8])>) -> (r: Option<WindowAction>)
        requires
            old(self).wf(),
            old(self).inner().state() == WindowState::Draining,
        ensures
            final(self).wf(),
            final(self).width() == old(self).width(),
            final(self).inner().name() == old(self).inner().name(),
            final(self).inner().cursor() == old(self).inner().cursor(),
            match offered(item) {
                Some(record) => {
                    &&& final(self).inner().batch() == old(self).inner().batch().push(record)
                    &&& if final(self).inner().batch().len() == old(self).width() {
                        &&& final(self).inner().state() == WindowState::Committing
                        &&& r matches Some(WindowAction::Persist(e))
                        &&& e@ == cursor_entry(old(self).inner().name(), record)
                    } else {
                        &&& final(self).inner().state() == WindowState::Draining
                        &&& r matches Some(WindowAction::Pull)
                    }
                },
                None => {
                    &&& r is None
                    &&& final(self).inner().batch() == Seq::<RecordView>::empty()
                    &&& final(self).inner().state() == if item is None
                        && old(self).inner().batch().len() == 0 {
                        WindowState::Exhausted
                    } else {
                        WindowState::Idle
                    }
                },
            },
    {
        let action = self.iterator.offer(item);
        match action {
            WindowAction::Pull => Some(action),
            WindowAction::Persist(_) => {
                if self.iterator.pending() == self.size as usize {
                    Some(action)
                } else {
                    self.iterator.abandon();
                    None
                }
            },
            WindowAction::Empty => {
                assert(self.iterator.batch() =~= Seq::<RecordView>::empty());
                None
            },
        }
    }

    /// Takes in how the storing of the cursor went; see
    /// `IteratorBatch::persisted`. A window that is handed out holds exactly
    /// as many records as the window's size.
    pub fn persisted(&mut self, outcome: Result<(), Error>) -> (r: Result<Vec<SeqRecord>, Error>)
        requires
            old(self).wf(),
            old(self).inner().state() == WindowState::Committing,
        ensures
            final(self).wf(),
            final(self).width() == old(self).width(),
            final(self).inner().name() == old(self).inner().name(),
            final(self).inner().batch() == Seq::<RecordView>::empty(),
            match outcome {
                Ok(_) => {
                    &&& final(self).inner().state() == WindowState::Idle
                    &&& final(self).inner().cursor() == old(self).inner().batch().last().key
                    &&& r matches Ok(records)
                    &&& records_of(records@) == old(self).inner().batch()
                    &&& records@.len() == old(self).width()
                },
                Err(e) => {
                    &&& final(self).inner().state() == WindowState::Draining
                    &&& final(self).inner().cursor() == old(self).inner().cursor()
                    &&& r == Err::<Vec<SeqRecord>, Error>(e)
                },
            },
    {
        self.iterator.persisted(outcome)
    }
}

} // verus!
