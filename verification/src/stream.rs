//! A stream: the metadata kept for it, and the entries that its appends
//! write.

use vstd::prelude::*;
use crate::id::StreamID;
use crate::number::succ;
use crate::record::{Entry, EntryView};

verus! {

/// What is kept for a stream: its name, and the last identifier assigned.
#[derive(Debug, Clone)]
pub struct StreamlyMetadata {
    stream_name: String,
    last_insert: StreamID,
}

impl StreamlyMetadata {
    /// The name of the stream.
    pub closed spec fn name(&self) -> Seq<char> {
        self.stream_name@
    }

    /// The last identifier assigned.
    pub closed spec fn last(&self) -> StreamID {
        self.last_insert
    }

    /// The metadata of a new stream called `name`: nothing appended yet.
    pub fn new(name: &str) -> (r: StreamlyMetadata)
        ensures
            r.name() == name@,
            r.last().valid,
            r.last().num() == 1,
    {
        StreamlyMetadata { stream_name: name.to_owned(), last_insert: StreamID::default() }
    }

    /// The metadata of the stream called `name` whose last identifier
    /// assigned is `last_insert`.
    pub fn from_parts(name: &str, last_insert: StreamID) -> (r: StreamlyMetadata)
        ensures
            r.name() == name@,
            r.last() == last_insert,
    {
        StreamlyMetadata { stream_name: name.to_owned(), last_insert }
    }

    /// The name of the stream.
    pub fn stream_name(&self) -> (r: &str)
        ensures
            r@ == self.name(),
    {
        self.stream_name.as_str()
    }

    /// The last identifier assigned.
    pub fn last_insert(&self) -> (r: StreamID)
        ensures
            r == self.last(),
    {
        self.last_insert
    }
}

impl Default for StreamlyMetadata {
    /// The metadata of a new stream without a name.
    fn default() -> (r: StreamlyMetadata)
        ensures
            r.name() == Seq::<char>::empty(),
            r.last().valid,
            r.last().num() == 1,
    {
        StreamlyMetadata { stream_name: String::new(), last_insert: StreamID::default() }
    }
}

/// A stream over its own column family.
pub struct Streamly {
    pub metadata: StreamlyMetadata,
}

impl Streamly {
    /// Opens the stream called `name`. `stored` is the metadata that the
    /// engine holds for it, `None` where the stream's column family does not
    /// exist yet; then the result says so, and the caller is to create the
    /// family and store the new metadata.
    pub fn new(name: &str, stored: Option<StreamlyMetadata>) -> (r: (Streamly, bool))
        ensures
            r.1 == (stored is None),
            match stored {
                Some(metadata) => r.0.metadata == metadata,
                None => r.0.metadata.name() == name@ && r.0.metadata.last().valid
                    && r.0.metadata.last().num() == 1,
            },
    {
        match stored {
            Some(metadata) => (Streamly { metadata }, false),
            None => (Streamly { metadata: StreamlyMetadata::new(name) }, true),
        }
    }

    /// Appends a payload: it is assigned the identifier after the last one,
    /// and the result is the entry to store, under that identifier's text.
    pub fn append(&mut self, value: &[u8]) -> (r: Entry)
        ensures
            final(self).metadata.name() == old(self).metadata.name(),
            final(self).metadata.last().valid,
            final(self).metadata.last().num() == succ(old(self).metadata.last().num()),
            r@ == (EntryView { key: final(self).metadata.last().text(), value: value@ }),
    {
        self.metadata.last_insert = self.metadata.last_insert.next();
        Entry { key: self.metadata.last_insert.to_bytes(), value: vstd::slice::slice_to_vec(value) }
    }
}

} // verus!
