//! What is settled before an engine is opened: the column families that the
//! tables declare, and the version that the store was written with, kept
//! under a reserved key of the default column family.

use vstd::prelude::*;
use crate::errors::{Error, Result};
use crate::record::{Entry, EntryView};

pub use crate::errors::Semver;

verus! {

/// The reserved key: `weedb_version`.
pub open spec fn version_key() -> Seq<u8> {
    seq![119u8, 101u8, 101u8, 100u8, 98u8, 95u8, 118u8, 101u8, 114u8, 115u8, 105u8, 111u8, 110u8]
}

/// Keeps the version under the reserved key of the default column family.
#[derive(Debug, Default, Clone, Copy)]
pub struct DefaultVersionProvider;

impl DefaultVersionProvider {
    /// The reserved key.
    pub const DB_VERSION_KEY: &'static str = "weedb_version";

    /// The reserved key, as the engine takes it.
    pub fn key(&self) -> (r: Vec<u8>)
        ensures
            r@ == version_key(),
    {
        let r: Vec<u8> = vec![
            119u8, 101u8, 101u8, 100u8, 98u8, 95u8, 118u8, 101u8, 114u8, 115u8, 105u8, 111u8, 110u8,
        ];
        assert(r@ =~= version_key());
        r
    }

    /// Reads the version from what the engine holds under the reserved key:
    /// none where nothing is stored, and `InvalidDbVersion` where the value
    /// is not three bytes.
    pub fn get_version(&self, stored: Option<&[u8]>) -> (r: Result<Option<Semver>>)
        ensures
            match stored {
                None => r == Ok::<Option<Semver>, Error>(None),
                Some(value) => if value@.len() == 3 {
                    r matches Ok(Some(version)) && version@ == value@
                } else {
                    r == Err::<Option<Semver>, Error>(Error::InvalidDbVersion)
                },
            },
    {
        match stored {
            None => Ok(None),
            Some(value) => {
                if value.len() == 3 {
                    let version: Semver = [value[0], value[1], value[2]];
                    assert(version@ =~= value@);
                    Ok(Some(version))
                } else {
                    Err(Error::InvalidDbVersion)
                }
            },
        }
    }

    /// The entry that stores `version` under the reserved key.
    pub fn set_version(&self, version: Semver) -> (r: Entry)
        ensures
            r@ == (EntryView { key: version_key(), value: version@ }),
    {
        let value: Vec<u8> = vec![version[0], version[1], version[2]];
        assert(value@ =~= version@);
        Entry { key: self.key(), value }
    }
}

/// Checks, when a store is opened, the version it holds against the one
/// expected. A store without a version, with a value that is not a version,
/// or with another version than the expected one is refused.
pub fn check_version(stored: Option<&[u8]>, expected: Semver) -> (r: Result<()>)
    ensures
        match stored {
            None => r == Err::<(), Error>(Error::VersionNotFound),
            Some(value) => if value@.len() != 3 {
                r == Err::<(), Error>(Error::InvalidDbVersion)
            } else if value@ == expected@ {
                r is Ok
            } else {
                r matches Err(Error::IncompatibleDbVersion { version, expected: wanted })
                    && version@ == value@ && wanted == expected
            },
        },
{
    match DefaultVersionProvider.get_version(stored) {
        Err(e) => Err(e),
        Ok(None) => Err(Error::VersionNotFound),
        Ok(Some(version)) => {
            if version[0] == expected[0] && version[1] == expected[1] && version[2] == expected[2] {
                assert(version@ =~= expected@);
                Ok(())
            } else {
                Err(Error::IncompatibleDbVersion { version, expected })
            }
        },
    }
}

/// The names of a list, each by its view.
pub open spec fn names_of(list: Seq<String>) -> Seq<Seq<char>> {
    Seq::new(list.len(), |i: int| list[i]@)
}

/// The column families that tables have declared: each name once, in the
/// order of the first declaration.
pub struct Families {
    names: Vec<String>,
}

impl Families {
    /// The declared names, in the order of their declaration.
    pub closed spec fn names(&self) -> Seq<Seq<char>> {
        names_of(self.names@)
    }

    /// The invariant: no name is declared twice.
    pub open spec fn wf(&self) -> bool {
        self.names().no_duplicates()
    }

    /// No family declared.
    pub fn new() -> (r: Families)
        ensures
            r.wf(),
            r.names() == Seq::<Seq<char>>::empty(),
    {
        let r = Families { names: Vec::new() };
        assert(r.names() =~= Seq::<Seq<char>>::empty());
        r
    }

    /// Whether `name` is among the strings of `list`.
    fn listed(list: &Vec<String>, name: &String) -> (r: bool)
        ensures
            r == names_of(list@).contains(name@),
    {
        let mut i: usize = 0;
        while i < list.len()
            invariant
                i <= list@.len(),
                forall|j: int| 0 <= j < i ==> (#[trigger] names_of(list@)[j]) != name@,
            decreases list@.len() - i,
        {
            if list[i] == *name {
                assert(names_of(list@)[i as int] == name@);
                return true;
            }
            i += 1;
        }
        false
    }

    /// Whether a family called `name` is declared.
    pub fn contains(&self, name: &str) -> (r: bool)
        ensures
            r == self.names().contains(name@),
    {
        Self::listed(&self.names, &name.to_owned())
    }

    /// Declares a family. A name declared before is not declared again; the
    /// result says whether the name is new.
    pub fn declare(&mut self, name: &str) -> (r: bool)
        requires
            old(self).wf(),
        ensures
            final(self).wf(),
            r == !old(self).names().contains(name@),
            final(self).names() == if r {
                old(self).names().push(name@)
            } else {
                old(self).names()
            },
    {
        let owned = name.to_owned();
        if Self::listed(&self.names, &owned) {
            false
        } else {
            let ghost before = self.names();
            self.names.push(owned);
            proof {
                assert(self.names() =~= before.push(name@));
                assert forall|i: int, j: int|
                    0 <= i < self.names().len() && 0 <= j < self.names().len() && i != j implies self.names()[i]
                    != self.names()[j] by {
                    if i < before.len() {
                        assert(before.contains(before[i]));
                    }
                    if j < before.len() {
                        assert(before.contains(before[j]));
                    }
                }
            }
            true
        }
    }

    /// The number of declared families.
    pub fn len(&self) -> (r: usize)
        ensures
            r == self.names().len(),
    {
        self.names.len()
    }

    /// The name of the `i`-th declared family.
    pub fn name(&self, i: usize) -> (r: &str)
        requires
            i < self.names().len(),
        ensures
            r@ == self.names()[i as int],
    {
        self.names[i].as_str()
    }

    /// The declared families that the store does not hold yet, in the order
    /// of their declaration: those that opening the store is to create.
    /// `on_disk` lists the families that the store holds.
    pub fn missing(&self, on_disk: &Vec<String>) -> (r: Vec<String>)
        ensures
            names_of(r@) == self.names().filter(|name: Seq<char>| !names_of(on_disk@).contains(name)),
    {
        let ghost absent = |name: Seq<char>| !names_of(on_disk@).contains(name);
        let mut out: Vec<String> = Vec::new();
        let mut i: usize = 0;
        proof {
            assert(self.names().take(0) =~= Seq::<Seq<char>>::empty());
            reveal(Seq::filter);
            assert(names_of(out@) =~= self.names().take(0).filter(absent));
        }
        while i < self.names.len()
            invariant
                i <= self.names@.len(),
                absent == |name: Seq<char>| !names_of(on_disk@).contains(name),
                names_of(out@) == self.names().take(i as int).filter(absent),
            decreases self.names@.len() - i,
        {
            let ghost before = names_of(out@);
            let found = Self::listed(on_disk, &self.names[i]);
            proof {
                let upto = self.names().take(i + 1);
                assert(upto.drop_last() =~= self.names().take(i as int));
                assert(upto.last() == self.names@[i as int]@);
                reveal(Seq::filter);
            }
            if !found {
                out.push(self.names[i].clone());
                assert(names_of(out@) =~= before.push(self.names@[i as int]@));
            }
            i += 1;
        }
        assert(self.names().take(i as int) =~= self.names());
        out
    }
}

} // verus!
