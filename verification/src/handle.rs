//! The register of migrations: which version each one starts from and which
//! version it leaves the store at.

use vstd::prelude::*;
use crate::errors::{Error, Result, Semver};

verus! {

/// One registered migration, by the versions it leads from and to.
#[derive(Debug, Clone, Copy)]
pub struct Step {
    pub from: Semver,
    pub to: Semver,
}

/// The migrations towards a target version. No two of them start from the
/// same version.
pub struct Migrations {
    target_version: Semver,
    steps: Vec<Step>,
}

impl Migrations {
    /// The version that the migrations lead to.
    pub closed spec fn target(&self) -> Semver {
        self.target_version
    }

    /// The registered migrations, in the order of their registration.
    pub closed spec fn steps(&self) -> Seq<Step> {
        self.steps@
    }

    /// A migration from `from` is registered.
    pub open spec fn has(&self, from: Seq<u8>) -> bool {
        exists|i: int| 0 <= i < self.steps().len() && (#[trigger] self.steps()[i]).from@ == from
    }

    /// The register's invariant: no version is the start of two migrations.
    pub open spec fn wf(&self) -> bool {
        forall|i: int, j: int|
            0 <= i < j < self.steps().len() ==> (#[trigger] self.steps()[i]).from@ != (
            #[trigger] self.steps()[j]).from@
    }

    /// An empty register of migrations towards `target_version`.
    pub fn with_target_version(target_version: Semver) -> (r: Migrations)
        ensures
            r.wf(),
            r.target() == target_version,
            r.steps() == Seq::<Step>::empty(),
    {
        Migrations { target_version, steps: Vec::new() }
    }

    /// The version that the migrations lead to.
    pub fn target_version(&self) -> (r: Semver)
        ensures
            r == self.target(),
    {
        self.target_version
    }

    /// The place in the register of the migration from `from`.
    fn find(&self, from: &Semver) -> (r: Option<usize>)
        ensures
            match r {
                Some(i) => i < self.steps().len() && self.steps()[i as int].from@ == from@,
                None => !self.has(from@),
            },
    {
        let mut i: usize = 0;
        while i < self.steps.len()
            invariant
                i <= self.steps@.len(),
                forall|j: int| 0 <= j < i ==> (#[trigger] self.steps@[j]).from@ != from@,
            decreases self.steps@.len() - i,
        {
            let s = &self.steps[i];
            if s.from[0] == from[0] && s.from[1] == from[1] && s.from[2] == from[2] {
                assert(s.from@ =~= from@);
                return Some(i);
            }
            assert(s.from@ != from@);
            i += 1;
        }
        None
    }

    /// Registers a migration from `from` to `to`, and returns its place in
    /// the register. A second migration from one version is refused as
    /// `DuplicateMigration`, and the register stays as it was.
    pub fn register(&mut self, from: Semver, to: Semver) -> (r: Result<usize>)
        requires
            old(self).wf(),
        ensures
            final(self).wf(),
            final(self).target() == old(self).target(),
            if old(self).has(from@) {
                &&& r == Err::<usize, Error>(Error::DuplicateMigration(from))
                &&& final(self).steps() == old(self).steps()
            } else {
                &&& r == Ok::<usize, Error>(old(self).steps().len() as usize)
                &&& final(self).steps() == old(self).steps().push(Step { from, to })
            },
    {
        match self.find(&from) {
            Some(_) => Err(Error::DuplicateMigration(from)),
            None => {
                let slot = self.steps.len();
                let ghost before = self.steps@;
                self.steps.push(Step { from, to });
                proof {
                    assert forall|i: int, j: int| 0 <= i < j < self.steps@.len() implies (
                    #[trigger] self.steps@[i]).from@ != (#[trigger] self.steps@[j]).from@ by {
                        assert(self.steps@[i] == before[i]);
                        if j < before.len() {
                            assert(self.steps@[j] == before[j]);
                        } else {
                            assert(!old(self).has(from@));
                            assert(old(self).steps()[i].from@ != from@);
                        }
                    }
                }
                Ok(slot)
            },
        }
    }

    /// The version that the migration from `from` leaves the store at;
    /// `MigrationNotFound` where none is registered.
    pub fn lookup(&self, from: Semver) -> (r: Result<Semver>)
        requires
            self.wf(),
        ensures
            if self.has(from@) {
                r matches Ok(to) && exists|i: int|
                    0 <= i < self.steps().len() && (#[trigger] self.steps()[i]).from@ == from@
                        && self.steps()[i].to == to
            } else {
                r == Err::<Semver, Error>(Error::MigrationNotFound(from))
            },
    {
        match self.find(&from) {
            Some(i) => Ok(self.steps[i].to),
            None => Err(Error::MigrationNotFound(from)),
        }
    }
}

} // verus!
