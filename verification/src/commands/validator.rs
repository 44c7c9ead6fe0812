//! The directories of `PATH`, told apart by whether they exist.

use vstd::prelude::*;
use crate::text::texts;

verus! {

/// The directories of `PATH` that were looked at: those that exist and
/// those that are missing.
#[derive(Debug)]
pub struct PathValidation {
    /// The directories found in the file system.
    pub existing_dirs: Vec<String>,
    /// The directories that `PATH` names and the file system lacks.
    pub missing_dirs: Vec<String>,
}

impl PathValidation {
    /// A validation that has looked at nothing yet.
    pub fn new() -> (validation: Self)
        ensures
            validation.existing_dirs@.len() == 0,
            validation.missing_dirs@.len() == 0,
    {
        PathValidation { existing_dirs: Vec::new(), missing_dirs: Vec::new() }
    }

    /// Records `path` as existing where `is_dir` says that it is a
    /// directory of the file system, and as missing otherwise.
    pub fn add_path(&mut self, path: String, is_dir: bool)
        ensures
            is_dir ==> final(self).existing_dirs@ == old(self).existing_dirs@.push(path)
                && final(self).missing_dirs@ == old(self).missing_dirs@,
            !is_dir ==> final(self).missing_dirs@ == old(self).missing_dirs@.push(path)
                && final(self).existing_dirs@ == old(self).existing_dirs@,
    {
        if is_dir {
            self.existing_dirs.push(path);
        } else {
            self.missing_dirs.push(path);
        }
    }

    /// The number of directories looked at.
    pub fn total_dirs(&self) -> (total: usize)
        requires
            self.existing_dirs@.len() + self.missing_dirs@.len() <= usize::MAX,
        ensures
            total == self.existing_dirs@.len() + self.missing_dirs@.len(),
    {
        self.existing_dirs.len() + self.missing_dirs.len()
    }
}

/// The validation of the directories `dirs`, where `exists[i]` says whether
/// `dirs[i]` is a directory of the file system: each directory with a name
/// is recorded, in order, on the side `exists` puts it.
pub open spec fn validated(dirs: Seq<Seq<char>>, exists: Seq<bool>, want: bool) -> Seq<Seq<char>>
    decreases dirs.len(),
{
    if dirs.len() == 0 || exists.len() != dirs.len() {
        Seq::empty()
    } else {
        let before = validated(dirs.drop_last(), exists.drop_last(), want);
        if dirs.last().len() > 0 && exists.last() == want {
            before.push(dirs.last())
        } else {
            before
        }
    }
}

/// Tells the directories `dirs` apart by `exists`, which says for each
/// whether it is a directory of the file system. A directory without a name
/// is passed over.
pub fn validate_entries(dirs: &Vec<String>, exists: &Vec<bool>) -> (validation: PathValidation)
    requires
        dirs.len() == exists.len(),
    ensures
        texts(validation.existing_dirs@) == validated(texts(dirs@), exists@, true),
        texts(validation.missing_dirs@) == validated(texts(dirs@), exists@, false),
{
    let mut validation = PathValidation::new();
    let mut i: usize = 0;
    assert(texts(dirs@).take(0) =~= Seq::<Seq<char>>::empty());
    assert(texts(validation.existing_dirs@) =~= Seq::<Seq<char>>::empty());
    assert(texts(validation.missing_dirs@) =~= Seq::<Seq<char>>::empty());
    while i < dirs.len()
        invariant
            i <= dirs.len(),
            dirs.len() == exists.len(),
            texts(validation.existing_dirs@) == validated(
                texts(dirs@).take(i as int),
                exists@.take(i as int),
                true,
            ),
            texts(validation.missing_dirs@) == validated(
                texts(dirs@).take(i as int),
                exists@.take(i as int),
                false,
            ),
        decreases dirs.len() - i,
    {
        let ghost had = texts(validation.existing_dirs@);
        let ghost lacked = texts(validation.missing_dirs@);
        proof {
            assert(texts(dirs@).take(i + 1).drop_last() =~= texts(dirs@).take(i as int));
            assert(exists@.take(i + 1).drop_last() =~= exists@.take(i as int));
            assert(texts(dirs@).take(i + 1).last() == dirs@[i as int]@);
        }
        if !dirs[i].as_str().is_empty() {
            let dir = dirs[i].clone();
            validation.add_path(dir, exists[i]);
            if exists[i] {
                assert(texts(validation.existing_dirs@) =~= had.push(dirs@[i as int]@));
            } else {
                assert(texts(validation.missing_dirs@) =~= lacked.push(dirs@[i as int]@));
            }
            assert(texts(validation.missing_dirs@) =~= if exists@[i as int] {
                lacked
            } else {
                lacked.push(dirs@[i as int]@)
            });
            assert(texts(validation.existing_dirs@) =~= if exists@[i as int] {
                had.push(dirs@[i as int]@)
            } else {
                had
            });
        }
        i += 1;
    }
    assert(texts(dirs@).take(dirs.len() as int) =~= texts(dirs@));
    assert(exists@.take(exists.len() as int) =~= exists@);
    validation
}

} // verus!
