//! The storage abstraction: a pluggable backend contract over named paths,
//! and the ephemeral in-memory backend.
//!
//! A backend is modeled by the map from path to byte contents. A durable,
//! crash-safe backend lives outside this library and reports underlying I/O
//! trouble as `StorageFailure`; the in-memory backend here never fails except
//! where the contract demands it (reading an absent path).

use vstd::prelude::*;

use crate::codec::append_bytes;
use crate::error::{ErrorKind, IndexError};
use crate::schema::clone_bytes;

verus! {

/// The pluggable storage backend contract. Any conforming backend is
/// interchangeable without changing index or segment behavior.
pub trait Directory: Sized {
    /// The byte contents stored at every path. A backend outside this
    /// library that does not state its model leaves it unspecified, and
    /// nothing is concluded about such a backend; the in-memory backend
    /// defines its model and proves this contract against it.
    open spec fn files(&self) -> Map<Seq<char>, Seq<u8>> {
        arbitrary()
    }

    /// Whether this backend never reports an underlying I/O failure. True of
    /// the in-memory backend; a disk-backed backend cannot promise it.
    open spec fn reliable(&self) -> bool {
        false
    }

    /// Reads the full content at `path`. Fails with `NotFound` exactly when
    /// the path is absent; never succeeds on an absent path.
    fn open_read(&self, path: &String) -> (r: Result<Vec<u8>, IndexError>)
        ensures
            r is Ok ==> self.files().contains_key(path@) && r->Ok_0@ == self.files()[path@],
            r is Err ==> (r->Err_0.kind == ErrorKind::NotFound <==> !self.files().contains_key(
                path@,
            )),
            r is Err ==> r->Err_0.kind == ErrorKind::NotFound || r->Err_0.kind
                == ErrorKind::StorageFailure,
            r is Err ==> r->Err_0.path@ == path@,
            !self.files().contains_key(path@) ==> r is Err,
            self.reliable() && self.files().contains_key(path@) ==> r is Ok,
    ;

    /// Opens `path` for writing: the path now holds a new, empty file, and a
    /// truncated one if it already existed.
    fn open_write(&mut self, path: &String) -> (r: Result<(), IndexError>)
        ensures
            r is Ok ==> final(self).files() == old(self).files().insert(path@, Seq::empty()),
            r is Err ==> final(self).files() == old(self).files() && r->Err_0.kind
                == ErrorKind::StorageFailure,
            final(self).reliable() == old(self).reliable(),
            old(self).reliable() ==> r is Ok,
    ;

    /// Appends `data` at the end of `path`, sequentially; an absent path is
    /// created first.
    fn write(&mut self, path: &String, data: &Vec<u8>) -> (r: Result<(), IndexError>)
        ensures
            r is Ok ==> final(self).files() == old(self).files().insert(
                path@,
                (if old(self).files().contains_key(path@) {
                    old(self).files()[path@]
                } else {
                    Seq::empty()
                }) + data@,
            ),
            r is Err ==> final(self).files() == old(self).files() && r->Err_0.kind
                == ErrorKind::StorageFailure,
            final(self).reliable() == old(self).reliable(),
            old(self).reliable() ==> r is Ok,
    ;

    /// Replaces the full content of `path` such that any reader observes
    /// either the entirely-old or the entirely-new content, never a partial
    /// write. On failure the old content stands.
    fn atomic_write(&mut self, path: &String, data: &Vec<u8>) -> (r: Result<(), IndexError>)
        ensures
            r is Ok ==> final(self).files() == old(self).files().insert(path@, data@),
            r is Err ==> final(self).files() == old(self).files() && r->Err_0.kind
                == ErrorKind::StorageFailure,
            final(self).reliable() == old(self).reliable(),
            old(self).reliable() ==> r is Ok,
    ;

    /// Forces previously written bytes for `path` to be durable against a
    /// crash. Contents are unchanged; an absent path is reported `NotFound`.
    fn sync(&self, path: &String) -> (r: Result<(), IndexError>)
        ensures
            r is Err ==> (r->Err_0.kind == ErrorKind::NotFound <==> !self.files().contains_key(
                path@,
            )),
            r is Err ==> r->Err_0.kind == ErrorKind::NotFound || r->Err_0.kind
                == ErrorKind::StorageFailure,
            !self.files().contains_key(path@) ==> r is Err,
            self.reliable() && self.files().contains_key(path@) ==> r is Ok,
    ;

    /// Forces durability of directory-level metadata (creations, renames), so
    /// files made durable via `sync` stay discoverable after a crash.
    fn sync_directory(&self) -> (r: Result<(), IndexError>)
        ensures
            r is Err ==> r->Err_0.kind == ErrorKind::StorageFailure,
            self.reliable() ==> r is Ok,
    ;
}

/// One stored file of the in-memory backend.
struct RamFile {
    path: String,
    data: Vec<u8>,
}

/// The contents map described by a log of writes: the newest entry for a
/// path holds its content.
spec fn files_of(entries: Seq<RamFile>) -> Map<Seq<char>, Seq<u8>>
    decreases entries.len(),
{
    if entries.len() == 0 {
        Map::empty()
    } else {
        files_of(entries.drop_last()).insert(entries.last().path@, entries.last().data@)
    }
}

proof fn lemma_files_of_contains(entries: Seq<RamFile>, k: Seq<char>)
    ensures
        files_of(entries).contains_key(k) <==> exists|i: int|
            0 <= i < entries.len() && entries[i].path@ == k,
    decreases entries.len(),
{
    if entries.len() > 0 {
        lemma_files_of_contains(entries.drop_last(), k);
        if entries.last().path@ == k {
            assert(entries[entries.len() - 1].path@ == k);
        } else {
            if exists|i: int| 0 <= i < entries.len() && entries[i].path@ == k {
                let i = choose|i: int| 0 <= i < entries.len() && entries[i].path@ == k;
                assert(entries.drop_last()[i].path@ == k);
            }
            if exists|i: int| 0 <= i < entries.drop_last().len() && entries.drop_last()[i].path@
                == k {
                let i = choose|i: int|
                    0 <= i < entries.drop_last().len() && entries.drop_last()[i].path@ == k;
                assert(entries[i].path@ == k);
            }
        }
    }
}

proof fn lemma_files_of_newest(entries: Seq<RamFile>, i: int)
    requires
        0 <= i < entries.len(),
        forall|j: int| i < j < entries.len() ==> entries[j].path@ != entries[i].path@,
    ensures
        files_of(entries).contains_key(entries[i].path@),
        files_of(entries)[entries[i].path@] == entries[i].data@,
    decreases entries.len(),
{
    if i < entries.len() - 1 {
        assert(entries.last().path@ != entries[i].path@);
        assert(entries.drop_last()[i] == entries[i]);
        lemma_files_of_newest(entries.drop_last(), i);
    }
}

/// The ephemeral in-memory backend: all operations succeed instantly, no
/// durability is promised, contents vanish with the value. It keeps a log of
/// writes; the newest entry for a path is its content. Used for testing and
/// transient indices.
pub struct RamDirectory {
    entries: Vec<RamFile>,
}

impl RamDirectory {
    /// Creates an empty in-memory backend.
    pub fn create() -> (r: RamDirectory)
        ensures
            r.files() == Map::<Seq<char>, Seq<u8>>::empty(),
            r.reliable(),
    {
        RamDirectory { entries: Vec::new() }
    }

    /// The index of the newest entry holding `path`, if one does.
    fn find_newest(&self, path: &String) -> (r: Option<usize>)
        ensures
            r is Some ==> r->0 < self.entries@.len() && self.entries@[r->0 as int].path@ == path@
                && (forall|j: int|
                r->0 < j < self.entries@.len() ==> self.entries@[j].path@ != path@),
            r is None ==> forall|i: int|
                0 <= i < self.entries@.len() ==> self.entries@[i].path@ != path@,
    {
        let mut i: usize = self.entries.len();
        while i > 0
            invariant
                i <= self.entries@.len(),
                forall|j: int| i <= j < self.entries@.len() ==> self.entries@[j].path@ != path@,
            decreases i,
        {
            i = i - 1;
            let e = &self.entries[i];
            if e.path == *path {
                return Some(i);
            }
        }
        None
    }

    /// Appends one entry to the log, making it the content of its path.
    fn record(&mut self, path: &String, data: Vec<u8>)
        ensures
            final(self).files() == old(self).files().insert(path@, data@),
    {
        let ghost prev = self.entries@;
        self.entries.push(RamFile { path: path.clone(), data });
        proof {
            assert(self.entries@.drop_last() =~= prev);
        }
    }
}

impl Directory for RamDirectory {
    closed spec fn files(&self) -> Map<Seq<char>, Seq<u8>> {
        files_of(self.entries@)
    }

    open spec fn reliable(&self) -> bool {
        true
    }

    fn open_read(&self, path: &String) -> (r: Result<Vec<u8>, IndexError>) {
        proof {
            lemma_files_of_contains(self.entries@, path@);
        }
        match self.find_newest(path) {
            Option::Some(i) => {
                proof {
                    lemma_files_of_newest(self.entries@, i as int);
                }
                Ok(clone_bytes(&self.entries[i].data))
            },
            Option::None => Err(IndexError { kind: ErrorKind::NotFound, path: path.clone() }),
        }
    }

    fn open_write(&mut self, path: &String) -> (r: Result<(), IndexError>) {
        self.record(path, Vec::new());
        Ok(())
    }

    fn write(&mut self, path: &String, data: &Vec<u8>) -> (r: Result<(), IndexError>) {
        proof {
            lemma_files_of_contains(self.entries@, path@);
        }
        let mut content = match self.find_newest(path) {
            Option::Some(i) => {
                proof {
                    lemma_files_of_newest(self.entries@, i as int);
                }
                clone_bytes(&self.entries[i].data)
            },
            Option::None => Vec::new(),
        };
        proof {
            if !self.files().contains_key(path@) {
                assert(Seq::<u8>::empty() + data@ =~= data@);
            }
        }
        append_bytes(&mut content, data);
        self.record(path, content);
        Ok(())
    }

    fn atomic_write(&mut self, path: &String, data: &Vec<u8>) -> (r: Result<(), IndexError>) {
        self.record(path, clone_bytes(data));
        Ok(())
    }

    fn sync(&self, path: &String) -> (r: Result<(), IndexError>) {
        proof {
            lemma_files_of_contains(self.entries@, path@);
        }
        match self.find_newest(path) {
            Option::Some(_) => Ok(()),
            Option::None => Err(IndexError { kind: ErrorKind::NotFound, path: path.clone() }),
        }
    }

    fn sync_directory(&self) -> (r: Result<(), IndexError>) {
        Ok(())
    }
}

} // verus!
