//! The index: one storage backend and one metadata catalog, each behind its
//! own multi-reader/single-writer guard, orchestrating creation, opening,
//! loading, publishing and durability syncing.
//!
//! The catalog operations that carry the exact contracts work on the guarded
//! values themselves; the [`Index`] handle reaches them only through methods
//! that hold the relevant guard for the full duration of the logical
//! operation. Publishing appends to the catalog and persists it while the
//! catalog's exclusive guard is held across the whole compound operation, so
//! a concurrent publisher can never overwrite the appended identity with a
//! stale snapshot.

use std::sync::Arc;

use vstd::prelude::*;
use vstd::rwlock::{RwLock, RwLockPredicate};

use crate::directory::{Directory, RamDirectory};
use crate::error::{ErrorKind, IndexError};
use crate::codec::npow16;
use crate::meta::{
    encode_meta, lemma_meta_round_trip, spec_decode_meta, spec_encode_meta, IndexMeta, MetaView,
};
use crate::schema::Schema;
use crate::segment::{relative_path_of, relative_path_spec, SegmentComponent};
use crate::segment_id::SegmentId;

verus! {

/// The fixed name of the catalog file at the storage root.
pub open spec fn meta_path_spec() -> Seq<char> {
    "meta.json"@
}

/// The fixed name of the catalog file at the storage root.
pub fn meta_file_path() -> (r: String)
    ensures
        r@ == meta_path_spec(),
{
    "meta.json".to_owned()
}

/// Serializes the catalog and atomically replaces the catalog file with it.
pub fn save_catalog<D: Directory>(meta: &IndexMeta, dir: &mut D) -> (r: Result<(), IndexError>)
    ensures
        r is Ok ==> final(dir).files() == old(dir).files().insert(
            meta_path_spec(),
            spec_encode_meta(meta@),
        ),
        r is Err ==> final(dir).files() == old(dir).files() && r->Err_0.kind
            == ErrorKind::StorageFailure,
        final(dir).reliable() == old(dir).reliable(),
        old(dir).reliable() ==> r is Ok,
{
    let bytes = encode_meta(meta);
    let path = meta_file_path();
    dir.atomic_write(&path, &bytes)
}

/// Reads the catalog file in full, decodes it, and returns the catalog it
/// holds. Fails with `NotFound` exactly when no catalog file exists, and with
/// `DecodeFailure` when the file holds anything but a valid catalog encoding:
/// decoding never silently succeeds on garbage.
pub fn load_catalog<D: Directory>(dir: &D) -> (r: Result<IndexMeta, IndexError>)
    ensures
        r is Ok ==> dir.files().contains_key(meta_path_spec()) && spec_decode_meta(
            dir.files()[meta_path_spec()],
        ) == Some(r->Ok_0@),
        r is Err ==> (r->Err_0.kind == ErrorKind::NotFound <==> !dir.files().contains_key(
            meta_path_spec(),
        )),
        r is Err && r->Err_0.kind == ErrorKind::DecodeFailure ==> dir.files().contains_key(
            meta_path_spec(),
        ) && spec_decode_meta(dir.files()[meta_path_spec()]) is None,
        r is Err ==> r->Err_0.kind == ErrorKind::NotFound || r->Err_0.kind
            == ErrorKind::StorageFailure || r->Err_0.kind == ErrorKind::DecodeFailure,
        !dir.files().contains_key(meta_path_spec()) ==> r is Err,
        dir.reliable() && dir.files().contains_key(meta_path_spec()) && spec_decode_meta(
            dir.files()[meta_path_spec()],
        ) is Some ==> r is Ok,
        dir.reliable() && dir.files().contains_key(meta_path_spec()) && spec_decode_meta(
            dir.files()[meta_path_spec()],
        ) is None ==> r is Err && r->Err_0.kind == ErrorKind::DecodeFailure,
{
    let path = meta_file_path();
    let bytes = match dir.open_read(&path) {
        Ok(b) => b,
        Err(e) => {
            return Err(e);
        },
    };
    match crate::meta::decode_meta(&bytes) {
        Ok(meta) => Ok(meta),
        Err(e) => Err(IndexError::at_path(e.kind, &path)),
    }
}

/// Appends the identity to the catalog and persists the updated catalog: the
/// sole visibility boundary making a segment discoverable to readers. The
/// identity is appended even when persisting fails, as the error reports.
pub fn publish_to<D: Directory>(meta: &mut IndexMeta, dir: &mut D, id: SegmentId) -> (r: Result<
    (),
    IndexError,
>)
    ensures
        final(meta)@.segments == old(meta)@.segments.push(id@),
        final(meta)@.schema == old(meta)@.schema,
        r is Ok ==> final(dir).files() == old(dir).files().insert(
            meta_path_spec(),
            spec_encode_meta(final(meta)@),
        ),
        r is Err ==> final(dir).files() == old(dir).files() && r->Err_0.kind
            == ErrorKind::StorageFailure,
        final(dir).reliable() == old(dir).reliable(),
        old(dir).reliable() ==> r is Ok,
{
    meta.push_segment(id);
    save_catalog(meta, dir)
}

/// Persist then reopen: in the storage state `save_catalog` (and so
/// `publish_to`) leaves behind, the catalog file decodes back to exactly the
/// catalog that was saved, segment order and schema included. With
/// `load_catalog`'s contract this makes a reopened index agree with the one
/// that was persisted.
pub proof fn lemma_persisted_catalog_reopens(files: Map<Seq<char>, Seq<u8>>, m: MetaView)
    requires
        m.segments.len() < npow16(16),
        m.schema.len() < npow16(16),
    ensures
        files.insert(meta_path_spec(), spec_encode_meta(m)).contains_key(meta_path_spec()),
        spec_decode_meta(
            files.insert(meta_path_spec(), spec_encode_meta(m))[meta_path_spec()],
        ) == Some(m),
{
    lemma_meta_round_trip(m);
}

/// A catalog that does not hold an identity holds it exactly once immediately
/// after it is published.
pub proof fn lemma_publish_exactly_once(ids: Seq<u128>, id: u128)
    requires
        !ids.contains(id),
    ensures
        ids.push(id).contains(id),
        ids.push(id).to_multiset().count(id) == 1,
{
    ids.to_multiset_ensures();
    ids.push(id).to_multiset_ensures();
    assert(ids.to_multiset().count(id) == 0);
    assert(ids.push(id).to_multiset() =~= ids.to_multiset().insert(id));
    vstd::multiset::lemma_insert_increases_count_by_1(ids.to_multiset(), id);
    assert(ids.push(id)[ids.len() as int] == id);
}

/// Forces durability of the data-bearing components (postings and terms) of
/// the segment with the given identity, then of the directory metadata.
/// Intended to run before publishing, so the payload is durable before any
/// pointer to it.
pub fn sync_segment<D: Directory>(dir: &D, id: &SegmentId) -> (r: Result<(), IndexError>)
    ensures
        dir.reliable() && dir.files().contains_key(
            relative_path_spec(id@, SegmentComponent::POSTINGS),
        ) && dir.files().contains_key(relative_path_spec(id@, SegmentComponent::TERMS)) ==> r
            is Ok,
        r is Err ==> r->Err_0.kind == ErrorKind::NotFound || r->Err_0.kind
            == ErrorKind::StorageFailure,
        r is Err && r->Err_0.kind == ErrorKind::NotFound ==> !dir.files().contains_key(
            relative_path_spec(id@, SegmentComponent::POSTINGS),
        ) || !dir.files().contains_key(relative_path_spec(id@, SegmentComponent::TERMS)),
        !dir.files().contains_key(relative_path_spec(id@, SegmentComponent::POSTINGS))
            || !dir.files().contains_key(relative_path_spec(id@, SegmentComponent::TERMS)) ==> r
            is Err,
{
    let postings = relative_path_of(id, &SegmentComponent::POSTINGS);
    match dir.sync(&postings) {
        Ok(()) => (),
        Err(e) => {
            return Err(e);
        },
    }
    let terms = relative_path_of(id, &SegmentComponent::TERMS);
    match dir.sync(&terms) {
        Ok(()) => (),
        Err(e) => {
            return Err(e);
        },
    }
    dir.sync_directory()
}

/// Reads the full content of one component of the segment with the given
/// identity. Fails with `NotFound` exactly when the component was never
/// written.
pub fn open_component<D: Directory>(
    dir: &D,
    id: &SegmentId,
    component: &SegmentComponent,
) -> (r: Result<Vec<u8>, IndexError>)
    ensures
        r is Ok ==> dir.files().contains_key(relative_path_spec(id@, *component))
            && r->Ok_0@ == dir.files()[relative_path_spec(id@, *component)],
        r is Err ==> (r->Err_0.kind == ErrorKind::NotFound <==> !dir.files().contains_key(
            relative_path_spec(id@, *component),
        )),
        r is Err ==> r->Err_0.kind == ErrorKind::NotFound || r->Err_0.kind
            == ErrorKind::StorageFailure,
        !dir.files().contains_key(relative_path_spec(id@, *component)) ==> r is Err,
        dir.reliable() && dir.files().contains_key(relative_path_spec(id@, *component)) ==> r
            is Ok,
{
    let path = relative_path_of(id, component);
    dir.open_read(&path)
}

/// Opens one component of the segment with the given identity for writing: a
/// new, empty file, truncated if it existed.
pub fn create_component<D: Directory>(
    dir: &mut D,
    id: &SegmentId,
    component: &SegmentComponent,
) -> (r: Result<(), IndexError>)
    ensures
        r is Ok ==> final(dir).files() == old(dir).files().insert(
            relative_path_spec(id@, *component),
            Seq::empty(),
        ),
        r is Err ==> final(dir).files() == old(dir).files() && r->Err_0.kind
            == ErrorKind::StorageFailure,
        final(dir).reliable() == old(dir).reliable(),
        old(dir).reliable() ==> r is Ok,
{
    let path = relative_path_of(id, component);
    dir.open_write(&path)
}

/// Appends bytes at the end of one component of the segment with the given
/// identity, creating it when absent.
pub fn write_component<D: Directory>(
    dir: &mut D,
    id: &SegmentId,
    component: &SegmentComponent,
    data: &Vec<u8>,
) -> (r: Result<(), IndexError>)
    ensures
        r is Ok ==> final(dir).files() == old(dir).files().insert(
            relative_path_spec(id@, *component),
            (if old(dir).files().contains_key(relative_path_spec(id@, *component)) {
                old(dir).files()[relative_path_spec(id@, *component)]
            } else {
                Seq::empty()
            }) + data@,
        ),
        r is Err ==> final(dir).files() == old(dir).files() && r->Err_0.kind
            == ErrorKind::StorageFailure,
        final(dir).reliable() == old(dir).reliable(),
        old(dir).reliable() ==> r is Ok,
{
    let path = relative_path_of(id, component);
    dir.write(&path, data)
}

/// Relies on `std::sync::Arc::clone`: the returned handle is the same shared
/// value.
#[verifier::external_body]
fn arc_clone<T>(a: &Arc<T>) -> (r: Arc<T>)
    ensures
        r == *a,
{
    Arc::clone(a)
}

/// Relies on `std::sync::Arc`'s `Deref`: a shared borrow of the held value.
#[verifier::external_body]
fn arc_borrow<T>(a: &Arc<T>) -> (r: &T)
    ensures
        *r == *a,
{
    &**a
}

/// The guard predicate of the index's two guards: every value of the guarded
/// state may be stored, so releasing a guard never constrains the caller.
pub struct AnyState;

impl<V> RwLockPredicate<V> for AnyState {
    open spec fn inv(self, v: V) -> bool {
        true
    }
}

/// A handle on one index: shared ownership of one storage backend and one
/// metadata catalog, each behind its own multi-reader/single-writer guard.
/// Cloning the handle shares both guarded states; all clones observe the same
/// catalog and storage.
#[verifier::reject_recursive_types(D)]
pub struct Index<D: Directory> {
    metas: Arc<RwLock<IndexMeta, AnyState>>,
    directory: Arc<RwLock<D, AnyState>>,
}

/// A lightweight value naming one segment of one index. Constructing it
/// validates nothing: a segment is real for readers only once its identity is
/// in the catalog, and its component files exist only once written.
#[verifier::reject_recursive_types(D)]
pub struct Segment<D: Directory> {
    index: Index<D>,
    segment_id: SegmentId,
}

impl<D: Directory> Index<D> {
    /// A new index over the given backend, its catalog empty but for the
    /// schema.
    pub fn from_directory(directory: D, schema: Schema) -> Index<D> {
        Index {
            metas: Arc::new(RwLock::new(IndexMeta::with_schema(schema), Ghost(AnyState))),
            directory: Arc::new(RwLock::new(directory, Ghost(AnyState))),
        }
    }

    /// Attaches to an existing backend: loads the catalog it holds before any
    /// guard is built, and fails when no valid catalog is found — which is
    /// how a caller tells an existing index from an empty location. It never
    /// succeeds with an empty or corrupt state.
    pub fn open_directory(directory: D) -> (r: Result<Index<D>, IndexError>)
        ensures
            !directory.files().contains_key(meta_path_spec()) ==> r is Err,
            r is Err ==> (r->Err_0.kind == ErrorKind::NotFound <==> !directory.files().contains_key(
                meta_path_spec(),
            )),
            r is Err && r->Err_0.kind == ErrorKind::DecodeFailure ==> directory.files().contains_key(
                meta_path_spec(),
            ) && spec_decode_meta(directory.files()[meta_path_spec()]) is None,
            r is Err ==> r->Err_0.kind == ErrorKind::NotFound || r->Err_0.kind
                == ErrorKind::StorageFailure || r->Err_0.kind == ErrorKind::DecodeFailure,
            r is Ok ==> spec_decode_meta(directory.files()[meta_path_spec()]) is Some,
            directory.reliable() && directory.files().contains_key(meta_path_spec())
                && spec_decode_meta(directory.files()[meta_path_spec()]) is Some ==> r is Ok,
    {
        let meta = match load_catalog(&directory) {
            Ok(m) => m,
            Err(e) => {
                return Err(e);
            },
        };
        Ok(
            Index {
                metas: Arc::new(RwLock::new(meta, Ghost(AnyState))),
                directory: Arc::new(RwLock::new(directory, Ghost(AnyState))),
            },
        )
    }

    /// The schema snapshot, read under the catalog's shared guard.
    pub fn schema(&self) -> Schema {
        let meta_lock = arc_borrow(&self.metas);
        let handle = meta_lock.acquire_read();
        let schema = handle.borrow().schema().clone();
        handle.release_read();
        schema
    }

    /// A segment value bound to this index and the given identity.
    /// Construction touches neither the catalog nor storage and checks no
    /// existence.
    pub fn segment(&self, segment_id: &SegmentId) -> (r: Segment<D>)
        ensures
            r.spec_id() == segment_id@,
            r.owner() == *self,
    {
        Segment { index: self.clone(), segment_id: *segment_id }
    }

    /// Allocates a segment bound to this index and a freshly generated
    /// identity. The catalog is untouched.
    pub fn new_segment(&self) -> (r: Segment<D>)
        ensures
            r.owner() == *self,
    {
        self.segment(&SegmentId::new())
    }

    /// The committed segment identities at the moment of the shared-guard
    /// read, in publication order.
    pub fn segment_ids(&self) -> Vec<SegmentId> {
        let meta_lock = arc_borrow(&self.metas);
        let handle = meta_lock.acquire_read();
        let ids = handle.borrow().segment_ids();
        handle.release_read();
        ids
    }

    /// One segment value per identity presently in the catalog, in catalog
    /// order, each bound to this index.
    pub fn segments(&self) -> (r: Vec<Segment<D>>)
        ensures
            forall|j: int| #![trigger r@[j]] 0 <= j < r@.len() ==> r@[j].owner() == *self,
    {
        let ids = self.segment_ids();
        let mut out: Vec<Segment<D>> = Vec::new();
        let mut i: usize = 0;
        while i < ids.len()
            invariant
                i <= ids@.len(),
                out@.len() == i,
                forall|j: int|
                    #![trigger out@[j]]
                    0 <= j < i ==> out@[j].owner() == *self && out@[j].spec_id() == ids@[j]@,
            decreases ids@.len() - i,
        {
            let ghost prev = out@;
            out.push(self.segment(&ids[i]));
            i = i + 1;
            proof {
                assert forall|j: int| 0 <= j < i implies #[trigger] out@[j].owner() == *self
                    && out@[j].spec_id() == ids@[j]@ by {
                    if j < i - 1 {
                        assert(out@[j] == prev[j]);
                    }
                }
            }
        }
        out
    }

    /// Replaces the in-memory catalog wholesale with the one read from
    /// storage; fails as `load_catalog` does, leaving the catalog untouched.
    pub fn load_metas(&mut self) -> (r: Result<(), IndexError>)
        ensures
            r is Err ==> r->Err_0.kind == ErrorKind::NotFound || r->Err_0.kind
                == ErrorKind::StorageFailure || r->Err_0.kind == ErrorKind::DecodeFailure,
    {
        let dir_lock = arc_borrow(&self.directory);
        let dir_handle = dir_lock.acquire_read();
        let loaded = load_catalog(dir_handle.borrow());
        dir_handle.release_read();
        match loaded {
            Ok(meta) => {
                let meta_lock = arc_borrow(&self.metas);
                let (_stale, write_handle) = meta_lock.acquire_write();
                write_handle.release_write(meta);
                Ok(())
            },
            Err(e) => Err(e),
        }
    }

    /// Serializes a snapshot of the catalog under its shared guard, then
    /// atomically replaces the catalog file under the storage's exclusive
    /// guard.
    pub fn save_metas(&mut self) -> (r: Result<(), IndexError>)
        ensures
            r is Err ==> r->Err_0.kind == ErrorKind::StorageFailure,
    {
        let meta_lock = arc_borrow(&self.metas);
        let meta_handle = meta_lock.acquire_read();
        let bytes = encode_meta(meta_handle.borrow());
        meta_handle.release_read();
        let dir_lock = arc_borrow(&self.directory);
        let (mut dir, write_handle) = dir_lock.acquire_write();
        let path = meta_file_path();
        let r = dir.atomic_write(&path, &bytes);
        write_handle.release_write(dir);
        r
    }

    /// Appends the segment's identity to the catalog and persists the updated
    /// catalog, holding the catalog's exclusive guard across the whole
    /// compound operation: with respect to other publishers the pair is
    /// indivisible, so no published identity is lost to a stale snapshot.
    pub fn publish_segment(&mut self, segment: Segment<D>) -> (r: Result<(), IndexError>)
        ensures
            r is Err ==> r->Err_0.kind == ErrorKind::StorageFailure,
    {
        let meta_lock = arc_borrow(&self.metas);
        let (mut meta, meta_write) = meta_lock.acquire_write();
        let dir_lock = arc_borrow(&self.directory);
        let (mut dir, dir_write) = dir_lock.acquire_write();
        let r = publish_to(&mut meta, &mut dir, segment.id());
        dir_write.release_write(dir);
        meta_write.release_write(meta);
        r
    }

    /// Forces durability of the segment's data-bearing components, then of
    /// the directory metadata, under the storage's shared guard.
    pub fn sync(&mut self, segment: Segment<D>) -> (r: Result<(), IndexError>)
        ensures
            r is Err ==> r->Err_0.kind == ErrorKind::NotFound || r->Err_0.kind
                == ErrorKind::StorageFailure,
    {
        let dir_lock = arc_borrow(&self.directory);
        let dir_handle = dir_lock.acquire_read();
        let r = sync_segment(dir_handle.borrow(), &segment.segment_id);
        dir_handle.release_read();
        r
    }
}

impl Index<RamDirectory> {
    /// A new index over the ephemeral in-memory backend, its catalog empty
    /// but for the schema.
    pub fn create_in_ram(schema: Schema) -> Index<RamDirectory> {
        Index::from_directory(RamDirectory::create(), schema)
    }
}

impl<D: Directory> Clone for Index<D> {
    /// The clone shares the same guarded catalog and storage.
    fn clone(&self) -> (r: Index<D>)
        ensures
            r == *self,
    {
        Index { metas: arc_clone(&self.metas), directory: arc_clone(&self.directory) }
    }
}

impl<D: Directory> Segment<D> {
    /// The identity this segment value is bound to.
    pub closed spec fn spec_id(&self) -> u128 {
        self.segment_id@
    }

    /// The index handle this segment value is bound to: it shares that
    /// index's guarded catalog and storage.
    pub closed spec fn owner(&self) -> Index<D> {
        self.index
    }

    /// The identity this segment value is bound to.
    pub fn id(&self) -> (r: SegmentId)
        ensures
            r@ == self.spec_id(),
    {
        self.segment_id
    }

    /// The storage path of one component of this segment.
    pub fn relative_path(&self, component: &SegmentComponent) -> (r: String)
        ensures
            r@ == relative_path_spec(self.spec_id(), *component),
    {
        relative_path_of(&self.segment_id, component)
    }

    /// Reads one component of this segment under the storage's shared guard,
    /// so that many segments can be read concurrently. Absence surfaces as a
    /// `NotFound` failure here, never as an abort.
    pub fn open_read(&self, component: SegmentComponent) -> (r: Result<Vec<u8>, IndexError>)
        ensures
            r is Err ==> r->Err_0.kind == ErrorKind::NotFound || r->Err_0.kind
                == ErrorKind::StorageFailure,
    {
        let dir_lock = arc_borrow(&self.index.directory);
        let handle = dir_lock.acquire_read();
        let r = open_component(handle.borrow(), &self.segment_id, &component);
        handle.release_read();
        r
    }

    /// Opens one component of this segment for writing under the storage's
    /// exclusive guard, serializing file creation across segments.
    pub fn open_write(&self, component: SegmentComponent) -> (r: Result<(), IndexError>)
        ensures
            r is Err ==> r->Err_0.kind == ErrorKind::StorageFailure,
    {
        let dir_lock = arc_borrow(&self.index.directory);
        let (mut dir, write_handle) = dir_lock.acquire_write();
        let r = create_component(&mut dir, &self.segment_id, &component);
        write_handle.release_write(dir);
        r
    }

    /// Appends bytes at the end of one component of this segment under the
    /// storage's exclusive guard.
    pub fn write(&self, component: SegmentComponent, data: &Vec<u8>) -> (r: Result<
        (),
        IndexError,
    >)
        ensures
            r is Err ==> r->Err_0.kind == ErrorKind::StorageFailure,
    {
        let dir_lock = arc_borrow(&self.index.directory);
        let (mut dir, write_handle) = dir_lock.acquire_write();
        let r = write_component(&mut dir, &self.segment_id, &component, data);
        write_handle.release_write(dir);
        r
    }
}

impl<D: Directory> Clone for Segment<D> {
    /// The clone names the same segment of the same index.
    fn clone(&self) -> (r: Segment<D>)
        ensures
            r == *self,
    {
        Segment { index: self.index.clone(), segment_id: self.segment_id }
    }
}

} // verus!
