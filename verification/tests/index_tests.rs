use segment_index::directory::{Directory, RamDirectory};
use segment_index::error::ErrorKind;
use segment_index::index::{load_catalog, publish_to, save_catalog, Index};
use segment_index::meta::{decode_meta, encode_meta, IndexMeta};
use segment_index::schema::Schema;
use segment_index::segment::SegmentComponent;
use segment_index::segment_id::SegmentId;

fn contains_id(ids: &Vec<SegmentId>, id: &SegmentId) -> bool {
    ids.iter().any(|x| x == id)
}

fn count_id(ids: &Vec<SegmentId>, id: &SegmentId) -> usize {
    ids.iter().filter(|x| *x == id).count()
}

#[test]
fn schema_of_in_ram_index_is_the_one_given() {
    let schema = Schema::from_bytes(vec![10, 20, 30, 40]);
    let index = Index::create_in_ram(schema.clone());
    assert_eq!(index.schema(), schema);
}

#[test]
fn schema_of_empty_in_ram_index() {
    let schema = Schema::from_bytes(Vec::new());
    let index = Index::create_in_ram(schema.clone());
    assert_eq!(index.schema(), schema);
}

#[test]
fn fresh_segment_identities_are_distinct() {
    let index = Index::create_in_ram(Schema::from_bytes(vec![1]));
    let a = index.new_segment().id();
    let b = index.new_segment().id();
    let c = index.new_segment().id();
    assert_ne!(a, b);
    assert_ne!(a, c);
    assert_ne!(b, c);
}

#[test]
fn publish_makes_a_segment_visible_exactly_once() {
    let mut index = Index::create_in_ram(Schema::from_bytes(vec![1]));
    let segment = index.new_segment();
    let id = segment.id();
    assert!(!contains_id(&index.segment_ids(), &id));
    assert_eq!(index.segments().len(), 0);
    index.publish_segment(segment).unwrap();
    let ids = index.segment_ids();
    assert!(contains_id(&ids, &id));
    assert_eq!(count_id(&ids, &id), 1);
    assert_eq!(index.segments().len(), 1);
}

#[test]
fn open_read_of_never_written_component_is_not_found() {
    let index = Index::create_in_ram(Schema::from_bytes(vec![1]));
    let segment = index.new_segment();
    let err = segment.open_read(SegmentComponent::POSTINGS).unwrap_err();
    assert_eq!(err.kind, ErrorKind::NotFound);
}

#[test]
fn written_component_reads_back() {
    let index = Index::create_in_ram(Schema::from_bytes(vec![1]));
    let segment = index.new_segment();
    segment.open_write(SegmentComponent::TERMS).unwrap();
    segment
        .write(SegmentComponent::TERMS, &vec![5, 6, 7])
        .unwrap();
    segment.write(SegmentComponent::TERMS, &vec![8]).unwrap();
    let bytes = segment.open_read(SegmentComponent::TERMS).unwrap();
    assert_eq!(bytes, vec![5, 6, 7, 8]);
}

#[test]
fn open_write_truncates_an_existing_component() {
    let index = Index::create_in_ram(Schema::from_bytes(vec![1]));
    let segment = index.new_segment();
    segment.open_write(SegmentComponent::STORE).unwrap();
    segment.write(SegmentComponent::STORE, &vec![9, 9]).unwrap();
    segment.open_write(SegmentComponent::STORE).unwrap();
    let bytes = segment.open_read(SegmentComponent::STORE).unwrap();
    assert!(bytes.is_empty());
}

#[test]
fn sync_fails_before_data_components_exist() {
    let mut index = Index::create_in_ram(Schema::from_bytes(vec![1]));
    let segment = index.new_segment();
    let err = index.sync(segment).unwrap_err();
    assert_eq!(err.kind, ErrorKind::NotFound);
}

#[test]
fn sync_succeeds_once_data_components_are_written() {
    let mut index = Index::create_in_ram(Schema::from_bytes(vec![1]));
    let segment = index.new_segment();
    segment.open_write(SegmentComponent::POSTINGS).unwrap();
    segment.open_write(SegmentComponent::TERMS).unwrap();
    index.sync(segment).unwrap();
}

#[test]
fn persisted_catalog_reopens_with_same_segments_and_schema() {
    let schema = Schema::from_bytes(vec![2, 4, 6]);
    let mut dir = RamDirectory::create();
    let mut meta = IndexMeta::with_schema(schema.clone());
    let first = SegmentId::from_u128(7);
    let second = SegmentId::from_u128(9);
    publish_to(&mut meta, &mut dir, first).unwrap();
    publish_to(&mut meta, &mut dir, second).unwrap();
    let index = Index::open_directory(dir).unwrap();
    assert_eq!(index.schema(), schema);
    let ids = index.segment_ids();
    assert_eq!(ids.len(), 2);
    assert_eq!(ids[0], first);
    assert_eq!(ids[1], second);
}

#[test]
fn opening_an_empty_location_is_not_found() {
    let err = match Index::open_directory(RamDirectory::create()) {
        Ok(_) => panic!("opening an empty location must fail"),
        Err(e) => e,
    };
    assert_eq!(err.kind, ErrorKind::NotFound);
}

#[test]
fn unpublished_segment_stays_invisible_after_reopen_but_its_files_remain() {
    let schema = Schema::from_bytes(vec![3]);
    let mut dir = RamDirectory::create();
    let mut meta = IndexMeta::with_schema(schema);
    let published = SegmentId::from_u128(100);
    let unpublished = SegmentId::from_u128(200);
    let path = segment_index::segment::relative_path_of(&unpublished, &SegmentComponent::POSTINGS);
    dir.atomic_write(&path, &vec![42]).unwrap();
    publish_to(&mut meta, &mut dir, published).unwrap();
    let index = Index::open_directory(dir).unwrap();
    let ids = index.segment_ids();
    assert_eq!(ids.len(), 1);
    assert_eq!(ids[0], published);
    let orphan = index.segment(&unpublished);
    assert_eq!(orphan.open_read(SegmentComponent::POSTINGS).unwrap(), vec![42]);
}

#[test]
fn save_metas_and_load_metas_round_trip_through_the_handle() {
    let mut index = Index::create_in_ram(Schema::from_bytes(vec![1, 2]));
    let segment = index.new_segment();
    let id = segment.id();
    index.publish_segment(segment).unwrap();
    index.save_metas().unwrap();
    index.load_metas().unwrap();
    let ids = index.segment_ids();
    assert_eq!(ids.len(), 1);
    assert_eq!(ids[0], id);
}

#[test]
fn catalog_save_then_load_reproduces_the_catalog() {
    let mut dir = RamDirectory::create();
    let meta = IndexMeta::with_schema(Schema::from_bytes(vec![11, 22]));
    save_catalog(&meta, &mut dir).unwrap();
    let loaded = load_catalog(&dir).unwrap();
    assert_eq!(loaded.schema(), meta.schema());
    assert_eq!(loaded.segment_count(), 0);
}

#[test]
fn catalog_encoding_round_trips_exactly() {
    let mut meta = IndexMeta::with_schema(Schema::from_bytes(vec![1, 2, 3]));
    meta.push_segment(SegmentId::from_u128(0));
    meta.push_segment(SegmentId::from_u128(u128::MAX));
    meta.push_segment(SegmentId::from_u128(0xdeadbeef));
    let bytes = encode_meta(&meta);
    let decoded = decode_meta(&bytes).unwrap();
    assert_eq!(decoded.schema(), meta.schema());
    let ids = decoded.segment_ids();
    assert_eq!(ids.len(), 3);
    assert_eq!(ids[0].to_u128(), 0);
    assert_eq!(ids[1].to_u128(), u128::MAX);
    assert_eq!(ids[2].to_u128(), 0xdeadbeef);
}

#[test]
fn catalog_encoding_has_the_documented_layout() {
    let meta = IndexMeta::with_schema(Schema::from_bytes(vec![b'x']));
    let bytes = encode_meta(&meta);
    let mut expected: Vec<u8> = Vec::new();
    expected.push(1);
    expected.extend_from_slice(b"0000000000000000");
    expected.extend_from_slice(b"0000000000000001");
    expected.push(b'x');
    assert_eq!(bytes, expected);
}

#[test]
fn publication_order_is_preserved() {
    let mut index = Index::create_in_ram(Schema::from_bytes(vec![1]));
    let first = index.new_segment();
    let second = index.new_segment();
    let third = index.new_segment();
    let expected = vec![first.id(), second.id(), third.id()];
    index.publish_segment(first).unwrap();
    index.publish_segment(second).unwrap();
    index.publish_segment(third).unwrap();
    index.save_metas().unwrap();
    index.load_metas().unwrap();
    assert_eq!(index.segment_ids(), expected);
}

#[test]
fn atomic_write_replaces_content_wholesale() {
    let mut dir = RamDirectory::create();
    let path = String::from("a.bin");
    dir.atomic_write(&path, &vec![1, 2, 3]).unwrap();
    dir.atomic_write(&path, &vec![9]).unwrap();
    assert_eq!(dir.open_read(&path).unwrap(), vec![9]);
}

#[test]
fn sync_fails_when_only_postings_are_written() {
    let mut index = Index::create_in_ram(Schema::from_bytes(vec![1]));
    let segment = index.new_segment();
    segment.open_write(SegmentComponent::POSTINGS).unwrap();
    let err = index.sync(segment).unwrap_err();
    assert_eq!(err.kind, ErrorKind::NotFound);
}
