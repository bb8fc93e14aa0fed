use segment_index::error::ErrorKind;
use segment_index::meta::{decode_meta, encode_meta, IndexMeta};
use segment_index::schema::Schema;
use segment_index::segment::SegmentComponent;
use segment_index::segment_id::SegmentId;

#[test]
fn identity_renders_as_fixed_width_lowercase_hex() {
    let id = SegmentId::from_u128(0xdeadbeef);
    assert_eq!(id.uuid_string(), "000000000000000000000000deadbeef");
    let id = SegmentId::from_u128(u128::MAX);
    assert_eq!(id.uuid_string(), "ffffffffffffffffffffffffffffffff");
    let id = SegmentId::from_u128(0x0123456789abcdef0123456789abcdef);
    assert_eq!(id.uuid_string(), "0123456789abcdef0123456789abcdef");
}

#[test]
fn relative_paths_use_the_component_suffixes() {
    let id = SegmentId::from_u128(1);
    let stem = "00000000000000000000000000000001";
    assert_eq!(
        segment_index::segment::relative_path_of(&id, &SegmentComponent::INFO),
        format!("{}.info", stem)
    );
    assert_eq!(
        segment_index::segment::relative_path_of(&id, &SegmentComponent::POSTINGS),
        format!("{}.idx", stem)
    );
    assert_eq!(
        segment_index::segment::relative_path_of(&id, &SegmentComponent::TERMS),
        format!("{}.term", stem)
    );
    assert_eq!(
        segment_index::segment::relative_path_of(&id, &SegmentComponent::STORE),
        format!("{}.store", stem)
    );
}

#[test]
fn decoding_an_empty_file_fails() {
    let err = decode_meta(&Vec::new()).unwrap_err();
    assert_eq!(err.kind, ErrorKind::DecodeFailure);
}

#[test]
fn decoding_garbage_fails() {
    let err = decode_meta(&vec![7; 64]).unwrap_err();
    assert_eq!(err.kind, ErrorKind::DecodeFailure);
}

#[test]
fn decoding_a_wrong_version_byte_fails() {
    let mut bytes = encode_meta(&IndexMeta::with_schema(Schema::from_bytes(vec![1])));
    bytes[0] = 2;
    let err = decode_meta(&bytes).unwrap_err();
    assert_eq!(err.kind, ErrorKind::DecodeFailure);
}

#[test]
fn decoding_a_truncated_file_fails() {
    let mut meta = IndexMeta::with_schema(Schema::from_bytes(vec![1, 2, 3]));
    meta.push_segment(SegmentId::from_u128(77));
    let mut bytes = encode_meta(&meta);
    bytes.pop();
    let err = decode_meta(&bytes).unwrap_err();
    assert_eq!(err.kind, ErrorKind::DecodeFailure);
}

#[test]
fn decoding_with_a_bad_hex_digit_fails() {
    let mut meta = IndexMeta::with_schema(Schema::from_bytes(vec![1]));
    meta.push_segment(SegmentId::from_u128(5));
    let mut bytes = encode_meta(&meta);
    bytes[20] = b'G';
    let err = decode_meta(&bytes).unwrap_err();
    assert_eq!(err.kind, ErrorKind::DecodeFailure);
}

#[test]
fn decoding_with_trailing_bytes_fails() {
    let mut bytes = encode_meta(&IndexMeta::with_schema(Schema::from_bytes(vec![1])));
    bytes.push(0);
    let err = decode_meta(&bytes).unwrap_err();
    assert_eq!(err.kind, ErrorKind::DecodeFailure);
}

#[test]
fn schemas_compare_by_content() {
    let a = Schema::from_bytes(vec![1, 2]);
    let b = Schema::from_bytes(vec![1, 2]);
    let c = Schema::from_bytes(vec![1, 2, 3]);
    assert_eq!(a, b);
    assert_ne!(a, c);
}
