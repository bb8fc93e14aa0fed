//! Segment addressing: the logical component kinds a segment may own, and
//! the mapping from identity and component kind to a physical storage path.

use vstd::prelude::*;
use vstd::string::StringExecFns;

use crate::segment_id::{hex_chars, SegmentId};

verus! {

/// A document identifier inside a segment.
pub type DocId = u32;

/// Summary information recorded about one segment.
#[derive(Clone, Copy, Debug, PartialEq, Eq, Structural)]
pub struct SegmentInfo {
    pub max_doc: DocId,
}

/// The logical file kinds a segment may own.
#[allow(non_camel_case_types)]
#[derive(Clone, Copy, Debug, PartialEq, Eq, Structural)]
pub enum SegmentComponent {
    INFO,
    POSTINGS,
    TERMS,
    STORE,
}

/// The fixed filename suffix of each component kind.
pub open spec fn suffix_chars(component: SegmentComponent) -> Seq<char> {
    match component {
        SegmentComponent::INFO => ".info"@,
        SegmentComponent::POSTINGS => ".idx"@,
        SegmentComponent::TERMS => ".term"@,
        SegmentComponent::STORE => ".store"@,
    }
}

/// The storage path of one component of one segment: the hexadecimal
/// identity followed by the component's suffix.
pub open spec fn relative_path_spec(id: u128, component: SegmentComponent) -> Seq<char> {
    hex_chars(id as nat, 32) + suffix_chars(component)
}

/// The fixed filename suffix of a component kind.
pub fn path_suffix(component: &SegmentComponent) -> (r: &'static str)
    ensures
        r@ == suffix_chars(*component),
{
    match *component {
        SegmentComponent::INFO => ".info",
        SegmentComponent::POSTINGS => ".idx",
        SegmentComponent::TERMS => ".term",
        SegmentComponent::STORE => ".store",
    }
}

/// Resolves the storage path of one component of the segment with the given
/// identity.
pub fn relative_path_of(id: &SegmentId, component: &SegmentComponent) -> (r: String)
    ensures
        r@ == relative_path_spec(id@, *component),
{
    let stem = id.uuid_string();
    stem.concat(path_suffix(component))
}

} // verus!
