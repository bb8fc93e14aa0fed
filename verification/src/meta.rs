//! The index metadata catalog: the serializable record of the committed
//! segment list plus the schema snapshot, and its self-describing file
//! format.
//!
//! The catalog file is a versioned byte document: a format-version byte,
//! the segment count as a 16-digit hexadecimal field, each segment identity
//! as a 32-digit hexadecimal field, the schema length as a 16-digit
//! hexadecimal field, and the opaque schema bytes. Decoding accepts exactly
//! the encodings this module produces and reproduces the encoded catalog.

use vstd::prelude::*;

use crate::codec::{
    append_bytes, hex_bytes, hex_bytes_append, lemma_hex_bytes_len, lemma_hex_round_trip,
    lemma_npow16_16, lemma_npow16_32, npow16, parse_hex, parse_hex_field,
};
use crate::error::{ErrorKind, IndexError};
use crate::schema::{clone_bytes, Schema};
use crate::segment_id::SegmentId;

verus! {

/// The format version written as the first byte of every catalog file.
pub const CATALOG_VERSION: u8 = 1;

/// The mathematical content of a catalog: the committed segment identities in
/// publication order, and the opaque schema bytes.
pub ghost struct MetaView {
    pub segments: Seq<u128>,
    pub schema: Seq<u8>,
}

/// The catalog of committed segments plus the schema snapshot. An identity
/// appears in `segments` exactly when it has been published.
#[derive(Debug)]
pub struct IndexMeta {
    segments: Vec<SegmentId>,
    schema: Schema,
}

impl View for IndexMeta {
    type V = MetaView;

    closed spec fn view(&self) -> MetaView {
        MetaView {
            segments: self.segments@.map_values(|sid: SegmentId| sid@),
            schema: self.schema@,
        }
    }
}

impl IndexMeta {
    /// A fresh catalog: no committed segment, seeded with the given schema.
    pub fn with_schema(schema: Schema) -> (r: IndexMeta)
        ensures
            r@.segments == Seq::<u128>::empty(),
            r@.schema == schema@,
    {
        let segments: Vec<SegmentId> = Vec::new();
        proof {
            assert(segments@.map_values(|sid: SegmentId| sid@) =~= Seq::<u128>::empty());
        }
        IndexMeta { segments, schema }
    }

    /// The schema snapshot.
    pub fn schema(&self) -> (r: &Schema)
        ensures
            r@ == self@.schema,
    {
        &self.schema
    }

    /// The number of committed segments.
    pub fn segment_count(&self) -> (r: usize)
        ensures
            r == self@.segments.len(),
    {
        self.segments.len()
    }

    /// The committed segment identities, in publication order.
    pub fn segment_ids(&self) -> (r: Vec<SegmentId>)
        ensures
            r@.map_values(|sid: SegmentId| sid@) == self@.segments,
    {
        let mut out: Vec<SegmentId> = Vec::new();
        let mut i: usize = 0;
        while i < self.segments.len()
            invariant
                i <= self.segments@.len(),
                out@ == self.segments@.subrange(0, i as int),
            decreases self.segments@.len() - i,
        {
            out.push(self.segments[i]);
            i = i + 1;
            proof {
                assert(out@ =~= self.segments@.subrange(0, i as int));
            }
        }
        proof {
            assert(out@ =~= self.segments@);
        }
        out
    }

    /// Appends a newly published identity to the committed list. The schema
    /// is untouched.
    pub fn push_segment(&mut self, id: SegmentId)
        ensures
            final(self)@.segments == old(self)@.segments.push(id@),
            final(self)@.schema == old(self)@.schema,
    {
        self.segments.push(id);
        proof {
            assert(self.segments@.map_values(|sid: SegmentId| sid@) =~= old(
                self,
            )@.segments.push(id@));
        }
    }
}

/// The identities of `ids`, encoded as consecutive 32-digit hexadecimal
/// fields.
pub open spec fn encode_ids(ids: Seq<u128>) -> Seq<u8>
    decreases ids.len(),
{
    if ids.len() == 0 {
        Seq::empty()
    } else {
        encode_ids(ids.drop_last()) + hex_bytes(ids.last() as nat, 32)
    }
}

/// The first `k` identities read from consecutive 32-digit hexadecimal
/// fields of `s` starting at `off`; `None` if any field does not parse.
pub open spec fn parse_ids(s: Seq<u8>, off: int, k: nat) -> Option<Seq<u128>>
    decreases k,
{
    if k == 0 {
        Option::Some(Seq::empty())
    } else {
        match parse_ids(s, off, (k - 1) as nat) {
            Option::None => Option::None,
            Option::Some(rest) => {
                let lo = off + 32 * ((k - 1) as int);
                match parse_hex(s.subrange(lo, lo + 32)) {
                    Option::None => Option::None,
                    Option::Some(v) => Option::Some(rest.push(v as u128)),
                }
            },
        }
    }
}

/// The full encoding of a catalog.
pub open spec fn spec_encode_meta(m: MetaView) -> Seq<u8> {
    seq![CATALOG_VERSION] + hex_bytes(m.segments.len(), 16) + encode_ids(m.segments) + hex_bytes(
        m.schema.len(),
        16,
    ) + m.schema
}

/// The catalog read back from `s`; `None` exactly when `s` is not a catalog
/// encoding.
pub open spec fn spec_decode_meta(s: Seq<u8>) -> Option<MetaView> {
    if s.len() < 17 {
        Option::None
    } else if s[0] != CATALOG_VERSION {
        Option::None
    } else {
        match parse_hex(s.subrange(1, 17)) {
            Option::None => Option::None,
            Option::Some(count) => {
                if s.len() < 33 + 32 * count {
                    Option::None
                } else {
                    match parse_ids(s, 17, count) {
                        Option::None => Option::None,
                        Option::Some(ids) => {
                            let off = 17 + 32 * (count as int);
                            match parse_hex(s.subrange(off, off + 16)) {
                                Option::None => Option::None,
                                Option::Some(slen) => {
                                    if s.len() == off + 16 + slen {
                                        Option::Some(
                                            MetaView {
                                                segments: ids,
                                                schema: s.subrange(off + 16, s.len() as int),
                                            },
                                        )
                                    } else {
                                        Option::None
                                    }
                                },
                            }
                        },
                    }
                }
            },
        }
    }
}

pub proof fn lemma_encode_ids_len(ids: Seq<u128>)
    ensures
        encode_ids(ids).len() == 32 * ids.len(),
    decreases ids.len(),
{
    if ids.len() > 0 {
        lemma_encode_ids_len(ids.drop_last());
        lemma_hex_bytes_len(ids.last() as nat, 32);
    }
}

/// A run of fields that does not parse at one position does not parse as a
/// whole.
pub proof fn lemma_parse_ids_none(s: Seq<u8>, off: int, k: nat, j: nat)
    requires
        j < k,
        parse_hex(s.subrange(off + 32 * (j as int), off + 32 * (j as int) + 32)) is None,
    ensures
        parse_ids(s, off, k) is None,
    decreases k,
{
    if j + 1 < k {
        lemma_parse_ids_none(s, off, (k - 1) as nat, j);
    }
}

/// Reading identity fields back from their encoding reproduces the
/// identities.
pub proof fn lemma_ids_round_trip(s: Seq<u8>, off: int, ids: Seq<u128>)
    requires
        0 <= off,
        off + 32 * ids.len() <= s.len(),
        s.subrange(off, off + 32 * ids.len()) == encode_ids(ids),
    ensures
        parse_ids(s, off, ids.len()) == Some(ids),
    decreases ids.len(),
{
    if ids.len() == 0 {
        assert(Seq::<u128>::empty() =~= ids);
    } else {
        let k = ids.len() as int;
        let front = ids.drop_last();
        lemma_encode_ids_len(front);
        lemma_hex_bytes_len(ids.last() as nat, 32);
        assert(s.subrange(off, off + 32 * (k - 1)) =~= encode_ids(front)) by {
            assert forall|i: int| 0 <= i < 32 * (k - 1) implies s.subrange(off, off + 32 * (k - 1))[i]
                == encode_ids(front)[i] by {
                assert(s.subrange(off, off + 32 * k)[i] == encode_ids(ids)[i]);
            }
        }
        lemma_ids_round_trip(s, off, front);
        assert(s.subrange(off + 32 * (k - 1), off + 32 * (k - 1) + 32) =~= hex_bytes(
            ids.last() as nat,
            32,
        )) by {
            assert forall|i: int| 0 <= i < 32 implies s.subrange(
                off + 32 * (k - 1),
                off + 32 * (k - 1) + 32,
            )[i] == hex_bytes(ids.last() as nat, 32)[i] by {
                assert(s.subrange(off, off + 32 * k)[32 * (k - 1) + i] == encode_ids(ids)[32 * (k
                    - 1) + i]);
            }
        }
        lemma_npow16_32();
        lemma_hex_round_trip(ids.last() as nat, 32);
        assert(front.push(ids.last()) =~= ids);
    }
}

/// The catalog format round-trips: decoding an encoded catalog reproduces it,
/// segment order preserved. This is the heart of the persist-then-reopen
/// guarantee.
pub proof fn lemma_meta_round_trip(m: MetaView)
    requires
        m.segments.len() < npow16(16),
        m.schema.len() < npow16(16),
    ensures
        spec_decode_meta(spec_encode_meta(m)) == Some(m),
{
    let e = spec_encode_meta(m);
    let c = m.segments.len() as int;
    let sl = m.schema.len() as int;
    lemma_hex_bytes_len(m.segments.len(), 16);
    lemma_hex_bytes_len(m.schema.len(), 16);
    lemma_encode_ids_len(m.segments);
    assert(e.len() == 33 + 32 * c + sl);
    assert(e[0] == CATALOG_VERSION);
    assert(e.subrange(1, 17) =~= hex_bytes(m.segments.len(), 16));
    lemma_hex_round_trip(m.segments.len(), 16);
    assert(e.subrange(17, 17 + 32 * c) =~= encode_ids(m.segments));
    lemma_ids_round_trip(e, 17, m.segments);
    let off = 17 + 32 * c;
    assert(e.subrange(off, off + 16) =~= hex_bytes(m.schema.len(), 16));
    lemma_hex_round_trip(m.schema.len(), 16);
    assert(e.subrange(off + 16, e.len() as int) =~= m.schema);
}

/// Builds the error reported for content that is not a valid catalog.
fn decode_error() -> (r: IndexError)
    ensures
        r.kind == ErrorKind::DecodeFailure,
{
    IndexError { kind: ErrorKind::DecodeFailure, path: String::new() }
}

/// Serializes the catalog into its file format.
pub fn encode_meta(m: &IndexMeta) -> (r: Vec<u8>)
    ensures
        r@ == spec_encode_meta(m@),
{
    let mut out: Vec<u8> = Vec::new();
    out.push(CATALOG_VERSION);
    proof {
        assert(out@ =~= seq![CATALOG_VERSION]);
    }
    let count = m.segments.len();
    hex_bytes_append(&mut out, count as u128, 16);
    let ghost head = seq![CATALOG_VERSION] + hex_bytes(m@.segments.len(), 16);
    proof {
        assert(m@.segments.len() == m.segments@.len());
        assert(out@ == head);
    }
    let mut i: usize = 0;
    while i < m.segments.len()
        invariant
            i <= m.segments@.len(),
            head == seq![CATALOG_VERSION] + hex_bytes(m@.segments.len(), 16),
            m@.segments == m.segments@.map_values(|sid: SegmentId| sid@),
            out@ == head + encode_ids(m@.segments.take(i as int)),
        decreases m.segments@.len() - i,
    {
        let ghost prev = m@.segments.take(i as int);
        hex_bytes_append(&mut out, m.segments[i].to_u128(), 32);
        i = i + 1;
        proof {
            let cur = m@.segments.take(i as int);
            assert(cur.drop_last() =~= prev);
            assert(cur.last() == m@.segments[i - 1]);
            assert(encode_ids(cur) == encode_ids(prev) + hex_bytes(m@.segments[i - 1] as nat, 32));
            assert(out@ =~= head + encode_ids(cur));
        }
    }
    proof {
        assert(m@.segments.take(i as int) =~= m@.segments);
    }
    let schema_bytes = m.schema.as_bytes();
    hex_bytes_append(&mut out, schema_bytes.len() as u128, 16);
    append_bytes(&mut out, schema_bytes);
    proof {
        assert(out@ =~= spec_encode_meta(m@));
    }
    out
}

/// Parses a catalog file. Succeeds exactly on the encodings `encode_meta`
/// produces; anything else is a decode failure, never a panic.
pub fn decode_meta(bytes: &Vec<u8>) -> (r: Result<IndexMeta, IndexError>)
    ensures
        r is Ok ==> spec_decode_meta(bytes@) == Some(r->Ok_0@),
        r is Err ==> spec_decode_meta(bytes@) is None && r->Err_0.kind == ErrorKind::DecodeFailure,
{
    let total = bytes.len();
    if total < 33 {
        return Err(decode_error());
    }
    if bytes[0] != CATALOG_VERSION {
        return Err(decode_error());
    }
    let count128 = match parse_hex_field(bytes, 1, 16) {
        Option::None => {
            return Err(decode_error());
        },
        Option::Some(c) => c,
    };
    proof {
        lemma_npow16_16();
    }
    let need = 33u128 + 32u128 * count128;
    if (total as u128) < need {
        return Err(decode_error());
    }
    let count = count128 as usize;
    let mut ids: Vec<SegmentId> = Vec::new();
    let mut k: usize = 0;
    while k < count
        invariant
            k <= count,
            count == count128 as nat,
            33 + 32 * (count as nat) <= total,
            total == bytes@.len(),
            parse_hex(bytes@.subrange(1, 17)) == Some(count as nat),
            parse_ids(bytes@, 17, k as nat) == Some(
                ids@.map_values(|sid: SegmentId| sid@),
            ),
        decreases count - k,
    {
        let lo = 17 + 32 * k;
        let id128 = match parse_hex_field(bytes, lo, 32) {
            Option::None => {
                proof {
                    lemma_parse_ids_none(bytes@, 17, count as nat, k as nat);
                }
                return Err(decode_error());
            },
            Option::Some(v) => v,
        };
        let ghost prev = ids@.map_values(|sid: SegmentId| sid@);
        ids.push(SegmentId::from_u128(id128));
        k = k + 1;
        proof {
            assert(ids@.map_values(|sid: SegmentId| sid@) =~= prev.push(id128));
        }
    }
    let off = 17 + 32 * count;
    let slen128 = match parse_hex_field(bytes, off, 16) {
        Option::None => {
            return Err(decode_error());
        },
        Option::Some(v) => v,
    };
    if (total as u128) != (off as u128) + 16 + slen128 {
        return Err(decode_error());
    }
    let start = off + 16;
    let mut schema_bytes: Vec<u8> = Vec::new();
    let mut j: usize = 0;
    while j < total - start
        invariant
            start + j <= total,
            total == bytes@.len(),
            start == 17 + 32 * (count as nat) + 16,
            schema_bytes@ == bytes@.subrange(start as int, start as int + j as int),
        decreases total - start - j,
    {
        schema_bytes.push(bytes[start + j]);
        j = j + 1;
        proof {
            assert(schema_bytes@ =~= bytes@.subrange(start as int, start as int + j as int));
        }
    }
    proof {
        assert(schema_bytes@ =~= bytes@.subrange(start as int, bytes@.len() as int));
    }
    let meta = IndexMeta { segments: ids, schema: Schema::from_bytes(schema_bytes) };
    proof {
        assert(spec_decode_meta(bytes@) == Some(meta@));
    }
    Ok(meta)
}

impl Clone for IndexMeta {
    /// The clone records the same committed segments and schema.
    fn clone(&self) -> (r: IndexMeta)
        ensures
            r@ == self@,
    {
        IndexMeta { segments: self.segment_ids(), schema: self.schema.clone() }
    }
}

} // verus!
