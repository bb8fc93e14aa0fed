//! The schema snapshot held in the catalog. The index core treats the schema
//! as an opaque, serializable value: a byte string chosen by the caller.

use vstd::prelude::*;

verus! {

/// An opaque schema representation. The index core never interprets it; it is
/// stored in the catalog and handed back unchanged.
#[derive(Debug)]
pub struct Schema {
    repr: Vec<u8>,
}

impl View for Schema {
    type V = Seq<u8>;

    closed spec fn view(&self) -> Seq<u8> {
        self.repr@
    }
}

/// Copies a byte vector element by element.
pub(crate) fn clone_bytes(v: &Vec<u8>) -> (r: Vec<u8>)
    ensures
        r@ == v@,
{
    let mut out: Vec<u8> = Vec::new();
    let mut i: usize = 0;
    while i < v.len()
        invariant
            i <= v@.len(),
            out@ == v@.subrange(0, i as int),
        decreases v@.len() - i,
    {
        out.push(v[i]);
        i = i + 1;
        proof {
            assert(out@ =~= v@.subrange(0, i as int));
        }
    }
    proof {
        assert(out@ =~= v@);
    }
    out
}

impl Schema {
    /// Builds a schema from its opaque byte representation.
    pub fn from_bytes(repr: Vec<u8>) -> (r: Schema)
        ensures
            r@ == repr@,
    {
        Schema { repr }
    }

    /// An empty schema, the placeholder used before a catalog is loaded.
    pub fn new() -> (r: Schema)
        ensures
            r@ == Seq::<u8>::empty(),
    {
        Schema { repr: Vec::new() }
    }

    /// The opaque byte representation of this schema.
    pub fn as_bytes(&self) -> (r: &Vec<u8>)
        ensures
            r@ == self@,
    {
        &self.repr
    }
}

impl Clone for Schema {
    /// The clone carries the same representation.
    fn clone(&self) -> (r: Schema)
        ensures
            r@ == self@,
    {
        Schema { repr: clone_bytes(&self.repr) }
    }
}

impl PartialEq for Schema {
    fn eq(&self, other: &Schema) -> bool {
        bytes_eq(&self.repr, &other.repr)
    }
}

impl vstd::std_specs::cmp::PartialEqSpecImpl for Schema {
    open spec fn obeys_eq_spec() -> bool {
        true
    }

    open spec fn eq_spec(&self, other: &Schema) -> bool {
        self@ == other@
    }
}

/// Compares two byte vectors element by element.
pub(crate) fn bytes_eq(a: &Vec<u8>, b: &Vec<u8>) -> (r: bool)
    ensures
        r == (a@ == b@),
{
    if a.len() != b.len() {
        return false;
    }
    let mut i: usize = 0;
    while i < a.len()
        invariant
            i <= a@.len(),
            a@.len() == b@.len(),
            forall|j: int| 0 <= j < i ==> a@[j] == b@[j],
        decreases a@.len() - i,
    {
        if a[i] != b[i] {
            return false;
        }
        i = i + 1;
    }
    proof {
        assert(a@ =~= b@);
    }
    true
}

} // verus!
