use vstd::prelude::*;

verus! {

/// A per-document revision identifier.
pub type RevId = u64;

/// Where a revision was made.
#[derive(Debug, Clone, Copy, PartialEq, Eq, Structural)]
pub enum RevType {
    Local,
    Remote,
}

/// A committed change: the document state after it, and its predecessor.
#[derive(Debug)]
pub struct Revision {
    pub base_rev_id: RevId,
    pub rev_id: RevId,
    pub delta_data: Vec<u8>,
    pub doc_id: String,
    pub ty: RevType,
}

/// The mathematical value of a revision.
pub struct RevisionModel {
    pub base_rev_id: RevId,
    pub rev_id: RevId,
    pub delta_data: Seq<u8>,
    pub doc_id: Seq<char>,
    pub ty: RevType,
}

impl View for Revision {
    type V = RevisionModel;

    open spec fn view(&self) -> RevisionModel {
        RevisionModel {
            base_rev_id: self.base_rev_id,
            rev_id: self.rev_id,
            delta_data: self.delta_data@,
            doc_id: self.doc_id@,
            ty: self.ty,
        }
    }
}

/// An inclusive range of revision ids, asked for again by a peer.
#[derive(Debug, Clone, Copy, PartialEq, Eq, Structural)]
pub struct RevisionRange {
    pub start: RevId,
    pub end: RevId,
}

impl RevisionRange {
    pub open spec fn contains(self, id: RevId) -> bool {
        self.start <= id && id <= self.end
    }
}

/// A copy of a byte buffer, element by element.
pub fn copy_bytes(b: &Vec<u8>) -> (r: Vec<u8>)
    ensures
        r@ == b@,
{
    let mut r: Vec<u8> = Vec::new();
    let mut i: usize = 0;
    while i < b.len()
        invariant
            i <= b.len(),
            r@ == b@.subrange(0, i as int),
        decreases b.len() - i,
    {
        r.push(b[i]);
        i += 1;
        assert(r@ =~= b@.subrange(0, i as int));
    }
    assert(r@ =~= b@);
    r
}

impl Revision {
    pub fn new(base_rev_id: RevId, rev_id: RevId, delta_data: Vec<u8>, doc_id: &str, ty: RevType) -> (r: Revision)
        ensures
            r@.base_rev_id == base_rev_id,
            r@.rev_id == rev_id,
            r@.delta_data == delta_data@,
            r@.doc_id == doc_id@,
            r@.ty == ty,
    {
        Revision { base_rev_id, rev_id, delta_data, doc_id: String::from_str(doc_id), ty }
    }

    /// A copy of this revision with the same value.
    pub fn duplicate(&self) -> (r: Revision)
        ensures
            r@ == self@,
    {
        Revision {
            base_rev_id: self.base_rev_id,
            rev_id: self.rev_id,
            delta_data: copy_bytes(&self.delta_data),
            doc_id: self.doc_id.clone(),
            ty: self.ty,
        }
    }
}

} // verus!
