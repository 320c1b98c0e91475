use vstd::prelude::*;
use crate::error::DocError;
use crate::revision::{RevId, Revision, RevisionModel, RevisionRange};

verus! {

/// The contiguous chain of revisions `start + 1, start + 2, ...`, each with
/// its predecessor as base.
pub open spec fn chain_from(start: int, revs: Seq<RevisionModel>) -> bool {
    forall|i: int|
        0 <= i < revs.len() ==> {
            &&& #[trigger] revs[i].rev_id == start + i + 1
            &&& revs[i].base_rev_id == start + i
        }
}

/// The persisted revision log of one document.
pub struct RevisionStore {
    start: RevId,
    revs: Vec<Revision>,
}

impl RevisionStore {
    pub closed spec fn start_id(&self) -> int {
        self.start as int
    }

    pub closed spec fn revisions(&self) -> Seq<RevisionModel> {
        self.revs@.map_values(|r: Revision| r@)
    }

    /// The id of the last revision of the chain.
    pub open spec fn head(&self) -> int {
        self.start_id() + self.revisions().len()
    }

    pub open spec fn wf(&self) -> bool {
        chain_from(self.start_id(), self.revisions())
    }

    /// An empty log seeded with the id of the document it starts from.
    pub fn new(start: RevId) -> (s: RevisionStore)
        ensures
            s.wf(),
            s.start_id() == start,
            s.revisions().len() == 0,
    {
        let s = RevisionStore { start, revs: Vec::new() };
        assert(s.revisions() =~= Seq::<RevisionModel>::empty());
        s
    }

    pub fn head_id(&self) -> (r: RevId)
        requires
            self.wf(),
        ensures
            r == self.head(),
    {
        if self.revs.len() == 0 {
            self.start
        } else {
            let ghost k = self.revs.len() - 1;
            assert(self.revisions()[k].rev_id == self.start + k + 1);
            self.revs[self.revs.len() - 1].rev_id
        }
    }

    /// The head and the document state that the chain ends in: each revision
    /// carries the whole state after it, so replaying the chain comes to the
    /// last one's. `None` for an empty chain, which the caller fills from the
    /// remote authority.
    pub fn latest(&self) -> (r: (RevId, Option<Vec<u8>>))
        requires
            self.wf(),
        ensures
            r.0 == self.head(),
            r.1 is None <==> self.revisions().len() == 0,
            r.1 matches Some(d) ==> d@ == self.revisions().last().delta_data,
    {
        let head = self.head_id();
        if self.revs.len() == 0 {
            (head, None)
        } else {
            (head, Some(crate::revision::copy_bytes(&self.revs[self.revs.len() - 1].delta_data)))
        }
    }

    /// Appends a revision whose base is the current head and whose id follows
    /// it; any other revision is refused and the log is left as it was.
    pub fn append(&mut self, rev: Revision) -> (r: Result<(), DocError>)
        requires
            old(self).wf(),
        ensures
            final(self).wf(),
            final(self).start_id() == old(self).start_id(),
            r is Ok <==> (rev@.base_rev_id == old(self).head() && rev@.rev_id == old(self).head() + 1),
            r is Ok ==> final(self).revisions() == old(self).revisions().push(rev@),
            r is Err ==> r == Err::<(), DocError>(DocError::RevisionConflict) && final(self).revisions()
                == old(self).revisions(),
    {
        let head = self.head_id();
        if rev.base_rev_id == head && head < u64::MAX && rev.rev_id == head + 1 {
            let ghost rev_model = rev@;
            self.revs.push(rev);
            assert(self.revisions() =~= old(self).revisions().push(rev_model));
            Ok(())
        } else {
            Err(DocError::RevisionConflict)
        }
    }

    /// The revisions of the log whose ids lie in `range`, in ascending order.
    pub fn revisions_in_range(&self, range: RevisionRange) -> (r: Vec<Revision>)
        requires
            self.wf(),
        ensures
            r@.map_values(|x: Revision| x@) == self.revisions().filter(|m: RevisionModel| range.contains(m.rev_id)),
    {
        let mut out: Vec<Revision> = Vec::new();
        let mut i: usize = 0;
        while i < self.revs.len()
            invariant
                i <= self.revs.len(),
                out@.map_values(|x: Revision| x@) == self.revisions().subrange(0, i as int).filter(|m: RevisionModel| range.contains(m.rev_id)),
            decreases self.revs.len() - i,
        {
            let ghost prev = self.revisions().subrange(0, i as int);
            let ghost next = self.revisions().subrange(0, i + 1);
            assert(next.drop_last() =~= prev);
            reveal(Seq::filter);
            assert(next.last() == self.revs@[i as int]@);
            assert(next.filter(|m: RevisionModel| range.contains(m.rev_id)) == if range.contains(next.last().rev_id) { prev.filter(|m: RevisionModel| range.contains(m.rev_id)).push(next.last()) } else { prev.filter(|m: RevisionModel| range.contains(m.rev_id)) });
            let ghost before = out@.map_values(|x: Revision| x@);
            let id = self.revs[i].rev_id;
            assert(range.contains(next.last().rev_id) == (range.start <= id && id <= range.end));
            if range.start <= id && id <= range.end {
                out.push(self.revs[i].duplicate());
                assert(out@.map_values(|x: Revision| x@) =~= before.push(self.revs@[i as int]@));
                assert(out@.map_values(|x: Revision| x@) == next.filter(|m: RevisionModel| range.contains(m.rev_id)));
            } else {
                assert(out@.map_values(|x: Revision| x@) == next.filter(|m: RevisionModel| range.contains(m.rev_id)));
            }
            i += 1;
        }
        assert(self.revisions().subrange(0, self.revs.len() as int) =~= self.revisions());
        out
    }
}

/// In a well-formed log each revision follows the one before it: its id is one
/// more, and its base is the previous id.
pub proof fn lemma_chain_contiguous(s: &RevisionStore, i: int)
    requires
        s.wf(),
        0 <= i,
        i + 1 < s.revisions().len(),
    ensures
        s.revisions()[i + 1].rev_id == s.revisions()[i].rev_id + 1,
        s.revisions()[i + 1].base_rev_id == s.revisions()[i].rev_id,
{
    assert(s.revisions()[i].rev_id == s.start_id() + i + 1);
    assert(s.revisions()[i + 1].rev_id == s.start_id() + (i + 1) + 1);
}

} // verus!
