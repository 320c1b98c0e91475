use vstd::prelude::*;
use crate::error::DocError;
use crate::revision::{RevId, RevType, Revision, RevisionModel, RevisionRange};
use crate::store::{RevisionStore, chain_from};

verus! {

/// The state of the connection to the peer.
#[derive(Debug, Clone, Copy, PartialEq, Eq, Structural)]
pub enum WsState {
    Init,
    Connected,
    Disconnected,
}

/// The outbox with every entry for `id` taken out.
pub open spec fn acked(outbox: Seq<RevisionModel>, id: RevId) -> Seq<RevisionModel> {
    outbox.filter(|m: RevisionModel| m.rev_id != id)
}

/// Owns the revision chain of one document and the local revisions that the
/// peer has not acknowledged yet.
pub struct RevisionManager {
    doc_id: String,
    user_id: String,
    store: RevisionStore,
    outbox: Vec<Revision>,
}

impl RevisionManager {
    pub closed spec fn chain(&self) -> Seq<RevisionModel> {
        self.store.revisions()
    }

    pub closed spec fn start_id(&self) -> int {
        self.store.start_id()
    }

    /// The id of the last committed revision.
    pub open spec fn head(&self) -> int {
        self.start_id() + self.chain().len()
    }

    pub closed spec fn outbox(&self) -> Seq<RevisionModel> {
        self.outbox@.map_values(|r: Revision| r@)
    }

    pub closed spec fn doc_id_view(&self) -> Seq<char> {
        self.doc_id@
    }

    /// The chain is contiguous, and the outbox holds local revisions in
    /// strictly ascending order of id, none above the head.
    pub open spec fn wf(&self) -> bool {
        &&& chain_from(self.start_id(), self.chain())
        &&& forall|i: int, j: int| 0 <= i < j < self.outbox().len() ==> #[trigger] self.outbox()[i].rev_id < #[trigger] self.outbox()[j].rev_id
        &&& forall|i: int| 0 <= i < self.outbox().len() ==> #[trigger] self.outbox()[i].rev_id <= self.head()
    }

    pub fn new(doc_id: &str, user_id: &str, rev_id: RevId) -> (r: RevisionManager)
        ensures
            r.wf(),
            r.head() == rev_id,
            r.start_id() == rev_id,
            r.chain().len() == 0,
            r.outbox().len() == 0,
            r.doc_id_view() == doc_id@,
            r.user_view() == user_id@,
    {
        let r = RevisionManager {
            doc_id: String::from_str(doc_id),
            user_id: String::from_str(user_id),
            store: RevisionStore::new(rev_id),
            outbox: Vec::new(),
        };
        assert(r.outbox() =~= Seq::<RevisionModel>::empty());
        r
    }

    /// The current head, for read projections.
    pub fn rev_id(&self) -> (r: RevId)
        requires
            self.wf(),
        ensures
            r == self.head(),
    {
        self.store.head_id()
    }

    pub closed spec fn user_view(&self) -> Seq<char> {
        self.user_id@
    }

    /// The local user this manager commits for.
    pub fn user_id(&self) -> (r: &String)
        ensures
            r@ == self.user_view(),
    {
        &self.user_id
    }

    /// The pair `(base, id)` that the next revision takes: the head and the id
    /// after it; `RevIdExhausted` when the head is the largest id.
    pub fn next_rev_id(&self) -> (r: Result<(RevId, RevId), DocError>)
        requires
            self.wf(),
        ensures
            r is Ok <==> self.head() < u64::MAX,
            r matches Ok((b, n)) ==> b == self.head() && n == self.head() + 1,
            r is Err ==> r == Err::<(RevId, RevId), DocError>(DocError::RevIdExhausted),
    {
        let h = self.store.head_id();
        if h == u64::MAX {
            Err(DocError::RevIdExhausted)
        } else {
            Ok((h, h + 1))
        }
    }

    /// Commits a revision to the chain; a local one also goes to the outbox.
    /// A revision that does not follow the head is refused and nothing changes.
    pub fn add_revision(&mut self, rev: Revision) -> (r: Result<(), DocError>)
        requires
            old(self).wf(),
        ensures
            final(self).wf(),
            final(self).start_id() == old(self).start_id(),
            final(self).doc_id_view() == old(self).doc_id_view(),
            r is Ok <==> (rev@.base_rev_id == old(self).head() && rev@.rev_id == old(self).head() + 1),
            r is Ok ==> final(self).chain() == old(self).chain().push(rev@),
            r is Ok ==> final(self).outbox() == if rev@.ty == RevType::Local {
                old(self).outbox().push(rev@)
            } else {
                old(self).outbox()
            },
            r is Err ==> r == Err::<(), DocError>(DocError::RevisionConflict) && final(self).chain() == old(self).chain()
                && final(self).outbox() == old(self).outbox(),
    {
        let ghost m = rev@;
        let local = rev.ty == RevType::Local;
        let kept = if local { Some(rev.duplicate()) } else { None };
        let res = self.store.append(rev);
        match res {
            Ok(()) => {
                if let Some(copy) = kept {
                    self.outbox.push(copy);
                    assert(self.outbox() =~= old(self).outbox().push(m));
                }
                Ok(())
            },
            Err(e) => Err(e),
        }
    }

    /// Drops the outbox entry for `rev_id`; an id that is not there changes
    /// nothing and is no error.
    pub fn ack_rev(&mut self, rev_id: RevId)
        requires
            old(self).wf(),
        ensures
            final(self).wf(),
            final(self).chain() == old(self).chain(),
            final(self).start_id() == old(self).start_id(),
            final(self).doc_id_view() == old(self).doc_id_view(),
            final(self).outbox() == acked(old(self).outbox(), rev_id),
    {
        let mut kept: Vec<Revision> = Vec::new();
        let mut i: usize = 0;
        let ghost src = self.outbox();
        while i < self.outbox.len()
            invariant
                i <= self.outbox.len(),
                src == self.outbox(),
                self.outbox == old(self).outbox,
                kept@.map_values(|x: Revision| x@) == src.subrange(0, i as int).filter(|m: RevisionModel| m.rev_id != rev_id),
            decreases self.outbox.len() - i,
        {
            let ghost prev = src.subrange(0, i as int);
            let ghost next = src.subrange(0, i + 1);
            assert(next.drop_last() =~= prev);
            reveal(Seq::filter);
            assert(next.last() == self.outbox@[i as int]@);
            let ghost before = kept@.map_values(|x: Revision| x@);
            if self.outbox[i].rev_id != rev_id {
                kept.push(self.outbox[i].duplicate());
                assert(kept@.map_values(|x: Revision| x@) =~= before.push(self.outbox@[i as int]@));
            }
            i += 1;
        }
        assert(src.subrange(0, self.outbox.len() as int) =~= src);
        self.outbox = kept;
        proof {
            lemma_filter_keeps_order(src, rev_id, self.head());
        }
    }

    /// What to send again after a change of connection: on reconnection every
    /// unacknowledged revision, in ascending order of id; otherwise nothing.
    pub fn handle_ws_state_changed(&self, state: WsState) -> (r: Vec<Revision>)
        requires
            self.wf(),
        ensures
            r@.map_values(|x: Revision| x@) == if state == WsState::Connected {
                self.outbox()
            } else {
                Seq::<RevisionModel>::empty()
            },
    {
        let mut out: Vec<Revision> = Vec::new();
        if state == WsState::Connected {
            let mut i: usize = 0;
            while i < self.outbox.len()
                invariant
                    i <= self.outbox.len(),
                    out@.map_values(|x: Revision| x@) == self.outbox().subrange(0, i as int),
                decreases self.outbox.len() - i,
            {
                let ghost before = out@.map_values(|x: Revision| x@);
                out.push(self.outbox[i].duplicate());
                assert(out@.map_values(|x: Revision| x@) =~= before.push(self.outbox@[i as int]@));
                i += 1;
                assert(out@.map_values(|x: Revision| x@) =~= self.outbox().subrange(0, i as int));
            }
            assert(self.outbox().subrange(0, self.outbox.len() as int) =~= self.outbox());
        } else {
            assert(out@.map_values(|x: Revision| x@) =~= Seq::<RevisionModel>::empty());
        }
        out
    }

    /// The committed revisions whose ids lie in `range`, to send to the peer.
    pub fn send_revisions(&self, range: RevisionRange) -> (r: Vec<Revision>)
        requires
            self.wf(),
        ensures
            r@.map_values(|x: Revision| x@) == self.chain().filter(|m: RevisionModel| range.contains(m.rev_id)),
    {
        self.store.revisions_in_range(range)
    }
}

/// Taking entries out of an ascending outbox keeps it ascending and bounded.
proof fn lemma_filter_keeps_order(s: Seq<RevisionModel>, id: RevId, head: int)
    requires
        forall|i: int, j: int| 0 <= i < j < s.len() ==> #[trigger] s[i].rev_id < #[trigger] s[j].rev_id,
        forall|i: int| 0 <= i < s.len() ==> #[trigger] s[i].rev_id <= head,
    ensures
        forall|i: int, j: int| 0 <= i < j < acked(s, id).len() ==> #[trigger] acked(s, id)[i].rev_id < #[trigger] acked(s, id)[j].rev_id,
        forall|i: int| 0 <= i < acked(s, id).len() ==> #[trigger] acked(s, id)[i].rev_id <= head,
    decreases s.len(),
{
    reveal(Seq::filter);
    if s.len() > 0 {
        let t = s.drop_last();
        lemma_filter_keeps_order(t, id, head);
        assert(acked(s, id) == if s.last().rev_id != id { acked(t, id).push(s.last()) } else { acked(t, id) });
        if s.last().rev_id != id {
            assert forall|i: int| 0 <= i < t.len() implies #[trigger] t[i].rev_id <= s.last().rev_id - 1 by {
                assert(t[i] == s[i]);
                assert(s.last() == s[s.len() - 1]);
            }
            lemma_filter_keeps_order(t, id, s.last().rev_id - 1);
        }
    }
}

/// Acknowledging the same id twice is the same as acknowledging it once, and
/// acknowledging an id that is not in the outbox changes nothing.
pub proof fn lemma_ack_idempotent(outbox: Seq<RevisionModel>, id: RevId)
    ensures
        acked(acked(outbox, id), id) == acked(outbox, id),
        (forall|i: int| 0 <= i < outbox.len() ==> #[trigger] outbox[i].rev_id != id) ==> acked(outbox, id) == outbox,
    decreases outbox.len(),
{
    reveal(Seq::filter);
    if outbox.len() > 0 {
        let t = outbox.drop_last();
        lemma_ack_idempotent(t, id);
        if outbox.last().rev_id != id {
            assert(acked(outbox, id) == acked(t, id).push(outbox.last()));
            assert(acked(outbox, id).drop_last() =~= acked(t, id));
        }
        if forall|i: int| 0 <= i < outbox.len() ==> #[trigger] outbox[i].rev_id != id {
            assert(forall|i: int| 0 <= i < t.len() ==> #[trigger] t[i].rev_id != id ==> true);
            assert forall|i: int| 0 <= i < t.len() implies #[trigger] t[i].rev_id != id by {
                assert(t[i] == outbox[i]);
            }
            assert(outbox.last() == outbox[outbox.len() - 1]);
            assert(acked(outbox, id) =~= outbox);
        }
    } else {
        assert(acked(outbox, id) =~= outbox);
    }
}

} // verus!
