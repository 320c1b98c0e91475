use vstd::prelude::*;
use crate::codec::{encode, from_bytes, to_bytes};
use crate::document::{
    deleted, edited, formatted, inserted, redo_step, replaced, undo_step, Attribute, Document, DocumentModel,
    Glyph, Interval, UndoResult,
};
use crate::error::DocError;
use crate::manager::{acked, RevisionManager, WsState};
use crate::revision::{RevId, RevType, Revision, RevisionModel, RevisionRange};

verus! {

/// A read projection of a document: its text and the revision it stands at.
#[derive(Debug)]
pub struct Doc {
    pub id: String,
    pub data: String,
    pub rev_id: RevId,
}

/// The kinds of message that the peer sends about a document.
#[derive(Debug, Clone, Copy, PartialEq, Eq, Structural)]
pub enum WsDataType {
    PushRev,
    PullRev,
    NewDocUser,
    Acked,
    Conflict,
}

/// A message from the peer about a document.
#[derive(Debug)]
pub struct WsDocumentData {
    pub doc_id: String,
    pub ty: WsDataType,
    pub data: Vec<u8>,
}

pub open spec fn char_of(g: Glyph) -> char {
    g.ch
}

/// The text of a document, without its formatting.
pub open spec fn text_of(c: Seq<Glyph>) -> Seq<char> {
    Seq::new(c.len(), |i: int| char_of(c[i]))
}

/// The little-endian `u64` in the eight bytes of `b` from `p` on.
pub open spec fn read_u64(b: Seq<u8>, p: int) -> u64 {
    (b[p] as u64) | ((b[p + 1] as u64) << 8u64) | ((b[p + 2] as u64) << 16u64) | ((b[p + 3] as u64) << 24u64)
        | ((b[p + 4] as u64) << 32u64) | ((b[p + 5] as u64) << 40u64) | ((b[p + 6] as u64) << 48u64)
        | ((b[p + 7] as u64) << 56u64)
}

/// The revision that a local edit commits: it follows `base` and carries the
/// encoded content.
pub open spec fn local_rev(base: int, content: Seq<Glyph>, doc_id: Seq<char>) -> RevisionModel {
    RevisionModel {
        base_rev_id: base as u64,
        rev_id: (base + 1) as u64,
        delta_data: encode(content),
        doc_id,
        ty: RevType::Local,
    }
}

/// Relies on `String`'s `FromIterator<char>`: the string of exactly these
/// characters, in order.
#[verifier::external_body]
fn string_from_chars(chars: &Vec<char>) -> (r: String)
    ensures
        r@ == chars@,
{
    chars.iter().collect()
}

fn read_u64_at(b: &Vec<u8>, p: usize) -> (r: u64)
    requires
        p + 8 <= b.len(),
    ensures
        r == read_u64(b@, p as int),
{
    (b[p] as u64) | ((b[p + 1] as u64) << 8u64) | ((b[p + 2] as u64) << 16u64) | ((b[p + 3] as u64) << 24u64)
        | ((b[p + 4] as u64) << 32u64) | ((b[p + 5] as u64) << 40u64) | ((b[p + 6] as u64) << 48u64)
        | ((b[p + 7] as u64) << 56u64)
}

fn bytes_from(b: &Vec<u8>, p: usize) -> (r: Vec<u8>)
    requires
        p <= b.len(),
    ensures
        r@ == b@.subrange(p as int, b.len() as int),
{
    let mut r: Vec<u8> = Vec::new();
    let mut i: usize = p;
    while i < b.len()
        invariant
            p <= i <= b.len(),
            r@ == b@.subrange(p as int, i as int),
        decreases b.len() - i,
    {
        r.push(b[i]);
        i += 1;
        assert(r@ =~= b@.subrange(p as int, i as int));
    }
    r
}

/// The edit session of one open document: the document state, its revision
/// manager, and the revisions waiting to be sent to the peer.
pub struct ClientEditDoc {
    pub doc_id: String,
    rev_manager: RevisionManager,
    document: Document,
    outgoing: Vec<Revision>,
}

impl ClientEditDoc {
    pub closed spec fn model(&self) -> DocumentModel {
        self.document@
    }

    pub closed spec fn head(&self) -> int {
        self.rev_manager.head()
    }

    pub closed spec fn chain(&self) -> Seq<RevisionModel> {
        self.rev_manager.chain()
    }

    pub closed spec fn outbox(&self) -> Seq<RevisionModel> {
        self.rev_manager.outbox()
    }

    pub closed spec fn outgoing(&self) -> Seq<RevisionModel> {
        self.outgoing@.map_values(|r: Revision| r@)
    }

    pub closed spec fn id_view(&self) -> Seq<char> {
        self.doc_id@
    }

    pub closed spec fn wf(&self) -> bool {
        &&& self.rev_manager.wf()
        &&& self.rev_manager.doc_id_view() == self.doc_id@
    }

    /// Nothing that a caller can observe has changed.
    pub open spec fn unchanged(a: ClientEditDoc, b: ClientEditDoc) -> bool {
        &&& b.model() == a.model()
        &&& b.head() == a.head()
        &&& b.chain() == a.chain()
        &&& b.outbox() == a.outbox()
        &&& b.outgoing() == a.outgoing()
        &&& b.id_view() == a.id_view()
    }

    /// `b` is `a` after a local change to the document state `m`, committed as
    /// the revision after the head, kept for acknowledgment and queued to send.
    pub open spec fn committed(a: ClientEditDoc, b: ClientEditDoc, m: DocumentModel) -> bool {
        let rev = local_rev(a.head(), m.content, a.id_view());
        &&& b.model() == (DocumentModel { saved: (a.head() + 1) as u64, ..m })
        &&& b.head() == a.head() + 1
        &&& b.chain() == a.chain().push(rev)
        &&& b.outbox() == a.outbox().push(rev)
        &&& b.outgoing() == a.outgoing().push(rev)
        &&& b.id_view() == a.id_view()
    }

    /// Opens a session on a document at revision `rev_id` whose state is
    /// encoded in `delta_data`; `MalformedPayload` if it encodes none.
    pub fn new(doc_id: &str, user_id: &str, rev_id: RevId, delta_data: &Vec<u8>) -> (r: Result<ClientEditDoc, DocError>)
        ensures
            r is Ok <==> exists|g: Seq<Glyph>| encode(g) == delta_data@,
            r is Err ==> r == Err::<ClientEditDoc, DocError>(DocError::MalformedPayload),
            r matches Ok(s) ==> {
                &&& s.wf()
                &&& encode(s.model().content) == delta_data@
                &&& s.model().undo.len() == 0
                &&& s.model().redo.len() == 0
                &&& s.model().saved == rev_id
                &&& s.head() == rev_id
                &&& s.chain().len() == 0
                &&& s.outbox().len() == 0
                &&& s.outgoing().len() == 0
                &&& s.id_view() == doc_id@
            },
    {
        match from_bytes(delta_data) {
            None => Err(DocError::MalformedPayload),
            Some(glyphs) => {
                let mut document = Document::new(glyphs);
                document.save_document(rev_id);
                let s = ClientEditDoc {
                    doc_id: String::from_str(doc_id),
                    rev_manager: RevisionManager::new(doc_id, user_id, rev_id),
                    document,
                    outgoing: Vec::new(),
                };
                assert(s.outgoing() =~= Seq::<RevisionModel>::empty());
                Ok(s)
            },
        }
    }

    /// Commits the current document state as the next local revision.
    fn commit(&mut self, base: RevId, next: RevId)
        requires
            old(self).wf(),
            base == old(self).head(),
            next == base + 1,
        ensures
            final(self).wf(),
            Self::committed(*old(self), *final(self), old(self).model()),
    {
        let delta_data = to_bytes(self.document.content());
        let rev = Revision::new(base, next, delta_data, self.doc_id.as_str(), RevType::Local);
        let sent = rev.duplicate();
        let added = self.rev_manager.add_revision(rev);
        assert(added is Ok);
        self.document.save_document(next);
        let ghost before = self.outgoing();
        self.outgoing.push(sent);
        assert(self.outgoing() =~= before.push(local_rev(old(self).head(), old(self).model().content, self.doc_id@)));
    }

    pub fn insert(&mut self, index: usize, data: &str) -> (r: Result<(), DocError>)
        requires
            old(self).wf(),
        ensures
            final(self).wf(),
            r is Ok <==> index <= old(self).model().content.len() && old(self).head() < u64::MAX,
            r is Ok ==> Self::committed(
                *old(self),
                *final(self),
                edited(old(self).model(), inserted(old(self).model().content, index as int, data@)),
            ),
            r is Err ==> Self::unchanged(*old(self), *final(self)),
            index > old(self).model().content.len() ==> r == Err::<(), DocError>(DocError::OutOfRange),
            index <= old(self).model().content.len() && old(self).head() == u64::MAX ==> r == Err::<(), DocError>(
                DocError::RevIdExhausted,
            ),
    {
        if index > self.document.len() {
            return Err(DocError::OutOfRange);
        }
        let (base, next) = self.rev_manager.next_rev_id()?;
        let res = self.document.insert(index, data);
        assert(res is Ok);
        self.commit(base, next);
        Ok(())
    }

    pub fn delete(&mut self, interval: Interval) -> (r: Result<(), DocError>)
        requires
            old(self).wf(),
        ensures
            final(self).wf(),
            r is Ok <==> interval.fits(old(self).model().content.len() as int) && old(self).head() < u64::MAX,
            r is Ok ==> Self::committed(
                *old(self),
                *final(self),
                edited(old(self).model(), deleted(old(self).model().content, interval)),
            ),
            r is Err ==> Self::unchanged(*old(self), *final(self)),
            !interval.fits(old(self).model().content.len() as int) ==> r == Err::<(), DocError>(DocError::OutOfRange),
            interval.fits(old(self).model().content.len() as int) && old(self).head() == u64::MAX ==> r == Err::<
                (),
                DocError,
            >(DocError::RevIdExhausted),
    {
        if interval.start > interval.end || interval.end > self.document.len() {
            return Err(DocError::OutOfRange);
        }
        let (base, next) = self.rev_manager.next_rev_id()?;
        let res = self.document.delete(interval);
        assert(res is Ok);
        self.commit(base, next);
        Ok(())
    }

    pub fn format(&mut self, interval: Interval, attribute: Attribute) -> (r: Result<(), DocError>)
        requires
            old(self).wf(),
        ensures
            final(self).wf(),
            r is Ok <==> interval.fits(old(self).model().content.len() as int) && old(self).head() < u64::MAX,
            r is Ok ==> Self::committed(
                *old(self),
                *final(self),
                edited(old(self).model(), formatted(old(self).model().content, interval, attribute)),
            ),
            r is Err ==> Self::unchanged(*old(self), *final(self)),
            !interval.fits(old(self).model().content.len() as int) ==> r == Err::<(), DocError>(DocError::OutOfRange),
            interval.fits(old(self).model().content.len() as int) && old(self).head() == u64::MAX ==> r == Err::<
                (),
                DocError,
            >(DocError::RevIdExhausted),
    {
        if interval.start > interval.end || interval.end > self.document.len() {
            return Err(DocError::OutOfRange);
        }
        let (base, next) = self.rev_manager.next_rev_id()?;
        let res = self.document.format(interval, attribute);
        assert(res is Ok);
        self.commit(base, next);
        Ok(())
    }

    pub fn replace(&mut self, interval: Interval, data: &str) -> (r: Result<(), DocError>)
        requires
            old(self).wf(),
        ensures
            final(self).wf(),
            r is Ok <==> interval.fits(old(self).model().content.len() as int) && old(self).head() < u64::MAX,
            r is Ok ==> Self::committed(
                *old(self),
                *final(self),
                edited(old(self).model(), replaced(old(self).model().content, interval, data@)),
            ),
            r is Err ==> Self::unchanged(*old(self), *final(self)),
            !interval.fits(old(self).model().content.len() as int) ==> r == Err::<(), DocError>(DocError::OutOfRange),
            interval.fits(old(self).model().content.len() as int) && old(self).head() == u64::MAX ==> r == Err::<
                (),
                DocError,
            >(DocError::RevIdExhausted),
    {
        if interval.start > interval.end || interval.end > self.document.len() {
            return Err(DocError::OutOfRange);
        }
        let (base, next) = self.rev_manager.next_rev_id()?;
        let res = self.document.replace(interval, data);
        assert(res is Ok);
        self.commit(base, next);
        Ok(())
    }

    /// Whether a local edit can be undone.
    pub fn can_undo(&self) -> (r: bool)
        ensures
            r == (self.model().undo.len() > 0),
    {
        self.document.can_undo()
    }

    /// Whether an undone edit can be redone.
    pub fn can_redo(&self) -> (r: bool)
        ensures
            r == (self.model().redo.len() > 0),
    {
        self.document.can_redo()
    }

    /// Undoes the last local edit and commits the restored state as a new
    /// revision; with nothing to undo, nothing changes.
    pub fn undo(&mut self) -> (r: Result<UndoResult, DocError>)
        requires
            old(self).wf(),
        ensures
            final(self).wf(),
            r is Ok <==> old(self).model().undo.len() == 0 || old(self).head() < u64::MAX,
            r is Err ==> r == Err::<UndoResult, DocError>(DocError::RevIdExhausted) && Self::unchanged(*old(self), *final(self)),
            r matches Ok(u) ==> u.success == (old(self).model().undo.len() > 0) && u.len == final(self).model().content.len(),
            r is Ok && old(self).model().undo.len() > 0 ==> Self::committed(*old(self), *final(self), undo_step(old(self).model())),
            r is Ok && old(self).model().undo.len() == 0 ==> Self::unchanged(*old(self), *final(self)),
    {
        if !self.document.can_undo() {
            return Ok(UndoResult { success: false, len: self.document.len() });
        }
        let (base, next) = self.rev_manager.next_rev_id()?;
        let res = self.document.undo();
        self.commit(base, next);
        Ok(UndoResult { success: res.success, len: self.document.len() })
    }

    /// Redoes the last undone edit and commits the state as a new revision;
    /// with nothing to redo, nothing changes.
    pub fn redo(&mut self) -> (r: Result<UndoResult, DocError>)
        requires
            old(self).wf(),
        ensures
            final(self).wf(),
            r is Ok <==> old(self).model().redo.len() == 0 || old(self).head() < u64::MAX,
            r is Err ==> r == Err::<UndoResult, DocError>(DocError::RevIdExhausted) && Self::unchanged(*old(self), *final(self)),
            r matches Ok(u) ==> u.success == (old(self).model().redo.len() > 0) && u.len == final(self).model().content.len(),
            r is Ok && old(self).model().redo.len() > 0 ==> Self::committed(*old(self), *final(self), redo_step(old(self).model())),
            r is Ok && old(self).model().redo.len() == 0 ==> Self::unchanged(*old(self), *final(self)),
    {
        if !self.document.can_redo() {
            return Ok(UndoResult { success: false, len: self.document.len() });
        }
        let (base, next) = self.rev_manager.next_rev_id()?;
        let res = self.document.redo();
        self.commit(base, next);
        Ok(UndoResult { success: res.success, len: self.document.len() })
    }

    fn text(&self) -> (r: String)
        ensures
            r@ == text_of(self.model().content),
    {
        let c = self.document.content();
        let mut chars: Vec<char> = Vec::new();
        let mut i: usize = 0;
        while i < c.len()
            invariant
                i <= c.len(),
                c@ == self.model().content,
                chars@ == text_of(c@).subrange(0, i as int),
            decreases c.len() - i,
        {
            chars.push(c[i].ch);
            i += 1;
            assert(chars@ =~= text_of(c@).subrange(0, i as int));
        }
        assert(text_of(c@).subrange(0, c.len() as int) =~= text_of(c@));
        string_from_chars(&chars)
    }

    /// The document's id, its text and the head revision.
    pub fn doc(&self) -> (r: Doc)
        requires
            self.wf(),
        ensures
            r.id@ == self.id_view(),
            r.data@ == text_of(self.model().content),
            r.rev_id == self.head(),
    {
        Doc { id: self.doc_id.clone(), data: self.text(), rev_id: self.rev_manager.rev_id() }
    }

    /// The document's text, as the document state reports it.
    pub fn doc_json(&self) -> (r: String)
        ensures
            r@ == text_of(self.model().content),
    {
        self.text()
    }

    /// Takes a whole encoded document state made elsewhere and commits it as
    /// the next local revision; the undo and redo stacks are left alone.
    pub fn compose_local_delta(&mut self, data: &Vec<u8>) -> (r: Result<(), DocError>)
        requires
            old(self).wf(),
        ensures
            final(self).wf(),
            r is Ok <==> (exists|g: Seq<Glyph>| encode(g) == data@) && old(self).head() < u64::MAX,
            r is Ok ==> encode(final(self).model().content) == data@ && Self::committed(
                *old(self),
                *final(self),
                (DocumentModel { content: final(self).model().content, ..old(self).model() }),
            ),
            r is Err ==> Self::unchanged(*old(self), *final(self)),
            !(exists|g: Seq<Glyph>| encode(g) == data@) ==> r == Err::<(), DocError>(DocError::MalformedPayload),
            (exists|g: Seq<Glyph>| encode(g) == data@) && old(self).head() == u64::MAX ==> r == Err::<(), DocError>(
                DocError::RevIdExhausted,
            ),
    {
        let glyphs = match from_bytes(data) {
            None => return Err(DocError::MalformedPayload),
            Some(g) => g,
        };
        let (base, next) = self.rev_manager.next_rev_id()?;
        self.document.apply_state(glyphs);
        self.commit(base, next);
        Ok(())
    }

    /// The revisions queued for the peer, oldest first; the queue is emptied.
    pub fn take_outgoing(&mut self) -> (r: Vec<Revision>)
        requires
            old(self).wf(),
        ensures
            final(self).wf(),
            r@.map_values(|x: Revision| x@) == old(self).outgoing(),
            final(self).outgoing().len() == 0,
            final(self).model() == old(self).model(),
            final(self).head() == old(self).head(),
            final(self).chain() == old(self).chain(),
            final(self).outbox() == old(self).outbox(),
            final(self).id_view() == old(self).id_view(),
    {
        let mut taken: Vec<Revision> = Vec::new();
        core::mem::swap(&mut self.outgoing, &mut taken);
        assert(self.outgoing() =~= Seq::<RevisionModel>::empty());
        taken
    }

    fn queue(&mut self, revs: Vec<Revision>)
        ensures
            final(self).outgoing() == old(self).outgoing() + revs@.map_values(|x: Revision| x@),
            final(self).rev_manager == old(self).rev_manager,
            final(self).document == old(self).document,
            final(self).doc_id == old(self).doc_id,
    {
        let mut revs = revs;
        let ghost added = revs@.map_values(|x: Revision| x@);
        self.outgoing.append(&mut revs);
        assert(self.outgoing() =~= old(self).outgoing() + added);
    }
    /// Commits a revision pushed by the peer: its first sixteen bytes are its
    /// base and its id, the rest the document state it carries.
    pub fn handle_push_rev(&mut self, rev_bytes: &Vec<u8>) -> (r: Result<(), DocError>)
        requires
            old(self).wf(),
        ensures
            final(self).wf(),
            r is Err ==> Self::unchanged(*old(self), *final(self)),
            rev_bytes@.len() < 16 ==> r == Err::<(), DocError>(DocError::MalformedPayload),
            rev_bytes@.len() >= 16 ==> Self::pushed(*old(self), *final(self), rev_bytes@, r),
    {
        if rev_bytes.len() < 16 {
            return Err(DocError::MalformedPayload);
        }
        let base = read_u64_at(rev_bytes, 0);
        let id = read_u64_at(rev_bytes, 8);
        let delta_data = bytes_from(rev_bytes, 16);
        let glyphs = match from_bytes(&delta_data) {
            None => return Err(DocError::MalformedPayload),
            Some(g) => g,
        };
        let rev = Revision::new(base, id, delta_data, self.doc_id.as_str(), RevType::Remote);
        self.rev_manager.add_revision(rev)?;
        self.document.apply_state(glyphs);
        self.document.save_document(id);
        Ok(())
    }

    /// What a pushed revision of at least sixteen bytes does: refused as
    /// malformed unless the rest encodes a document state, refused as a
    /// conflict unless it follows the head; else committed and applied.
    pub open spec fn pushed(a: ClientEditDoc, b: ClientEditDoc, bytes: Seq<u8>, r: Result<(), DocError>) -> bool {
        let base = read_u64(bytes, 0);
        let id = read_u64(bytes, 8);
        let delta = bytes.subrange(16, bytes.len() as int);
        let decodes = exists|g: Seq<Glyph>| encode(g) == delta;
        let follows = base == a.head() && id == a.head() + 1;
        &&& !decodes ==> r == Err::<(), DocError>(DocError::MalformedPayload)
        &&& decodes && !follows ==> r == Err::<(), DocError>(DocError::RevisionConflict)
        &&& decodes && follows ==> {
            &&& r is Ok
            &&& encode(b.model().content) == delta
            &&& b.model() == (DocumentModel { content: b.model().content, saved: id, ..a.model() })
            &&& b.head() == id
            &&& b.chain() == a.chain().push(
                RevisionModel { base_rev_id: base, rev_id: id, delta_data: delta, doc_id: a.id_view(), ty: RevType::Remote },
            )
            &&& b.outbox() == a.outbox()
            &&& b.outgoing() == a.outgoing()
            &&& b.id_view() == a.id_view()
        }
    }

    /// Handles a message from the peer. A pushed revision is committed and
    /// applied; a pull queues the asked range for sending; an acknowledgment
    /// drops that revision from the outbox. Other kinds change nothing.
    pub fn receive(&mut self, doc_data: &WsDocumentData) -> (r: Result<(), DocError>)
        requires
            old(self).wf(),
        ensures
            final(self).wf(),
            r is Err ==> Self::unchanged(*old(self), *final(self)),
            doc_data.ty == WsDataType::PushRev ==> {
                &&& doc_data.data@.len() < 16 ==> r == Err::<(), DocError>(DocError::MalformedPayload)
                &&& doc_data.data@.len() >= 16 ==> Self::pushed(*old(self), *final(self), doc_data.data@, r)
            },
            doc_data.ty == WsDataType::PullRev ==> {
                &&& r is Ok <==> doc_data.data@.len() == 16
                &&& r is Err ==> r == Err::<(), DocError>(DocError::MalformedPayload)
                &&& r is Ok ==> {
                    let range = RevisionRange { start: read_u64(doc_data.data@, 0), end: read_u64(doc_data.data@, 8) };
                    &&& final(self).outgoing() == old(self).outgoing() + old(self).chain().filter(
                        |m: RevisionModel| range.contains(m.rev_id),
                    )
                    &&& final(self).model() == old(self).model()
                    &&& final(self).head() == old(self).head()
                    &&& final(self).chain() == old(self).chain()
                    &&& final(self).outbox() == old(self).outbox()
                    &&& final(self).id_view() == old(self).id_view()
                }
            },
            doc_data.ty == WsDataType::Acked ==> {
                &&& r is Ok <==> doc_data.data@.len() == 8
                &&& r is Err ==> r == Err::<(), DocError>(DocError::MalformedPayload)
                &&& r is Ok ==> {
                    &&& final(self).outbox() == acked(old(self).outbox(), read_u64(doc_data.data@, 0))
                    &&& final(self).model() == old(self).model()
                    &&& final(self).head() == old(self).head()
                    &&& final(self).chain() == old(self).chain()
                    &&& final(self).outgoing() == old(self).outgoing()
                    &&& final(self).id_view() == old(self).id_view()
                }
            },
            doc_data.ty == WsDataType::NewDocUser || doc_data.ty == WsDataType::Conflict ==> r is Ok
                && Self::unchanged(*old(self), *final(self)),
    {
        let bytes = &doc_data.data;
        match doc_data.ty {
            WsDataType::PushRev => self.handle_push_rev(bytes),
            WsDataType::PullRev => {
                if bytes.len() != 16 {
                    return Err(DocError::MalformedPayload);
                }
                let range = RevisionRange { start: read_u64_at(bytes, 0), end: read_u64_at(bytes, 8) };
                let revs = self.rev_manager.send_revisions(range);
                self.queue(revs);
                Ok(())
            },
            WsDataType::Acked => {
                if bytes.len() != 8 {
                    return Err(DocError::MalformedPayload);
                }
                let rev_id = read_u64_at(bytes, 0);
                self.rev_manager.ack_rev(rev_id);
                Ok(())
            },
            WsDataType::NewDocUser => Ok(()),
            WsDataType::Conflict => Ok(()),
        }
    }

    /// Follows a change of connection: on reconnection every unacknowledged
    /// revision is queued again, in ascending order of id.
    pub fn state_changed(&mut self, state: WsState)
        requires
            old(self).wf(),
        ensures
            final(self).wf(),
            final(self).outgoing() == old(self).outgoing() + if state == WsState::Connected {
                old(self).outbox()
            } else {
                Seq::<RevisionModel>::empty()
            },
            final(self).model() == old(self).model(),
            final(self).head() == old(self).head(),
            final(self).chain() == old(self).chain(),
            final(self).outbox() == old(self).outbox(),
            final(self).id_view() == old(self).id_view(),
    {
        let revs = self.rev_manager.handle_ws_state_changed(state);
        self.queue(revs);
    }
}

/// Every revision a session has committed follows the one before it: its id
/// is one more and its base is the previous id, however the edits came.
pub proof fn lemma_session_chain_contiguous(s: &ClientEditDoc, i: int)
    requires
        s.wf(),
        0 <= i,
        i + 1 < s.chain().len(),
    ensures
        s.chain()[i + 1].rev_id == s.chain()[i].rev_id + 1,
        s.chain()[i + 1].base_rev_id == s.chain()[i].rev_id,
{
    assert(s.chain()[i].rev_id == s.rev_manager.start_id() + i + 1);
    assert(s.chain()[i + 1].rev_id == s.rev_manager.start_id() + (i + 1) + 1);
}

} // verus!
