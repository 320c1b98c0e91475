use vstd::prelude::*;
use vstd::string::*;
use crate::error::DocError;
use crate::revision::RevId;

verus! {

/// One character of the document with its formatting style (0 is plain).
#[derive(Debug, Clone, Copy, PartialEq, Eq, Structural)]
pub struct Glyph {
    pub ch: char,
    pub style: u32,
}

/// A formatting style to apply over an interval.
#[derive(Debug, Clone, Copy, PartialEq, Eq, Structural)]
pub struct Attribute {
    pub style: u32,
}

/// The half-open range of positions `[start, end)`.
#[derive(Debug, Clone, Copy, PartialEq, Eq, Structural)]
pub struct Interval {
    pub start: usize,
    pub end: usize,
}

impl Interval {
    pub fn new(start: usize, end: usize) -> (r: Interval)
        ensures
            r.start == start,
            r.end == end,
    {
        Interval { start, end }
    }

    pub open spec fn fits(self, len: int) -> bool {
        self.start <= self.end && self.end <= len
    }
}

/// Outcome of an undo or redo: whether there was a step to take, and the
/// length of the document afterwards.
#[derive(Debug, Clone, Copy, PartialEq, Eq, Structural)]
pub struct UndoResult {
    pub success: bool,
    pub len: usize,
}

pub open spec fn glyph_of(c: char) -> Glyph {
    Glyph { ch: c, style: 0 }
}

/// Plain glyphs for the characters of a text.
pub open spec fn plain(text: Seq<char>) -> Seq<Glyph> {
    Seq::new(text.len(), |i: int| glyph_of(text[i]))
}

pub open spec fn inserted(c: Seq<Glyph>, index: int, text: Seq<char>) -> Seq<Glyph> {
    c.subrange(0, index) + plain(text) + c.subrange(index, c.len() as int)
}

pub open spec fn deleted(c: Seq<Glyph>, iv: Interval) -> Seq<Glyph> {
    c.subrange(0, iv.start as int) + c.subrange(iv.end as int, c.len() as int)
}

pub open spec fn formatted(c: Seq<Glyph>, iv: Interval, a: Attribute) -> Seq<Glyph> {
    Seq::new(
        c.len(),
        |i: int|
            if iv.start <= i < iv.end {
                Glyph { ch: c[i].ch, style: a.style }
            } else {
                c[i]
            },
    )
}

pub open spec fn replaced(c: Seq<Glyph>, iv: Interval, text: Seq<char>) -> Seq<Glyph> {
    inserted(deleted(c, iv), iv.start as int, text)
}

/// The value of a document: its content, its undo and redo stacks of earlier
/// contents (top last), and the revision it was last saved at.
pub struct DocumentModel {
    pub content: Seq<Glyph>,
    pub undo: Seq<Seq<Glyph>>,
    pub redo: Seq<Seq<Glyph>>,
    pub saved: RevId,
}

/// A local edit: the new content, with the old one on the undo stack and the
/// redo stack emptied.
pub open spec fn edited(m: DocumentModel, c: Seq<Glyph>) -> DocumentModel {
    DocumentModel { content: c, undo: m.undo.push(m.content), redo: Seq::empty(), saved: m.saved }
}

pub open spec fn undo_step(m: DocumentModel) -> DocumentModel {
    if m.undo.len() == 0 {
        m
    } else {
        DocumentModel {
            content: m.undo.last(),
            undo: m.undo.drop_last(),
            redo: m.redo.push(m.content),
            saved: m.saved,
        }
    }
}

pub open spec fn redo_step(m: DocumentModel) -> DocumentModel {
    if m.redo.len() == 0 {
        m
    } else {
        DocumentModel {
            content: m.redo.last(),
            undo: m.undo.push(m.content),
            redo: m.redo.drop_last(),
            saved: m.saved,
        }
    }
}

pub open spec fn undo_n(m: DocumentModel, n: nat) -> DocumentModel
    decreases n,
{
    if n == 0 {
        m
    } else {
        undo_n(undo_step(m), (n - 1) as nat)
    }
}

pub open spec fn redo_n(m: DocumentModel, n: nat) -> DocumentModel
    decreases n,
{
    if n == 0 {
        m
    } else {
        redo_n(redo_step(m), (n - 1) as nat)
    }
}

fn copy_glyphs(src: &Vec<Glyph>, lo: usize, hi: usize, out: &mut Vec<Glyph>)
    requires
        lo <= hi <= src.len(),
    ensures
        final(out)@ == old(out)@ + src@.subrange(lo as int, hi as int),
{
    let mut i: usize = lo;
    while i < hi
        invariant
            lo <= i <= hi <= src.len(),
            out@ == old(out)@ + src@.subrange(lo as int, i as int),
        decreases hi - i,
    {
        out.push(src[i]);
        i += 1;
        assert(out@ =~= old(out)@ + src@.subrange(lo as int, i as int));
    }
}

fn push_plain(text: &str, out: &mut Vec<Glyph>)
    ensures
        final(out)@ == old(out)@ + plain(text@),
{
    let n = text.unicode_len();
    assert(text@.len() == n);
    assert(plain(text@).len() == text@.len());
    let mut i: usize = 0;
    while i < n
        invariant
            i <= n,
            n == text@.len(),
            plain(text@).len() == n,
            out@ == old(out)@ + plain(text@).subrange(0, i as int),
        decreases n - i,
    {
        out.push(Glyph { ch: text.get_char(i), style: 0 });
        i += 1;
        assert(out@ =~= old(out)@ + plain(text@).subrange(0, i as int));
    }
    assert(plain(text@).subrange(0, n as int) =~= plain(text@));
}

/// The live state of one document: applies edits and keeps undo/redo history.
pub struct Document {
    content: Vec<Glyph>,
    undo_stack: Vec<Vec<Glyph>>,
    redo_stack: Vec<Vec<Glyph>>,
    saved: RevId,
}

impl View for Document {
    type V = DocumentModel;

    closed spec fn view(&self) -> DocumentModel {
        DocumentModel {
            content: self.content@,
            undo: self.undo_stack@.map_values(|v: Vec<Glyph>| v@),
            redo: self.redo_stack@.map_values(|v: Vec<Glyph>| v@),
            saved: self.saved,
        }
    }
}

impl Document {
    /// A document holding `content`, with empty history.
    pub fn new(content: Vec<Glyph>) -> (d: Document)
        ensures
            d@.content == content@,
            d@.undo.len() == 0,
            d@.redo.len() == 0,
            d@.saved == 0,
    {
        let d = Document { content, undo_stack: Vec::new(), redo_stack: Vec::new(), saved: 0 };
        assert(d@.undo =~= Seq::<Seq<Glyph>>::empty());
        assert(d@.redo =~= Seq::<Seq<Glyph>>::empty());
        d
    }

    pub fn len(&self) -> (r: usize)
        ensures
            r == self@.content.len(),
    {
        self.content.len()
    }

    pub fn content(&self) -> (r: &Vec<Glyph>)
        ensures
            r@ == self@.content,
    {
        &self.content
    }

    fn commit_edit(&mut self, c: Vec<Glyph>)
        ensures
            final(self)@ == edited(old(self)@, c@),
    {
        let mut prev = c;
        core::mem::swap(&mut self.content, &mut prev);
        self.undo_stack.push(prev);
        self.redo_stack = Vec::new();
        assert(self@.undo =~= old(self)@.undo.push(old(self)@.content));
        assert(self@.redo =~= Seq::<Seq<Glyph>>::empty());
    }

    pub fn insert(&mut self, index: usize, text: &str) -> (r: Result<(), DocError>)
        ensures
            r is Ok <==> index <= old(self)@.content.len(),
            r is Ok ==> final(self)@ == edited(old(self)@, inserted(old(self)@.content, index as int, text@)),
            r is Err ==> r == Err::<(), DocError>(DocError::OutOfRange) && final(self)@ == old(self)@,
    {
        if index > self.content.len() {
            return Err(DocError::OutOfRange);
        }
        let mut c: Vec<Glyph> = Vec::new();
        copy_glyphs(&self.content, 0, index, &mut c);
        push_plain(text, &mut c);
        copy_glyphs(&self.content, index, self.content.len(), &mut c);
        assert(c@ =~= inserted(self@.content, index as int, text@));
        self.commit_edit(c);
        Ok(())
    }

    pub fn delete(&mut self, interval: Interval) -> (r: Result<(), DocError>)
        ensures
            r is Ok <==> interval.fits(old(self)@.content.len() as int),
            r is Ok ==> final(self)@ == edited(old(self)@, deleted(old(self)@.content, interval)),
            r is Err ==> r == Err::<(), DocError>(DocError::OutOfRange) && final(self)@ == old(self)@,
    {
        if interval.start > interval.end || interval.end > self.content.len() {
            return Err(DocError::OutOfRange);
        }
        let mut c: Vec<Glyph> = Vec::new();
        copy_glyphs(&self.content, 0, interval.start, &mut c);
        copy_glyphs(&self.content, interval.end, self.content.len(), &mut c);
        assert(c@ =~= deleted(self@.content, interval));
        self.commit_edit(c);
        Ok(())
    }

    pub fn format(&mut self, interval: Interval, attribute: Attribute) -> (r: Result<(), DocError>)
        ensures
            r is Ok <==> interval.fits(old(self)@.content.len() as int),
            r is Ok ==> final(self)@ == edited(old(self)@, formatted(old(self)@.content, interval, attribute)),
            r is Err ==> r == Err::<(), DocError>(DocError::OutOfRange) && final(self)@ == old(self)@,
    {
        if interval.start > interval.end || interval.end > self.content.len() {
            return Err(DocError::OutOfRange);
        }
        let mut c: Vec<Glyph> = Vec::new();
        let mut i: usize = 0;
        while i < self.content.len()
            invariant
                i <= self.content.len(),
                c@ == formatted(self@.content, interval, attribute).subrange(0, i as int),
            decreases self.content.len() - i,
        {
            let g = self.content[i];
            if interval.start <= i && i < interval.end {
                c.push(Glyph { ch: g.ch, style: attribute.style });
            } else {
                c.push(g);
            }
            i += 1;
            assert(c@ =~= formatted(self@.content, interval, attribute).subrange(0, i as int));
        }
        assert(c@ =~= formatted(self@.content, interval, attribute));
        self.commit_edit(c);
        Ok(())
    }

    pub fn replace(&mut self, interval: Interval, text: &str) -> (r: Result<(), DocError>)
        ensures
            r is Ok <==> interval.fits(old(self)@.content.len() as int),
            r is Ok ==> final(self)@ == edited(old(self)@, replaced(old(self)@.content, interval, text@)),
            r is Err ==> r == Err::<(), DocError>(DocError::OutOfRange) && final(self)@ == old(self)@,
    {
        if interval.start > interval.end || interval.end > self.content.len() {
            return Err(DocError::OutOfRange);
        }
        let mut c: Vec<Glyph> = Vec::new();
        copy_glyphs(&self.content, 0, interval.start, &mut c);
        push_plain(text, &mut c);
        copy_glyphs(&self.content, interval.end, self.content.len(), &mut c);
        assert(c@ =~= replaced(self@.content, interval, text@));
        self.commit_edit(c);
        Ok(())
    }

    /// Replaces the content with a state that came from elsewhere; the undo and
    /// redo stacks are left alone.
    pub fn apply_state(&mut self, c: Vec<Glyph>)
        ensures
            final(self)@ == (DocumentModel { content: c@, ..old(self)@ }),
    {
        self.content = c;
    }

    pub fn can_undo(&self) -> (r: bool)
        ensures
            r == (self@.undo.len() > 0),
    {
        self.undo_stack.len() > 0
    }

    pub fn can_redo(&self) -> (r: bool)
        ensures
            r == (self@.redo.len() > 0),
    {
        self.redo_stack.len() > 0
    }

    pub fn undo(&mut self) -> (r: UndoResult)
        ensures
            final(self)@ == undo_step(old(self)@),
            r.success == (old(self)@.undo.len() > 0),
            r.len == final(self)@.content.len(),
    {
        match self.undo_stack.pop() {
            None => UndoResult { success: false, len: self.content.len() },
            Some(prev) => {
                let mut cur = prev;
                core::mem::swap(&mut self.content, &mut cur);
                self.redo_stack.push(cur);
                assert(self@.undo =~= old(self)@.undo.drop_last());
                assert(self@.redo =~= old(self)@.redo.push(old(self)@.content));
                UndoResult { success: true, len: self.content.len() }
            },
        }
    }

    pub fn redo(&mut self) -> (r: UndoResult)
        ensures
            final(self)@ == redo_step(old(self)@),
            r.success == (old(self)@.redo.len() > 0),
            r.len == final(self)@.content.len(),
    {
        match self.redo_stack.pop() {
            None => UndoResult { success: false, len: self.content.len() },
            Some(next) => {
                let mut cur = next;
                core::mem::swap(&mut self.content, &mut cur);
                self.undo_stack.push(cur);
                assert(self@.redo =~= old(self)@.redo.drop_last());
                assert(self@.undo =~= old(self)@.undo.push(old(self)@.content));
                UndoResult { success: true, len: self.content.len() }
            },
        }
    }

    /// Records the revision up to which the document is saved.
    pub fn save_document(&mut self, rev_id: RevId)
        ensures
            final(self)@ == (DocumentModel { saved: rev_id, ..old(self)@ }),
    {
        self.saved = rev_id;
    }
}

/// Undoing `n` steps and then redoing `n` steps gives back the same document,
/// whenever at least `n` steps can be undone.
pub proof fn lemma_undo_redo_inverse(m: DocumentModel, n: nat)
    requires
        n <= m.undo.len(),
    ensures
        redo_n(undo_n(m, n), n) == m,
    decreases n,
{
    if n > 0 {
        let u = undo_step(m);
        lemma_undo_redo_inverse(u, (n - 1) as nat);
        // redo_n(undo_n(m, n), n) == redo_step(redo_n(undo_n(u, n-1), n-1)) == redo_step(u) == m
        lemma_undo_n_redo_len(u, (n - 1) as nat);
        lemma_redo_n_last(undo_n(u, (n - 1) as nat), (n - 1) as nat);
        assert(m.undo.drop_last().push(m.undo.last()) =~= m.undo);
        assert(m.redo.push(m.content).drop_last() =~= m.redo);
    }
}

proof fn lemma_undo_n_redo_len(m: DocumentModel, n: nat)
    requires
        n <= m.undo.len(),
    ensures
        undo_n(m, n).redo.len() == m.redo.len() + n,
    decreases n,
{
    if n > 0 {
        lemma_undo_n_redo_len(undo_step(m), (n - 1) as nat);
    }
}

/// Redoing one more step after `n` is redoing `n + 1`.
proof fn lemma_redo_n_last(m: DocumentModel, n: nat)
    ensures
        redo_n(m, n + 1) == redo_step(redo_n(m, n)),
    decreases n,
{
    if n > 0 {
        lemma_redo_n_last(redo_step(m), (n - 1) as nat);
        assert(redo_n(m, n + 1) == redo_n(redo_step(m), n));
        assert(redo_n(m, n) == redo_n(redo_step(m), (n - 1) as nat));
    } else {
        assert(redo_n(redo_step(m), 0) == redo_step(m));
        assert(redo_n(m, 1) == redo_n(redo_step(m), 0));
    }
}

/// After a successful local edit nothing can be redone.
pub proof fn lemma_edit_clears_redo(m: DocumentModel, c: Seq<Glyph>)
    ensures
        edited(m, c).redo.len() == 0,
        edited(m, c).undo.len() == m.undo.len() + 1,
{
}

} // verus!
