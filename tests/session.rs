use flowy_document::codec::{from_bytes, to_bytes};
use flowy_document::document::{Attribute, Glyph, Interval};
use flowy_document::edit_doc::{ClientEditDoc, WsDataType, WsDocumentData};
use flowy_document::error::DocError;
use flowy_document::manager::WsState;
use flowy_document::revision::{RevType, Revision};

fn open_empty() -> ClientEditDoc {
    ClientEditDoc::new("doc1", "user1", 0, &Vec::new()).unwrap()
}

fn plain(text: &str) -> Vec<Glyph> {
    text.chars().map(|ch| Glyph { ch, style: 0 }).collect()
}

fn push_bytes(base: u64, id: u64, text: &str) -> Vec<u8> {
    let mut b = base.to_le_bytes().to_vec();
    b.extend_from_slice(&id.to_le_bytes());
    b.extend(to_bytes(&plain(text)));
    b
}

fn message(ty: WsDataType, data: Vec<u8>) -> WsDocumentData {
    WsDocumentData { doc_id: "doc1".to_string(), ty, data }
}

fn ids(revs: &[Revision]) -> Vec<(u64, u64)> {
    revs.iter().map(|r| (r.base_rev_id, r.rev_id)).collect()
}

#[test]
fn insert_then_undo_scenario() {
    let mut s = open_empty();
    assert_eq!(s.doc().rev_id, 0);
    s.insert(0, "abc").unwrap();
    assert_eq!(s.doc().data, "abc");
    let sent = s.take_outgoing();
    assert_eq!(ids(&sent), vec![(0, 1)]);
    assert_eq!(sent[0].ty, RevType::Local);
    assert_eq!(sent[0].doc_id, "doc1");
    assert_eq!(from_bytes(&sent[0].delta_data), Some(plain("abc")));
    s.insert(3, "d").unwrap();
    assert_eq!(s.doc().data, "abcd");
    assert_eq!(ids(&s.take_outgoing()), vec![(1, 2)]);
    let u = s.undo().unwrap();
    assert!(u.success);
    assert_eq!(u.len, 3);
    assert_eq!(s.doc().data, "abc");
    assert!(s.can_redo());
    assert_eq!(s.doc().rev_id, 3);
}

#[test]
fn push_rev_on_head_applies() {
    let mut s = open_empty();
    s.receive(&message(WsDataType::PushRev, push_bytes(0, 1, "xy"))).unwrap();
    assert_eq!(s.doc().data, "xy");
    assert_eq!(s.doc().rev_id, 1);
    assert!(!s.can_undo());
    assert!(s.take_outgoing().is_empty());
}

#[test]
fn push_rev_off_head_leaves_state() {
    let mut s = open_empty();
    s.insert(0, "ab").unwrap();
    let r = s.receive(&message(WsDataType::PushRev, push_bytes(5, 6, "zz")));
    assert_eq!(r, Err(DocError::RevisionConflict));
    assert_eq!(s.doc().data, "ab");
    assert_eq!(s.doc().rev_id, 1);
    let short = s.receive(&message(WsDataType::PushRev, vec![1, 2, 3]));
    assert_eq!(short, Err(DocError::MalformedPayload));
    let mut bad = push_bytes(1, 2, "");
    bad.extend_from_slice(&[1, 2, 3]);
    assert_eq!(s.receive(&message(WsDataType::PushRev, bad)), Err(DocError::MalformedPayload));
    assert_eq!(s.doc().rev_id, 1);
}

#[test]
fn two_edits_get_distinct_ids() {
    let mut s = open_empty();
    s.insert(0, "hello").unwrap();
    s.insert(5, " world").unwrap();
    let sent = s.take_outgoing();
    assert_eq!(ids(&sent), vec![(0, 1), (1, 2)]);
    assert_eq!(s.doc().data, "hello world");
    assert_eq!(from_bytes(&sent[1].delta_data), Some(plain("hello world")));
}

#[test]
fn undo_all_then_redo_all_restores() {
    let mut s = open_empty();
    s.insert(0, "abc").unwrap();
    s.delete(Interval::new(0, 1)).unwrap();
    s.replace(Interval::new(0, 1), "XY").unwrap();
    assert_eq!(s.doc().data, "XYc");
    for _ in 0..3 {
        assert!(s.undo().unwrap().success);
    }
    assert_eq!(s.doc().data, "");
    assert!(!s.can_undo());
    assert!(!s.undo().unwrap().success);
    for _ in 0..3 {
        assert!(s.redo().unwrap().success);
    }
    assert_eq!(s.doc().data, "XYc");
    assert!(!s.can_redo());
}

#[test]
fn new_edit_clears_redo() {
    let mut s = open_empty();
    s.insert(0, "ab").unwrap();
    s.undo().unwrap();
    assert!(s.can_redo());
    s.insert(0, "q").unwrap();
    assert!(!s.can_redo());
    assert!(s.can_undo());
}

#[test]
fn failed_edit_changes_nothing() {
    let mut s = open_empty();
    s.insert(0, "abc").unwrap();
    s.take_outgoing();
    assert_eq!(s.insert(4, "x"), Err(DocError::OutOfRange));
    assert_eq!(s.delete(Interval::new(2, 1)), Err(DocError::OutOfRange));
    assert_eq!(s.format(Interval::new(0, 9), Attribute { style: 1 }), Err(DocError::OutOfRange));
    assert_eq!(s.replace(Interval::new(1, 4), "z"), Err(DocError::OutOfRange));
    assert_eq!(s.doc().data, "abc");
    assert_eq!(s.doc().rev_id, 1);
    assert!(s.take_outgoing().is_empty());
    assert!(!s.can_redo());
}

#[test]
fn format_sets_style_in_interval() {
    let mut s = open_empty();
    s.insert(0, "abcd").unwrap();
    s.format(Interval::new(1, 3), Attribute { style: 7 }).unwrap();
    let sent = s.take_outgoing();
    let glyphs = from_bytes(&sent[1].delta_data).unwrap();
    let styles: Vec<u32> = glyphs.iter().map(|g| g.style).collect();
    assert_eq!(styles, vec![0, 7, 7, 0]);
    assert_eq!(s.doc().data, "abcd");
}

#[test]
fn ack_is_idempotent() {
    let mut s = open_empty();
    s.insert(0, "a").unwrap();
    s.insert(1, "b").unwrap();
    s.insert(2, "c").unwrap();
    s.take_outgoing();
    let ack = |id: u64| message(WsDataType::Acked, id.to_le_bytes().to_vec());
    s.receive(&ack(2)).unwrap();
    s.receive(&ack(2)).unwrap();
    s.receive(&ack(99)).unwrap();
    s.state_changed(WsState::Disconnected);
    assert!(s.take_outgoing().is_empty());
    s.state_changed(WsState::Connected);
    assert_eq!(ids(&s.take_outgoing()), vec![(0, 1), (2, 3)]);
    assert_eq!(s.receive(&message(WsDataType::Acked, vec![1])), Err(DocError::MalformedPayload));
}

#[test]
fn pull_rev_queues_range() {
    let mut s = open_empty();
    for (i, t) in ["a", "b", "c", "d"].iter().enumerate() {
        s.insert(i, *t).unwrap();
    }
    s.take_outgoing();
    let mut range = 2u64.to_le_bytes().to_vec();
    range.extend_from_slice(&3u64.to_le_bytes());
    s.receive(&message(WsDataType::PullRev, range)).unwrap();
    assert_eq!(ids(&s.take_outgoing()), vec![(1, 2), (2, 3)]);
    assert_eq!(s.receive(&message(WsDataType::PullRev, vec![0; 8])), Err(DocError::MalformedPayload));
    assert_eq!(s.receive(&message(WsDataType::Conflict, vec![])), Ok(()));
    assert_eq!(s.receive(&message(WsDataType::NewDocUser, vec![])), Ok(()));
}

#[test]
fn compose_local_delta_commits() {
    let mut s = open_empty();
    s.compose_local_delta(&to_bytes(&plain("new"))).unwrap();
    assert_eq!(s.doc().data, "new");
    assert_eq!(s.doc_json(), "new");
    assert_eq!(ids(&s.take_outgoing()), vec![(0, 1)]);
    assert_eq!(s.compose_local_delta(&vec![0; 5]), Err(DocError::MalformedPayload));
    assert_eq!(s.doc().rev_id, 1);
}

#[test]
fn open_at_revision_with_content() {
    let s = ClientEditDoc::new("doc9", "u", 41, &to_bytes(&plain("hi"))).unwrap();
    let d = s.doc();
    assert_eq!((d.id.as_str(), d.data.as_str(), d.rev_id), ("doc9", "hi", 41));
    assert!(ClientEditDoc::new("doc9", "u", 0, &vec![0xff; 8]).is_err());
}
