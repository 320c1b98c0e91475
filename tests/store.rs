use flowy_document::revision::{RevType, Revision, RevisionRange};
use flowy_document::store::RevisionStore;
use flowy_document::error::DocError;

fn rev(base: u64, id: u64) -> Revision {
    Revision::new(base, id, vec![id as u8], "d", RevType::Local)
}

#[test]
fn chain_accepts_only_the_next_revision() {
    let mut s = RevisionStore::new(10);
    assert_eq!(s.head_id(), 10);
    assert_eq!(s.append(rev(10, 11)), Ok(()));
    assert_eq!(s.append(rev(10, 11)), Err(DocError::RevisionConflict));
    assert_eq!(s.append(rev(11, 13)), Err(DocError::RevisionConflict));
    assert_eq!(s.append(rev(11, 12)), Ok(()));
    assert_eq!(s.head_id(), 12);
    let got = s.revisions_in_range(RevisionRange { start: 0, end: 11 });
    assert_eq!(got.len(), 1);
    assert_eq!((got[0].base_rev_id, got[0].rev_id, got[0].delta_data.clone()), (10, 11, vec![11]));
    assert!(s.revisions_in_range(RevisionRange { start: 13, end: 20 }).is_empty());
}

#[test]
fn latest_is_the_last_revision_state() {
    let mut s = RevisionStore::new(3);
    assert_eq!(s.latest(), (3, None));
    s.append(rev(3, 4)).unwrap();
    s.append(rev(4, 5)).unwrap();
    assert_eq!(s.latest(), (5, Some(vec![5])));
}
