use lumina_core::store::{InMemoryStore, StoreError};
use lumina_core::types::{Cid, Commit, Digest, Header};

fn digest(n: u64) -> Digest {
    Digest(n, 0, 0, 0)
}

fn header(height: u64, hash: u64, prev: u64) -> Header {
    Header {
        height,
        hash: digest(hash),
        previous_hash: digest(prev),
        timestamp: height * 10,
        data_root: digest(1000 + height),
        commit: Commit { validator_set: digest(77), signed_power: 70 },
    }
}

fn cid(n: u64) -> Cid {
    Cid { data_root: digest(5), row: n, col: n + 1 }
}

fn store_with(genesis: u64, n: u64) -> InMemoryStore {
    let mut s = InMemoryStore::new(genesis);
    for i in 0..n {
        let h = genesis + i;
        let prev = if i == 0 { 0 } else { h - 1 };
        s.append(header(h, h, prev)).unwrap();
    }
    s
}

#[test]
fn empty_store_reports_empty() {
    let s = InMemoryStore::new(1);
    assert_eq!(s.head_height(), Err(StoreError::EmptyStore));
    assert_eq!(s.get_head(), Err(StoreError::EmptyStore));
    assert_eq!(s.get_by_height(1), Err(StoreError::NotFound));
    assert!(!s.has_at(1));
    assert!(!s.has(&digest(1)));
    assert_eq!(s.next_unsampled_height(), None);
}

#[test]
fn genesis_append_with_zero_parent() {
    let mut s = InMemoryStore::new(1);
    let g = Header { previous_hash: Digest::zero(), ..header(1, 1, 0) };
    assert_eq!(s.append(g), Ok(()));
    assert_eq!(s.get_head(), Ok(g));
    assert_eq!(s.head_height(), Ok(1));
}

#[test]
fn genesis_append_at_wrong_height_is_refused() {
    let mut s = InMemoryStore::new(1);
    assert_eq!(s.append(header(2, 2, 0)), Err(StoreError::ConsistencyError));
    assert_eq!(s.head_height(), Err(StoreError::EmptyStore));
}

#[test]
fn wrong_parent_is_refused_and_head_kept() {
    let mut s = store_with(1, 3);
    assert_eq!(s.append(header(4, 4, 2)), Err(StoreError::ConsistencyError));
    assert_eq!(s.head_height(), Ok(3));
    assert_eq!(s.get_head(), Ok(header(3, 3, 2)));
}

#[test]
fn gap_and_repeat_heights_are_refused() {
    let mut s = store_with(1, 3);
    assert_eq!(s.append(header(5, 5, 3)), Err(StoreError::ConsistencyError));
    assert_eq!(s.append(header(3, 9, 2)), Err(StoreError::ConsistencyError));
    assert_eq!(s.head_height(), Ok(3));
}

#[test]
fn duplicate_hash_is_refused() {
    let mut s = store_with(1, 3);
    assert_eq!(s.append(header(4, 2, 3)), Err(StoreError::ConsistencyError));
    assert_eq!(s.head_height(), Ok(3));
}

#[test]
fn appends_count_from_genesis() {
    let s = store_with(7, 5);
    assert_eq!(s.head_height(), Ok(7 + 5 - 1));
    assert_eq!(s.genesis_height(), 7);
}

#[test]
fn height_and_hash_lookups_agree() {
    let s = store_with(1, 5);
    for h in 1..=5u64 {
        let by_height = s.get_by_height(h).unwrap();
        assert_eq!(s.get_by_hash(&by_height.hash), Ok(by_height));
        assert!(s.has(&by_height.hash));
        assert!(s.has_at(h));
    }
    assert_eq!(s.get_by_height(6), Err(StoreError::NotFound));
    assert_eq!(s.get_by_height(0), Err(StoreError::NotFound));
    assert_eq!(s.get_by_hash(&digest(99)), Err(StoreError::NotFound));
}

#[test]
fn next_unsampled_moves_after_update() {
    let mut s = store_with(1, 5);
    assert_eq!(s.next_unsampled_height(), Some(1));
    assert_eq!(s.update_sampling_metadata(1, true, vec![cid(1)]), Ok(Some(2)));
    assert_eq!(s.next_unsampled_height(), Some(2));
}

#[test]
fn next_unsampled_is_smallest_gap() {
    let mut s = store_with(1, 5);
    assert_eq!(s.update_sampling_metadata(3, true, vec![]), Ok(Some(1)));
    assert_eq!(s.update_sampling_metadata(1, true, vec![]), Ok(Some(2)));
    assert_eq!(s.update_sampling_metadata(2, false, vec![]), Ok(Some(4)));
    assert_eq!(s.next_unsampled_height(), Some(4));
    assert_eq!(s.update_sampling_metadata(5, true, vec![]), Ok(Some(4)));
    assert_eq!(s.update_sampling_metadata(4, true, vec![]), Ok(None));
    assert_eq!(s.next_unsampled_height(), None);
}

#[test]
fn update_of_missing_height_is_not_found() {
    let mut s = store_with(1, 2);
    assert_eq!(s.update_sampling_metadata(3, true, vec![cid(1)]), Err(StoreError::NotFound));
    assert_eq!(s.get_sampling_metadata(3).unwrap().is_none(), true);
}

#[test]
fn update_twice_is_idempotent() {
    let mut s = store_with(1, 3);
    s.update_sampling_metadata(2, true, vec![cid(1), cid(2)]).unwrap();
    let once = s.get_sampling_metadata(2).unwrap().unwrap();
    s.update_sampling_metadata(2, true, vec![cid(1), cid(2)]).unwrap();
    let twice = s.get_sampling_metadata(2).unwrap().unwrap();
    assert_eq!(once.accepted, twice.accepted);
    assert_eq!(once.cids, twice.cids);
    assert_eq!(twice.cids, vec![cid(1), cid(2)]);
}

#[test]
fn update_merges_ids_and_last_verdict_wins() {
    let mut s = store_with(1, 3);
    s.update_sampling_metadata(2, true, vec![cid(1), cid(2)]).unwrap();
    s.update_sampling_metadata(2, false, vec![cid(2), cid(3), cid(3)]).unwrap();
    let m = s.get_sampling_metadata(2).unwrap().unwrap();
    assert!(!m.accepted);
    assert_eq!(m.cids, vec![cid(1), cid(2), cid(3)]);
}

#[test]
fn metadata_absent_before_sampling() {
    let s = store_with(1, 3);
    assert!(s.get_sampling_metadata(2).unwrap().is_none());
}
