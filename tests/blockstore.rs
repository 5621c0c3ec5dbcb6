use lumina_core::blockstore::InMemoryBlockstore;
use lumina_core::types::{Cid, Digest};

fn cid(n: u64) -> Cid {
    Cid { data_root: Digest(1, 2, 3, 4), row: n, col: 0 }
}

#[test]
fn absent_identifier_gives_nothing() {
    let b = InMemoryBlockstore::new();
    assert_eq!(b.get(&cid(1)), None);
}

#[test]
fn put_then_get_and_replace() {
    let mut b = InMemoryBlockstore::new();
    b.put_keyed(&cid(1), &[1, 2, 3]);
    b.put_keyed(&cid(2), &[9]);
    assert_eq!(b.get(&cid(1)), Some(vec![1, 2, 3]));
    assert_eq!(b.get(&cid(2)), Some(vec![9]));
    b.put_keyed(&cid(1), &[]);
    assert_eq!(b.get(&cid(1)), Some(vec![]));
    assert_eq!(b.get(&cid(2)), Some(vec![9]));
    assert_eq!(b.get(&cid(3)), None);
}
