use lumina_core::builder::{Component, Network, NodeBuilder, NodeBuilderError};
use lumina_core::blockstore::InMemoryBlockstore;
use lumina_core::store::InMemoryStore;
use lumina_core::types::Digest;

fn network() -> Network {
    Network {
        id: "private".to_string(),
        genesis_hash: Some(Digest(1, 2, 3, 4)),
        canonical_bootnodes: vec!["/ip4/10.0.0.1/tcp/2121".to_string()],
    }
}

#[test]
fn empty_builder_lists_every_missing_part() {
    let r = NodeBuilder::new().build();
    assert_eq!(
        r.err(),
        Some(NodeBuilderError::Missing(vec![Component::Network, Component::Blockstore, Component::Store]))
    );
}

#[test]
fn missing_network_is_reported() {
    let r = NodeBuilder::new().with_blockstore(InMemoryBlockstore::new()).with_store(InMemoryStore::new(1)).build();
    assert_eq!(r.err(), Some(NodeBuilderError::Missing(vec![Component::Network])));
}

#[test]
fn defaults_come_from_network() {
    let c = NodeBuilder::new()
        .with_network(network())
        .with_blockstore(InMemoryBlockstore::new())
        .with_store(InMemoryStore::new(1))
        .build()
        .ok()
        .unwrap();
    assert_eq!(c.genesis_hash, Some(Digest(1, 2, 3, 4)));
    assert_eq!(c.bootnodes, vec!["/ip4/10.0.0.1/tcp/2121".to_string()]);
    assert_eq!(c.network.id, "private");
    assert!(c.p2p_local_keypair.is_none());
}

#[test]
fn explicit_settings_win() {
    let c = NodeBuilder::new()
        .with_network(network())
        .with_genesis(Some(Digest(9, 9, 9, 9)))
        .with_bootnodes(vec!["/dns/peer/tcp/1".to_string()])
        .with_listeners(vec!["/ip4/0.0.0.0/tcp/0".to_string()])
        .with_p2p_keypair(vec![7; 32])
        .with_blockstore(InMemoryBlockstore::new())
        .with_store(InMemoryStore::new(3))
        .build()
        .ok()
        .unwrap();
    assert_eq!(c.genesis_hash, Some(Digest(9, 9, 9, 9)));
    assert_eq!(c.bootnodes, vec!["/dns/peer/tcp/1".to_string()]);
    assert_eq!(c.listen_on, vec!["/ip4/0.0.0.0/tcp/0".to_string()]);
    assert_eq!(c.p2p_local_keypair, Some(vec![7; 32]));
}
