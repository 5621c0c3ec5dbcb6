use vstd::prelude::*;

use crate::types::Digest;

verus! {

/// Placeholder for a blockstore that has not been chosen yet. A builder
/// that still holds it cannot be built, and no value of it exists outside
/// this module.
#[derive(Debug)]
pub struct NoBlockstore {
    _never: (),
}

/// Placeholder for a header store that has not been chosen yet. A builder
/// that still holds it cannot be built, and no value of it exists outside
/// this module.
#[derive(Debug)]
pub struct NoStore {
    _never: (),
}

/// The network a node joins: its identifier (which also scopes the node's
/// storage), its genesis hash when known, and its well-known bootnodes.
#[derive(Debug)]
pub struct Network {
    pub id: String,
    pub genesis_hash: Option<Digest>,
    pub canonical_bootnodes: Vec<String>,
}

/// A required part of the configuration.
#[derive(Debug, Clone, Copy, PartialEq, Eq, Structural)]
pub enum Component {
    Network,
    Blockstore,
    Store,
}

/// Why a node configuration could not be built.
#[derive(Debug, PartialEq, Eq)]
pub enum NodeBuilderError {
    /// Every required part that was not provided, in the order network,
    /// blockstore, store.
    Missing(Vec<Component>),
}

/// Node configuration, gathered step by step.
pub struct NodeBuilder<B, S> {
    network: Option<Network>,
    genesis_hash: Option<Digest>,
    p2p_local_keypair: Option<Vec<u8>>,
    p2p_bootnodes: Vec<String>,
    p2p_listen_on: Vec<String>,
    blockstore: Option<B>,
    store: Option<S>,
}

/// A complete node configuration.
pub struct NodeConfig<B, S> {
    pub network: Network,
    pub genesis_hash: Option<Digest>,
    /// The node's identity key; `None` asks for a fresh one.
    pub p2p_local_keypair: Option<Vec<u8>>,
    pub bootnodes: Vec<String>,
    pub listen_on: Vec<String>,
    pub blockstore: B,
    pub store: S,
}

/// The parts that are missing, in the order network, blockstore, store.
pub open spec fn missing_parts(network: bool, blockstore: bool, store: bool) -> Seq<Component> {
    let a = if network {
        seq![Component::Network]
    } else {
        Seq::empty()
    };
    let b = if blockstore {
        a.push(Component::Blockstore)
    } else {
        a
    };
    if store {
        b.push(Component::Store)
    } else {
        b
    }
}

impl NodeBuilder<NoBlockstore, NoStore> {
    pub fn new() -> (r: Self)
        ensures
            r.network().is_none(),
            r.genesis_hash() == None::<Digest>,
            r.p2p_local_keypair().is_none(),
            r.p2p_bootnodes().len() == 0,
            r.p2p_listen_on().len() == 0,
            r.blockstore().is_none(),
            r.store().is_none(),
    {
        NodeBuilder {
            network: None,
            genesis_hash: None,
            p2p_local_keypair: None,
            p2p_bootnodes: Vec::new(),
            p2p_listen_on: Vec::new(),
            blockstore: None,
            store: None,
        }
    }
}

impl<B, S> NodeBuilder<B, S> {
    pub closed spec fn network(&self) -> Option<Network> {
        self.network
    }

    pub closed spec fn genesis_hash(&self) -> Option<Digest> {
        self.genesis_hash
    }

    pub closed spec fn p2p_local_keypair(&self) -> Option<Vec<u8>> {
        self.p2p_local_keypair
    }

    pub closed spec fn p2p_bootnodes(&self) -> Seq<String> {
        self.p2p_bootnodes@
    }

    pub closed spec fn p2p_listen_on(&self) -> Seq<String> {
        self.p2p_listen_on@
    }

    pub closed spec fn blockstore(&self) -> Option<B> {
        self.blockstore
    }

    pub closed spec fn store(&self) -> Option<S> {
        self.store
    }

    /// Finishes the configuration. The genesis hash given to the builder
    /// wins over the network's; without bootnodes of its own the node
    /// uses the network's canonical ones.
    pub fn build(self) -> (r: Result<NodeConfig<B, S>, NodeBuilderError>)
        ensures
            self.network().is_some() && self.blockstore().is_some() && self.store().is_some() <==> r.is_ok(),
            match r {
                Ok(c) => {
                    &&& c.network == self.network().unwrap()
                    &&& c.genesis_hash == if self.genesis_hash().is_some() {
                        self.genesis_hash()
                    } else {
                        self.network().unwrap().genesis_hash
                    }
                    &&& c.p2p_local_keypair == self.p2p_local_keypair()
                    &&& c.bootnodes@ == if self.p2p_bootnodes().len() == 0 {
                        self.network().unwrap().canonical_bootnodes@
                    } else {
                        self.p2p_bootnodes()
                    }
                    &&& c.listen_on@ == self.p2p_listen_on()
                    &&& c.blockstore == self.blockstore().unwrap()
                    &&& c.store == self.store().unwrap()
                },
                Err(NodeBuilderError::Missing(parts)) => parts@ == missing_parts(
                    self.network().is_none(),
                    self.blockstore().is_none(),
                    self.store().is_none(),
                ),
            },
    {
        let mut missing: Vec<Component> = Vec::new();
        if self.network.is_none() {
            missing.push(Component::Network);
        }
        if self.blockstore.is_none() {
            missing.push(Component::Blockstore);
        }
        if self.store.is_none() {
            missing.push(Component::Store);
        }
        proof {
            let m = missing_parts(self.network.is_none(), self.blockstore.is_none(), self.store.is_none());
            assert(missing@ =~= m);
        }
        match (self.network, self.blockstore, self.store) {
            (Some(network), Some(blockstore), Some(store)) => {
                let genesis_hash = match self.genesis_hash {
                    Some(h) => Some(h),
                    None => network.genesis_hash,
                };
                let bootnodes = if self.p2p_bootnodes.len() == 0 {
                    let mut v: Vec<String> = Vec::new();
                    let mut i: usize = 0;
                    while i < network.canonical_bootnodes.len()
                        invariant
                            i <= network.canonical_bootnodes@.len(),
                            v@ == network.canonical_bootnodes@.subrange(0, i as int),
                        decreases network.canonical_bootnodes@.len() - i,
                    {
                        v.push(network.canonical_bootnodes[i].clone());
                        i = i + 1;
                        assert(v@ =~= network.canonical_bootnodes@.subrange(0, i as int));
                    }
                    assert(v@ =~= network.canonical_bootnodes@);
                    v
                } else {
                    self.p2p_bootnodes
                };
                Ok(
                    NodeConfig {
                        network,
                        genesis_hash,
                        p2p_local_keypair: self.p2p_local_keypair,
                        bootnodes,
                        listen_on: self.p2p_listen_on,
                        blockstore,
                        store,
                    },
                )
            },
            _ => Err(NodeBuilderError::Missing(missing)),
        }
    }

    pub fn with_network(self, network: Network) -> (r: Self)
        ensures
            r.network() == Some(network),
            r.genesis_hash() == self.genesis_hash(),
            r.p2p_local_keypair() == self.p2p_local_keypair(),
            r.p2p_bootnodes() == self.p2p_bootnodes(),
            r.p2p_listen_on() == self.p2p_listen_on(),
            r.blockstore() == self.blockstore(),
            r.store() == self.store(),
    {
        NodeBuilder { network: Some(network), ..self }
    }

    pub fn with_genesis(self, hash: Option<Digest>) -> (r: Self)
        ensures
            r.network() == self.network(),
            r.genesis_hash() == hash,
            r.p2p_local_keypair() == self.p2p_local_keypair(),
            r.p2p_bootnodes() == self.p2p_bootnodes(),
            r.p2p_listen_on() == self.p2p_listen_on(),
            r.blockstore() == self.blockstore(),
            r.store() == self.store(),
    {
        NodeBuilder { genesis_hash: hash, ..self }
    }

    pub fn with_p2p_keypair(self, keypair: Vec<u8>) -> (r: Self)
        ensures
            r.network() == self.network(),
            r.genesis_hash() == self.genesis_hash(),
            r.p2p_local_keypair() == Some(keypair),
            r.p2p_bootnodes() == self.p2p_bootnodes(),
            r.p2p_listen_on() == self.p2p_listen_on(),
            r.blockstore() == self.blockstore(),
            r.store() == self.store(),
    {
        NodeBuilder { p2p_local_keypair: Some(keypair), ..self }
    }

    pub fn with_listeners(self, listeners: Vec<String>) -> (r: Self)
        ensures
            r.network() == self.network(),
            r.genesis_hash() == self.genesis_hash(),
            r.p2p_local_keypair() == self.p2p_local_keypair(),
            r.p2p_bootnodes() == self.p2p_bootnodes(),
            r.p2p_listen_on() == listeners@,
            r.blockstore() == self.blockstore(),
            r.store() == self.store(),
    {
        NodeBuilder { p2p_listen_on: listeners, ..self }
    }

    pub fn with_bootnodes(self, bootnodes: Vec<String>) -> (r: Self)
        ensures
            r.network() == self.network(),
            r.genesis_hash() == self.genesis_hash(),
            r.p2p_local_keypair() == self.p2p_local_keypair(),
            r.p2p_bootnodes() == bootnodes@,
            r.p2p_listen_on() == self.p2p_listen_on(),
            r.blockstore() == self.blockstore(),
            r.store() == self.store(),
    {
        NodeBuilder { p2p_bootnodes: bootnodes, ..self }
    }

    pub fn with_blockstore<NB>(self, blockstore: NB) -> (r: NodeBuilder<NB, S>)
        ensures
            r.network() == self.network(),
            r.genesis_hash() == self.genesis_hash(),
            r.p2p_local_keypair() == self.p2p_local_keypair(),
            r.p2p_bootnodes() == self.p2p_bootnodes(),
            r.p2p_listen_on() == self.p2p_listen_on(),
            r.blockstore() == Some(blockstore),
            r.store() == self.store(),
    {
        NodeBuilder {
            network: self.network,
            genesis_hash: self.genesis_hash,
            p2p_local_keypair: self.p2p_local_keypair,
            p2p_bootnodes: self.p2p_bootnodes,
            p2p_listen_on: self.p2p_listen_on,
            blockstore: Some(blockstore),
            store: self.store,
        }
    }

    pub fn with_store<NS>(self, store: NS) -> (r: NodeBuilder<B, NS>)
        ensures
            r.network() == self.network(),
            r.genesis_hash() == self.genesis_hash(),
            r.p2p_local_keypair() == self.p2p_local_keypair(),
            r.p2p_bootnodes() == self.p2p_bootnodes(),
            r.p2p_listen_on() == self.p2p_listen_on(),
            r.blockstore() == self.blockstore(),
            r.store() == Some(store),
    {
        NodeBuilder {
            network: self.network,
            genesis_hash: self.genesis_hash,
            p2p_local_keypair: self.p2p_local_keypair,
            p2p_bootnodes: self.p2p_bootnodes,
            p2p_listen_on: self.p2p_listen_on,
            blockstore: self.blockstore,
            store: Some(store),
        }
    }
}

} // verus!
