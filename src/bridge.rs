use vstd::prelude::*;

use crate::types::Digest;

verus! {

/// One component of a peer address.
#[derive(Debug, Clone, Copy, PartialEq, Eq, Structural)]
pub enum Protocol {
    Ip4(u32),
    Ip6(u128),
    Tcp(u16),
    Udp(u16),
    QuicV1,
    /// The identity of the peer that listens there.
    P2p(Digest),
    /// Any other component, by its multicodec code.
    Other(u64),
}

/// A peer address: a stack of protocol components.
#[derive(Debug, PartialEq, Eq)]
pub struct Multiaddr {
    pub parts: Vec<Protocol>,
}

/// The bridge node listens on no TCP address.
#[derive(Debug, Clone, Copy, PartialEq, Eq, Structural)]
pub enum BridgeError {
    NoTcpAddress,
}

pub open spec fn has_tcp(a: Seq<Protocol>) -> bool {
    exists|i: int| 0 <= i < a.len() && (#[trigger] a[i]) matches Protocol::Tcp(_)
}

pub open spec fn has_p2p(a: Seq<Protocol>) -> bool {
    exists|i: int| 0 <= i < a.len() && (#[trigger] a[i]) matches Protocol::P2p(_)
}

/// The TCP addresses among `addrs`, in order, each ending in the bridge's
/// identity unless it names a peer already.
pub open spec fn dialable(addrs: Seq<Seq<Protocol>>, id: Digest) -> Seq<Seq<Protocol>>
    decreases addrs.len(),
{
    if addrs.len() == 0 {
        Seq::empty()
    } else {
        let rest = dialable(addrs.drop_last(), id);
        let a = addrs.last();
        if !has_tcp(a) {
            rest
        } else if has_p2p(a) {
            rest.push(a)
        } else {
            rest.push(a.push(Protocol::P2p(id)))
        }
    }
}

pub open spec fn stacks(addrs: Seq<Multiaddr>) -> Seq<Seq<Protocol>> {
    addrs.map_values(|m: Multiaddr| m.parts@)
}

fn scan(a: &Multiaddr) -> (r: (bool, bool))
    ensures
        r.0 == has_tcp(a.parts@),
        r.1 == has_p2p(a.parts@),
{
    let mut tcp = false;
    let mut p2p = false;
    let mut i: usize = 0;
    while i < a.parts.len()
        invariant
            i <= a.parts@.len(),
            tcp <==> exists|k: int| 0 <= k < i && (#[trigger] a.parts@[k]) matches Protocol::Tcp(_),
            p2p <==> exists|k: int| 0 <= k < i && (#[trigger] a.parts@[k]) matches Protocol::P2p(_),
        decreases a.parts@.len() - i,
    {
        match a.parts[i] {
            Protocol::Tcp(_) => {
                tcp = true;
            },
            Protocol::P2p(_) => {
                p2p = true;
            },
            _ => {},
        }
        i = i + 1;
    }
    (tcp, p2p)
}

/// From the addresses that a bridge node reports, the ones a light node can
/// dial: TCP addresses only, each completed with the bridge's identity.
pub fn bridge_multiaddrs(addrs: Vec<Multiaddr>, id: Digest) -> (r: Result<Vec<Multiaddr>, BridgeError>)
    ensures
        match r {
            Ok(v) => stacks(v@) == dialable(stacks(addrs@), id) && v@.len() > 0,
            Err(e) => e == BridgeError::NoTcpAddress && dialable(stacks(addrs@), id).len() == 0,
        },
{
    let ghost all = addrs@;
    let mut addrs = addrs;
    let total = addrs.len();
    let mut out: Vec<Multiaddr> = Vec::new();
    let mut i: usize = 0;
    while addrs.len() > 0
        invariant
            all.len() == total,
            i + addrs@.len() == all.len(),
            addrs@ == all.subrange(i as int, all.len() as int),
            stacks(out@) == dialable(stacks(all.subrange(0, i as int)), id),
        decreases addrs@.len(),
    {
        let mut a = addrs.remove(0);
        let ghost parts = a.parts@;
        proof {
            assert(a == all[i as int]);
            assert(stacks(all.subrange(0, i + 1)).drop_last() =~= stacks(all.subrange(0, i as int)));
            assert(stacks(all.subrange(0, i + 1)).last() == parts);
        }
        let (tcp, p2p) = scan(&a);
        if tcp {
            if !p2p {
                a.parts.push(Protocol::P2p(id));
            }
            let ghost before = out@;
            out.push(a);
            proof {
                assert(stacks(out@) =~= stacks(before).push(a.parts@));
            }
        }
        i = i + 1;
        proof {
            assert(addrs@ =~= all.subrange(i as int, all.len() as int));
        }
    }
    proof {
        assert(all.subrange(0, i as int) =~= all);
    }
    if out.len() == 0 {
        Err(BridgeError::NoTcpAddress)
    } else {
        Ok(out)
    }
}

} // verus!
