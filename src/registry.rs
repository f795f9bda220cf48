//! The set of optional sub-protocols, each independently enabled or disabled.
//!
//! A disabled sub-protocol is inert: it receives no event, is never polled and
//! is never advertised to a remote peer. The application protocol that carries
//! overlay traffic is always present.
use crate::config::Discovery;
use vstd::prelude::*;

verus! {

/// The sub-protocols that a node composes.
#[derive(Clone, Copy, Debug, PartialEq, Eq, Structural)]
pub enum SubProtocol {
    /// The overlay's own application protocol; always enabled.
    Vpn,
    /// Content-routing table (DHT).
    Kademlia,
    /// Multicast peer discovery on the local network.
    Mdns,
    /// Port mapping on the local gateway.
    Upnp,
    /// Relaying for peers that cannot be reached directly.
    Relay,
    /// Hole punching through relayed connections.
    Dcutr,
    /// Active NAT-status probing.
    Autonat,
    /// Exchange of listen addresses and supported protocols.
    Identify,
    /// Liveness probing.
    Ping,
}

/// Every sub-protocol, in a fixed order.
pub open spec fn all_sub_protocols() -> Seq<SubProtocol> {
    seq![
        SubProtocol::Vpn,
        SubProtocol::Kademlia,
        SubProtocol::Mdns,
        SubProtocol::Upnp,
        SubProtocol::Relay,
        SubProtocol::Dcutr,
        SubProtocol::Autonat,
        SubProtocol::Identify,
        SubProtocol::Ping,
    ]
}

/// Whether `p` runs over negotiated streams, and so has an identifier to
/// advertise. Multicast discovery and port mapping talk to the local network,
/// not to peers over streams.
pub open spec fn has_stream_protocol(p: SubProtocol) -> bool {
    !(p is Mdns || p is Upnp)
}

/// Whether `p` can be switched off.
pub open spec fn is_optional(p: SubProtocol) -> bool {
    !(p is Vpn)
}

/// A command was issued against a disabled sub-protocol by a caller that needs it.
#[derive(Clone, Copy, Debug, PartialEq, Eq, Structural)]
pub struct SubProtocolUnavailable {
    pub sub_protocol: SubProtocol,
}

/// Which optional sub-protocols are enabled.
pub struct Registry {
    kademlia: bool,
    mdns: bool,
    upnp: bool,
    relay: bool,
    dcutr: bool,
    autonat: bool,
    identify: bool,
    ping: bool,
}

impl View for Registry {
    type V = Set<SubProtocol>;

    /// The enabled sub-protocols.
    closed spec fn view(&self) -> Set<SubProtocol> {
        Set::new(|p: SubProtocol| self.flag(p))
    }
}

/// The sub-protocols that a registry with enabled set `enabled` advertises.
pub open spec fn advertised_set(enabled: Set<SubProtocol>) -> Set<SubProtocol> {
    Set::new(|p: SubProtocol| enabled.contains(p) && has_stream_protocol(p))
}

impl Registry {
    closed spec fn flag(&self, p: SubProtocol) -> bool {
        match p {
            SubProtocol::Vpn => true,
            SubProtocol::Kademlia => self.kademlia,
            SubProtocol::Mdns => self.mdns,
            SubProtocol::Upnp => self.upnp,
            SubProtocol::Relay => self.relay,
            SubProtocol::Dcutr => self.dcutr,
            SubProtocol::Autonat => self.autonat,
            SubProtocol::Identify => self.identify,
            SubProtocol::Ping => self.ping,
        }
    }

    /// The sub-protocols that the configuration asks for. Liveness probing is
    /// not configurable and starts disabled.
    pub fn new(discovery: &Discovery, enable_relay: bool) -> (r: Registry)
        ensures
            r@ == Set::new(
                |p: SubProtocol|
                    match p {
                        SubProtocol::Vpn => true,
                        SubProtocol::Kademlia => discovery.dht,
                        SubProtocol::Mdns => discovery.mdns,
                        SubProtocol::Upnp => discovery.upnp,
                        SubProtocol::Relay => enable_relay,
                        SubProtocol::Dcutr => discovery.dcutr,
                        SubProtocol::Autonat => discovery.autonat,
                        SubProtocol::Identify => discovery.identify,
                        SubProtocol::Ping => false,
                    },
            ),
    {
        let r = Registry {
            kademlia: discovery.dht,
            mdns: discovery.mdns,
            upnp: discovery.upnp,
            relay: enable_relay,
            dcutr: discovery.dcutr,
            autonat: discovery.autonat,
            identify: discovery.identify,
            ping: false,
        };
        assert(r@ =~= Set::new(
            |p: SubProtocol|
                match p {
                    SubProtocol::Vpn => true,
                    SubProtocol::Kademlia => discovery.dht,
                    SubProtocol::Mdns => discovery.mdns,
                    SubProtocol::Upnp => discovery.upnp,
                    SubProtocol::Relay => enable_relay,
                    SubProtocol::Dcutr => discovery.dcutr,
                    SubProtocol::Autonat => discovery.autonat,
                    SubProtocol::Identify => discovery.identify,
                    SubProtocol::Ping => false,
                },
        ));
        r
    }

    /// Whether `p` is enabled.
    pub fn is_enabled(&self, p: SubProtocol) -> (r: bool)
        ensures
            r == self@.contains(p),
    {
        match p {
            SubProtocol::Vpn => true,
            SubProtocol::Kademlia => self.kademlia,
            SubProtocol::Mdns => self.mdns,
            SubProtocol::Upnp => self.upnp,
            SubProtocol::Relay => self.relay,
            SubProtocol::Dcutr => self.dcutr,
            SubProtocol::Autonat => self.autonat,
            SubProtocol::Identify => self.identify,
            SubProtocol::Ping => self.ping,
        }
    }

    /// Enable or disable `p`; used, for one, when constructing `p` failed and it
    /// degrades to disabled. The application protocol cannot be disabled.
    pub fn set_enabled(&mut self, p: SubProtocol, on: bool)
        ensures
            final(self)@ == if !is_optional(p) {
                old(self)@
            } else if on {
                old(self)@.insert(p)
            } else {
                old(self)@.remove(p)
            },
    {
        match p {
            SubProtocol::Vpn => {},
            SubProtocol::Kademlia => self.kademlia = on,
            SubProtocol::Mdns => self.mdns = on,
            SubProtocol::Upnp => self.upnp = on,
            SubProtocol::Relay => self.relay = on,
            SubProtocol::Dcutr => self.dcutr = on,
            SubProtocol::Autonat => self.autonat = on,
            SubProtocol::Identify => self.identify = on,
            SubProtocol::Ping => self.ping = on,
        }
        assert(self@ =~= if !is_optional(p) {
            old(self)@
        } else if on {
            old(self)@.insert(p)
        } else {
            old(self)@.remove(p)
        });
    }

    /// Whether a command for `p` is to be issued: `Ok(true)` where `p` is
    /// enabled; where it is not, `Ok(false)` (nothing to do) unless the caller
    /// `required` it, which is an error.
    pub fn command(&self, p: SubProtocol, required: bool) -> (r: Result<bool, SubProtocolUnavailable>)
        ensures
            self@.contains(p) ==> r == Ok::<bool, SubProtocolUnavailable>(true),
            !self@.contains(p) && !required ==> r == Ok::<bool, SubProtocolUnavailable>(false),
            !self@.contains(p) && required ==> r == Err::<bool, SubProtocolUnavailable>(
                SubProtocolUnavailable { sub_protocol: p },
            ),
    {
        if self.is_enabled(p) {
            Ok(true)
        } else if required {
            Err(SubProtocolUnavailable { sub_protocol: p })
        } else {
            Ok(false)
        }
    }

    /// The sub-protocols whose identifiers this node advertises on a new
    /// connection: the enabled ones that run over streams, each once.
    pub fn advertised(&self) -> (r: Vec<SubProtocol>)
        ensures
            r@.to_set() == advertised_set(self@),
            r@.no_duplicates(),
    {
        let all: Vec<SubProtocol> = vec![
            SubProtocol::Vpn,
            SubProtocol::Kademlia,
            SubProtocol::Mdns,
            SubProtocol::Upnp,
            SubProtocol::Relay,
            SubProtocol::Dcutr,
            SubProtocol::Autonat,
            SubProtocol::Identify,
            SubProtocol::Ping,
        ];
        assert(all@ =~= all_sub_protocols());
        let mut r: Vec<SubProtocol> = Vec::new();
        let mut i: usize = 0;
        while i < all.len()
            invariant
                i <= all@.len(),
                all@ == all_sub_protocols(),
                r@.no_duplicates(),
                forall|q: SubProtocol|
                    #[trigger] r@.contains(q) <==> (index_of(q) < i && self@.contains(q)
                        && has_stream_protocol(q)),
            decreases all@.len() - i,
        {
            let p = all[i];
            proof {
                lemma_index_of(i as int);
            }
            let keep = self.is_enabled(p) && match p {
                SubProtocol::Mdns => false,
                SubProtocol::Upnp => false,
                _ => true,
            };
            let ghost before = r@;
            assert(!before.contains(p));
            if keep {
                r.push(p);
                assert(r@ == before.push(p));
            }
            proof {
                assert forall|q: SubProtocol|
                    #[trigger] r@.contains(q) <==> (index_of(q) < i + 1 && self@.contains(q)
                        && has_stream_protocol(q)) by {
                    if index_of(q) == i {
                        lemma_index_of_injective(p, q);
                    }
                    if keep {
                        vstd::seq_lib::lemma_seq_contains_after_push(before, p, q);
                    }
                }
                if keep {
                    assert forall|a: int, b: int|
                        0 <= a < r@.len() && 0 <= b < r@.len() && a != b implies r@[a] != r@[b] by {
                        if a == before.len() as int {
                            assert(before.contains(r@[b]));
                        } else if b == before.len() as int {
                            assert(before.contains(r@[a]));
                        }
                    }
                }
            }
            i = i + 1;
        }
        assert(r@.to_set() =~= advertised_set(self@));
        r
    }
}

/// The place of `p` in `all_sub_protocols`.
spec fn index_of(p: SubProtocol) -> int {
    match p {
        SubProtocol::Vpn => 0,
        SubProtocol::Kademlia => 1,
        SubProtocol::Mdns => 2,
        SubProtocol::Upnp => 3,
        SubProtocol::Relay => 4,
        SubProtocol::Dcutr => 5,
        SubProtocol::Autonat => 6,
        SubProtocol::Identify => 7,
        SubProtocol::Ping => 8,
    }
}

proof fn lemma_index_of(i: int)
    requires
        0 <= i < 9,
    ensures
        index_of(all_sub_protocols()[i]) == i,
{
}

proof fn lemma_index_of_injective(p: SubProtocol, q: SubProtocol)
    requires
        index_of(p) == index_of(q),
    ensures
        p == q,
{
}

/// A disabled sub-protocol is never advertised, and is not to be handed
/// commands; enabling a stream sub-protocol makes the next advertisement
/// carry it.
pub proof fn lemma_toggle_inertness(enabled: Set<SubProtocol>, p: SubProtocol)
    ensures
        !enabled.contains(p) ==> !advertised_set(enabled).contains(p),
        has_stream_protocol(p) ==> advertised_set(enabled.insert(p)).contains(p),
{
}

} // verus!
