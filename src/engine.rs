//! The orchestration engine: reacts to connection and discovery events by
//! updating the peer directory and queuing commands (dial, add an address,
//! publish a record). It never waits for a command to complete; the event loop
//! that drives it performs the commands and reports what follows as new events.
use crate::bytes::bytes_clone;
use crate::config::{Config, IpAddress};
use crate::directory::{byte_views, ByteSet, PairSet};
use crate::registry::{Registry, SubProtocol};
use vstd::prelude::*;

verus! {

/// Seconds that a published self-record stays valid.
pub const RECORD_TTL_SECS: u64 = 60;

/// Seconds after which the self-record is published again, well before it expires.
pub const REPUBLISH_INTERVAL_SECS: u64 = 30;

/// Something that happened on a connection or in a sub-protocol. Peers and
/// addresses are in their binary encodings.
pub enum Event {
    /// The peer-identification exchange with `peer` reported its listen addresses.
    IdentifyReceived { peer: Vec<u8>, listen_addrs: Vec<Vec<u8>> },
    /// Multicast discovery announced `peer` at `addr`.
    MdnsDiscovered { peer: Vec<u8>, addr: Vec<u8> },
    /// Port mapping made the local node reachable at `addr`.
    UpnpNewExternalAddr { addr: Vec<u8> },
    /// The routing table finished bootstrapping, closest to `peer`.
    KadBootstrapped { peer: Vec<u8> },
    /// The routing table learned that `peer` is reachable at `addr`.
    KadRoutable { peer: Vec<u8>, addr: Vec<u8> },
    /// A connection to `peer` was established; `addr` is the address it was
    /// dialed at, for a connection this node opened.
    ConnectionEstablished { peer: Vec<u8>, addr: Option<Vec<u8>> },
    /// A connection to `peer` closed; `remaining` connections to it are left.
    ConnectionClosed { peer: Vec<u8>, remaining: u32 },
    /// Dialing `peer` failed.
    DialFailed { peer: Vec<u8> },
}

/// Work for the event loop.
pub enum Command {
    /// Dial `peer` at `addr`.
    Dial { peer: Vec<u8>, addr: Vec<u8> },
    /// Dial `addr`, whatever peer answers there.
    DialAddress { addr: Vec<u8> },
    /// Tell the network layer that `peer` can be reached at `addr`.
    AddPeerAddress { peer: Vec<u8>, addr: Vec<u8> },
    /// Announce `addr` as an address of the local node.
    AddExternalAddress { addr: Vec<u8> },
    /// Ask the routing table for the peers closest to `peer`.
    GetClosestPeers { peer: Vec<u8> },
    /// Store a record in the routing table, published by `publisher`, valid
    /// for `ttl_secs` seconds.
    PutRecord { key: Vec<u8>, value: Vec<u8>, publisher: Vec<u8>, ttl_secs: u64 },
}

pub ghost enum CommandView {
    Dial { peer: Seq<u8>, addr: Seq<u8> },
    DialAddress { addr: Seq<u8> },
    AddPeerAddress { peer: Seq<u8>, addr: Seq<u8> },
    AddExternalAddress { addr: Seq<u8> },
    GetClosestPeers { peer: Seq<u8> },
    PutRecord { key: Seq<u8>, value: Seq<u8>, publisher: Seq<u8>, ttl_secs: u64 },
}

impl View for Command {
    type V = CommandView;

    open spec fn view(&self) -> CommandView {
        match self {
            Command::Dial { peer, addr } => CommandView::Dial { peer: peer@, addr: addr@ },
            Command::DialAddress { addr } => CommandView::DialAddress { addr: addr@ },
            Command::AddPeerAddress { peer, addr } => CommandView::AddPeerAddress {
                peer: peer@,
                addr: addr@,
            },
            Command::AddExternalAddress { addr } => CommandView::AddExternalAddress { addr: addr@ },
            Command::GetClosestPeers { peer } => CommandView::GetClosestPeers { peer: peer@ },
            Command::PutRecord { key, value, publisher, ttl_secs } => CommandView::PutRecord {
                key: key@,
                value: value@,
                publisher: publisher@,
                ttl_secs: *ttl_secs,
            },
        }
    }
}

pub open spec fn command_views(v: Seq<Command>) -> Seq<CommandView> {
    v.map_values(|c: Command| c@)
}

/// The sub-protocol that produces `e`, if any; connection events belong to the
/// engine itself.
pub open spec fn owner(e: &Event) -> Option<SubProtocol> {
    match e {
        Event::IdentifyReceived { .. } => Some(SubProtocol::Identify),
        Event::MdnsDiscovered { .. } => Some(SubProtocol::Mdns),
        Event::UpnpNewExternalAddr { .. } => Some(SubProtocol::Upnp),
        Event::KadBootstrapped { .. } => Some(SubProtocol::Kademlia),
        Event::KadRoutable { .. } => Some(SubProtocol::Kademlia),
        _ => None,
    }
}

/// The key under which a peer publishes its public key: `/pk/` followed by
/// the peer's identity.
pub open spec fn record_key(peer: Seq<u8>) -> Seq<u8> {
    seq![0x2fu8, 0x70u8, 0x6bu8, 0x2fu8] + peer
}

/// Whether an announcement of `peer` at `addr` calls for a dial: the peer is
/// not connected and no dial to that address is under way.
pub open spec fn dial_is_fresh(
    connected: Set<Seq<u8>>,
    dialed: Set<(Seq<u8>, Seq<u8>)>,
    peer: Seq<u8>,
    addr: Seq<u8>,
) -> bool {
    !connected.contains(peer) && !dialed.contains((peer, addr))
}

/// The dials that an announcement of `peer` at `addr` queues.
pub open spec fn discovery_dials(
    connected: Set<Seq<u8>>,
    dialed: Set<(Seq<u8>, Seq<u8>)>,
    peer: Seq<u8>,
    addr: Seq<u8>,
) -> Seq<CommandView> {
    if dial_is_fresh(connected, dialed, peer, addr) {
        seq![CommandView::Dial { peer, addr }]
    } else {
        Seq::<CommandView>::empty()
    }
}

/// The dials under way after an announcement of `peer` at `addr`.
pub open spec fn dialed_after_discovery(
    connected: Set<Seq<u8>>,
    dialed: Set<(Seq<u8>, Seq<u8>)>,
    peer: Seq<u8>,
    addr: Seq<u8>,
) -> Set<(Seq<u8>, Seq<u8>)> {
    if dial_is_fresh(connected, dialed, peer, addr) {
        dialed.insert((peer, addr))
    } else {
        dialed
    }
}

/// An announcement of a peer that is neither connected nor being dialed at
/// that address queues exactly one dial; announcing the same peer at the same
/// address again queues none.
pub proof fn lemma_discovery_dials_once(
    connected: Set<Seq<u8>>,
    dialed: Set<(Seq<u8>, Seq<u8>)>,
    peer: Seq<u8>,
    addr: Seq<u8>,
)
    ensures
        dial_is_fresh(connected, dialed, peer, addr) ==> discovery_dials(
            connected,
            dialed,
            peer,
            addr,
        ) == seq![CommandView::Dial { peer, addr }],
        discovery_dials(
            connected,
            dialed_after_discovery(connected, dialed, peer, addr),
            peer,
            addr,
        ).len() == 0,
{
}

/// The transport of a listen address.
#[derive(Clone, Copy, Debug, PartialEq, Eq, Structural)]
pub enum ListenTransport {
    /// A stream transport on the given TCP port.
    Tcp(u16),
    /// A datagram transport with built-in security: QUIC v1 on the given UDP port.
    QuicV1(u16),
}

/// An address to listen on.
#[derive(Clone, Copy, Debug, PartialEq, Eq, Structural)]
pub struct ListenAddress {
    pub ip: IpAddress,
    pub transport: ListenTransport,
}

/// The two addresses a node listens on: TCP and QUIC, both on the configured
/// address and port.
pub fn listen_addresses(config: &Config) -> (r: Vec<ListenAddress>)
    ensures
        r@ == seq![
            ListenAddress { ip: config.listen_addr, transport: ListenTransport::Tcp(config.listen_port) },
            ListenAddress {
                ip: config.listen_addr,
                transport: ListenTransport::QuicV1(config.listen_port),
            },
        ],
{
    let mut r: Vec<ListenAddress> = Vec::new();
    r.push(ListenAddress { ip: config.listen_addr, transport: ListenTransport::Tcp(config.listen_port) });
    r.push(
        ListenAddress { ip: config.listen_addr, transport: ListenTransport::QuicV1(config.listen_port) },
    );
    assert(r@ =~= seq![
        ListenAddress { ip: config.listen_addr, transport: ListenTransport::Tcp(config.listen_port) },
        ListenAddress { ip: config.listen_addr, transport: ListenTransport::QuicV1(config.listen_port) },
    ]);
    r
}

/// One dial for each bootstrap address, in order.
pub fn bootstrap_dials(bootstrap: &Vec<Vec<u8>>) -> (r: Vec<Command>)
    ensures
        command_views(r@) == byte_views(bootstrap@).map_values(
            |a: Seq<u8>| CommandView::DialAddress { addr: a },
        ),
{
    let mut r: Vec<Command> = Vec::new();
    let mut i: usize = 0;
    while i < bootstrap.len()
        invariant
            i <= bootstrap@.len(),
            command_views(r@) == byte_views(bootstrap@.take(i as int)).map_values(
                |a: Seq<u8>| CommandView::DialAddress { addr: a },
            ),
        decreases bootstrap@.len() - i,
    {
        let ghost rv = command_views(r@);
        r.push(Command::DialAddress { addr: bytes_clone(&bootstrap[i]) });
        assert(command_views(r@) =~= rv.push(CommandView::DialAddress { addr: bootstrap@[i as int]@ }));
        assert(bootstrap@.take(i + 1) =~= bootstrap@.take(i as int).push(bootstrap@[i as int]));
        assert(byte_views(bootstrap@.take(i + 1)) =~= byte_views(bootstrap@.take(i as int)).push(
            bootstrap@[i as int]@,
        ));
        assert(command_views(r@) =~= byte_views(bootstrap@.take(i + 1)).map_values(
            |a: Seq<u8>| CommandView::DialAddress { addr: a },
        ));
        i = i + 1;
    }
    assert(bootstrap@.take(i as int) =~= bootstrap@);
    r
}

/// The engine's state: the peer directory, which peers are connected, which
/// dials are under way, and when the self-record was last published.
pub struct Engine {
    local_peer: Vec<u8>,
    registry: Registry,
    directory: PairSet,
    connected: ByteSet,
    dialed: PairSet,
    last_published: Option<u64>,
}

impl Engine {
    pub closed spec fn local_peer(&self) -> Seq<u8> {
        self.local_peer@
    }

    /// The enabled sub-protocols.
    pub closed spec fn enabled(&self) -> Set<SubProtocol> {
        self.registry@
    }

    /// The peer directory, as (peer, address) pairs.
    pub closed spec fn directory(&self) -> Set<(Seq<u8>, Seq<u8>)> {
        self.directory.set()
    }

    /// The peers with at least one established connection.
    pub closed spec fn connected(&self) -> Set<Seq<u8>> {
        self.connected.set()
    }

    /// The (peer, address) pairs that a dial was queued for and that have not
    /// failed or closed since.
    pub closed spec fn dialed(&self) -> Set<(Seq<u8>, Seq<u8>)> {
        self.dialed.set()
    }

    /// When the self-record was last published.
    pub closed spec fn last_published(&self) -> Option<u64> {
        self.last_published
    }

    /// The sets are well formed, and every dial under way is to an address
    /// in the directory.
    pub closed spec fn wf(&self) -> bool {
        &&& self.directory.wf()
        &&& self.connected.wf()
        &&& self.dialed.wf()
        &&& self.dialed.set().subset_of(self.directory.set())
    }

    /// Every dial under way is to an address in the directory.
    pub proof fn lemma_dialed_in_directory(&self)
        requires
            self.wf(),
        ensures
            self.dialed().subset_of(self.directory()),
    {
    }

    /// An engine for the local peer `local_peer` running the sub-protocols
    /// that `registry` enables, with an empty directory.
    pub fn new(local_peer: Vec<u8>, registry: Registry) -> (r: Self)
        ensures
            r.wf(),
            r.local_peer() == local_peer@,
            r.enabled() == registry@,
            r.directory() == Set::<(Seq<u8>, Seq<u8>)>::empty(),
            r.connected() == Set::<Seq<u8>>::empty(),
            r.dialed() == Set::<(Seq<u8>, Seq<u8>)>::empty(),
            r.last_published() == None::<u64>,
    {
        Engine {
            local_peer,
            registry,
            directory: PairSet::new(),
            connected: ByteSet::new(),
            dialed: PairSet::new(),
            last_published: None,
        }
    }

    /// Whether `p` is enabled.
    pub fn is_enabled(&self, p: SubProtocol) -> (r: bool)
        ensures
            r == self.enabled().contains(p),
    {
        self.registry.is_enabled(p)
    }

    /// The addresses known for `peer`.
    pub fn addresses_of(&self, peer: &Vec<u8>) -> (r: Vec<Vec<u8>>)
        ensures
            forall|a: Seq<u8>| #[trigger]
                byte_views(r@).contains(a) <==> self.directory().contains((peer@, a)),
    {
        self.directory.seconds_of(peer)
    }

    /// Record that `peer` can be reached at `addr`, and pass it on to the
    /// network layer.
    pub fn add_address(&mut self, peer: Vec<u8>, addr: Vec<u8>) -> (r: Command)
        requires
            old(self).wf(),
        ensures
            final(self).wf(),
            final(self).local_peer() == old(self).local_peer(),
            final(self).enabled() == old(self).enabled(),
            final(self).last_published() == old(self).last_published(),
            final(self).directory() == old(self).directory().insert((peer@, addr@)),
            final(self).connected() == old(self).connected(),
            final(self).dialed() == old(self).dialed(),
            r@ == (CommandView::AddPeerAddress { peer: peer@, addr: addr@ }),
    {
        self.directory.insert(&peer, &addr);
        Command::AddPeerAddress { peer, addr }
    }

    /// React to `e`. An event of a disabled sub-protocol is not delivered: it
    /// changes nothing and queues nothing.
    pub fn handle(&mut self, e: Event) -> (r: Vec<Command>)
        requires
            old(self).wf(),
        ensures
            final(self).wf(),
            final(self).local_peer() == old(self).local_peer(),
            final(self).enabled() == old(self).enabled(),
            final(self).last_published() == old(self).last_published(),
            match owner(&e) {
                Some(p) => !old(self).enabled().contains(p) ==> {
                    &&& r@.len() == 0
                    &&& final(self).directory() == old(self).directory()
                    &&& final(self).connected() == old(self).connected()
                    &&& final(self).dialed() == old(self).dialed()
                },
                None => true,
            },
            owner(&e) is None || old(self).enabled().contains(owner(&e)->0) ==> match e {
                Event::IdentifyReceived { peer, listen_addrs } => {
                    &&& final(self).directory() == old(self).directory().union(
                        byte_views(listen_addrs@).to_set().map(|a: Seq<u8>| (peer@, a)),
                    )
                    &&& command_views(r@) == byte_views(listen_addrs@).map_values(
                        |a: Seq<u8>| CommandView::AddPeerAddress { peer: peer@, addr: a },
                    )
                    &&& final(self).connected() == old(self).connected()
                    &&& final(self).dialed() == old(self).dialed()
                },
                Event::MdnsDiscovered { peer, addr } => {
                    &&& !old(self).connected().contains(peer@) && !old(self).directory().contains(
                        (peer@, addr@),
                    ) ==> command_views(r@) == seq![CommandView::Dial { peer: peer@, addr: addr@ }]
                    &&& final(self).directory() == old(self).directory().insert((peer@, addr@))
                    &&& command_views(r@) == discovery_dials(
                        old(self).connected(),
                        old(self).dialed(),
                        peer@,
                        addr@,
                    )
                    &&& final(self).dialed() == dialed_after_discovery(
                        old(self).connected(),
                        old(self).dialed(),
                        peer@,
                        addr@,
                    )
                    &&& final(self).connected() == old(self).connected()
                },
                Event::UpnpNewExternalAddr { addr } => {
                    &&& command_views(r@) == seq![CommandView::AddExternalAddress { addr: addr@ }]
                    &&& final(self).directory() == old(self).directory()
                    &&& final(self).connected() == old(self).connected()
                    &&& final(self).dialed() == old(self).dialed()
                },
                Event::KadBootstrapped { peer } => {
                    &&& command_views(r@) == seq![CommandView::GetClosestPeers { peer: peer@ }]
                    &&& final(self).directory() == old(self).directory()
                    &&& final(self).connected() == old(self).connected()
                    &&& final(self).dialed() == old(self).dialed()
                },
                Event::KadRoutable { peer, addr } => {
                    &&& final(self).directory() == old(self).directory().insert((peer@, addr@))
                    &&& command_views(r@) == seq![
                        CommandView::AddPeerAddress { peer: peer@, addr: addr@ },
                    ]
                    &&& final(self).connected() == old(self).connected()
                    &&& final(self).dialed() == old(self).dialed()
                },
                Event::ConnectionEstablished { peer, addr } => {
                    &&& final(self).connected() == old(self).connected().insert(peer@)
                    &&& r@.len() == 0
                    &&& final(self).directory() == match addr {
                        Some(a) => old(self).directory().insert((peer@, a@)),
                        None => old(self).directory(),
                    }
                    &&& final(self).dialed() == old(self).dialed()
                },
                Event::ConnectionClosed { peer, remaining } => {
                    &&& final(self).connected() == if remaining == 0 {
                        old(self).connected().remove(peer@)
                    } else {
                        old(self).connected()
                    }
                    &&& final(self).dialed() == if remaining == 0 {
                        old(self).dialed().filter(|d: (Seq<u8>, Seq<u8>)| d.0 != peer@)
                    } else {
                        old(self).dialed()
                    }
                    &&& r@.len() == 0
                    &&& final(self).directory() == old(self).directory()
                },
                Event::DialFailed { peer } => {
                    &&& final(self).dialed() == old(self).dialed().filter(
                        |d: (Seq<u8>, Seq<u8>)| d.0 != peer@,
                    )
                    &&& r@.len() == 0
                    &&& final(self).directory() == old(self).directory()
                    &&& final(self).connected() == old(self).connected()
                },
            },
    {
        let owner = match &e {
            Event::IdentifyReceived { .. } => Some(SubProtocol::Identify),
            Event::MdnsDiscovered { .. } => Some(SubProtocol::Mdns),
            Event::UpnpNewExternalAddr { .. } => Some(SubProtocol::Upnp),
            Event::KadBootstrapped { .. } => Some(SubProtocol::Kademlia),
            Event::KadRoutable { .. } => Some(SubProtocol::Kademlia),
            _ => None,
        };
        if let Some(p) = owner {
            if !self.registry.is_enabled(p) {
                return Vec::new();
            }
        }
        match e {
            Event::IdentifyReceived { peer, listen_addrs } => self.on_identify(&peer, &listen_addrs),
            Event::MdnsDiscovered { peer, addr } => self.on_discovered(peer, addr),
            Event::UpnpNewExternalAddr { addr } => {
                let mut r: Vec<Command> = Vec::new();
                r.push(Command::AddExternalAddress { addr });
                assert(command_views(r@) =~= seq![CommandView::AddExternalAddress { addr: addr@ }]);
                r
            },
            Event::KadBootstrapped { peer } => {
                let mut r: Vec<Command> = Vec::new();
                r.push(Command::GetClosestPeers { peer });
                assert(command_views(r@) =~= seq![CommandView::GetClosestPeers { peer: peer@ }]);
                r
            },
            Event::KadRoutable { peer, addr } => {
                self.directory.insert(&peer, &addr);
                let mut r: Vec<Command> = Vec::new();
                r.push(Command::AddPeerAddress { peer, addr });
                assert(command_views(r@) =~= seq![
                    CommandView::AddPeerAddress { peer: peer@, addr: addr@ },
                ]);
                r
            },
            Event::ConnectionEstablished { peer, addr } => {
                self.connected.insert(&peer);
                if let Some(a) = addr {
                    self.directory.insert(&peer, &a);
                }
                Vec::new()
            },
            Event::ConnectionClosed { peer, remaining } => {
                if remaining == 0 {
                    self.connected.remove(&peer);
                    self.dialed.remove_first(&peer);
                }
                Vec::new()
            },
            Event::DialFailed { peer } => {
                self.dialed.remove_first(&peer);
                Vec::new()
            },
        }
    }

    fn on_identify(&mut self, peer: &Vec<u8>, listen_addrs: &Vec<Vec<u8>>) -> (r: Vec<Command>)
        requires
            old(self).wf(),
        ensures
            final(self).wf(),
            final(self).local_peer() == old(self).local_peer(),
            final(self).enabled() == old(self).enabled(),
            final(self).last_published() == old(self).last_published(),
            final(self).directory() == old(self).directory().union(
                byte_views(listen_addrs@).to_set().map(|a: Seq<u8>| (peer@, a)),
            ),
            command_views(r@) == byte_views(listen_addrs@).map_values(
                |a: Seq<u8>| CommandView::AddPeerAddress { peer: peer@, addr: a },
            ),
            final(self).connected() == old(self).connected(),
            final(self).dialed() == old(self).dialed(),
    {
        let ghost d0 = self.directory();
        let mut r: Vec<Command> = Vec::new();
        let mut i: usize = 0;
        while i < listen_addrs.len()
            invariant
                i <= listen_addrs@.len(),
                self.wf(),
                self.local_peer() == old(self).local_peer(),
                self.enabled() == old(self).enabled(),
                self.last_published() == old(self).last_published(),
                self.connected() == old(self).connected(),
                self.dialed() == old(self).dialed(),
                d0 == old(self).directory(),
                self.directory() == d0.union(
                    byte_views(listen_addrs@.take(i as int)).to_set().map(|a: Seq<u8>| (peer@, a)),
                ),
                command_views(r@) == byte_views(listen_addrs@.take(i as int)).map_values(
                    |a: Seq<u8>| CommandView::AddPeerAddress { peer: peer@, addr: a },
                ),
            decreases listen_addrs@.len() - i,
        {
            let addr = &listen_addrs[i];
            self.directory.insert(peer, addr);
            let ghost rv = command_views(r@);
            r.push(Command::AddPeerAddress { peer: bytes_clone(peer), addr: bytes_clone(addr) });
            assert(command_views(r@) =~= rv.push(CommandView::AddPeerAddress { peer: peer@, addr: addr@ }));
            let ghost before = byte_views(listen_addrs@.take(i as int));
            let ghost after = byte_views(listen_addrs@.take(i + 1));
            assert(listen_addrs@.take(i + 1) =~= listen_addrs@.take(i as int).push(
                listen_addrs@[i as int],
            ));
            assert(after =~= before.push(addr@));
            assert(command_views(r@) =~= after.map_values(
                |a: Seq<u8>| CommandView::AddPeerAddress { peer: peer@, addr: a },
            ));
            assert(after.to_set() =~= before.to_set().insert(addr@)) by {
                assert forall|x: Seq<u8>| after.to_set().contains(x) <==> before.to_set().insert(
                    addr@,
                ).contains(x) by {
                    vstd::seq_lib::lemma_seq_contains_after_push(before, addr@, x);
                }
            }
            assert(self.directory() =~= d0.union(
                after.to_set().map(|a: Seq<u8>| (peer@, a)),
            )) by {
                assert forall|x: (Seq<u8>, Seq<u8>)| #[trigger] self.directory().contains(x) <==> d0.union(
                    after.to_set().map(|a: Seq<u8>| (peer@, a)),
                ).contains(x) by {
                    if after.to_set().map(|a: Seq<u8>| (peer@, a)).contains(x) {
                        let a = choose|a: Seq<u8>| after.to_set().contains(a) && (peer@, a) == x;
                        if a != addr@ {
                            assert(before.to_set().contains(a));
                            assert(before.to_set().map(|a: Seq<u8>| (peer@, a)).contains(x));
                        }
                    }
                    if x == (peer@, addr@) {
                        assert(after.to_set().contains(addr@));
                        assert(after.to_set().map(|a: Seq<u8>| (peer@, a)).contains(x));
                    }
                    if before.to_set().map(|a: Seq<u8>| (peer@, a)).contains(x) {
                        let a = choose|a: Seq<u8>| before.to_set().contains(a) && (peer@, a) == x;
                        assert(after.to_set().contains(a));
                    }
                }
            }
            i = i + 1;
        }
        assert(listen_addrs@.take(i as int) =~= listen_addrs@);
        r
    }

    fn on_discovered(&mut self, peer: Vec<u8>, addr: Vec<u8>) -> (r: Vec<Command>)
        requires
            old(self).wf(),
        ensures
            final(self).wf(),
            final(self).local_peer() == old(self).local_peer(),
            final(self).enabled() == old(self).enabled(),
            final(self).last_published() == old(self).last_published(),
            final(self).directory() == old(self).directory().insert((peer@, addr@)),
            command_views(r@) == discovery_dials(old(self).connected(), old(self).dialed(), peer@, addr@),
            final(self).dialed() == dialed_after_discovery(
                old(self).connected(),
                old(self).dialed(),
                peer@,
                addr@,
            ),
            final(self).connected() == old(self).connected(),
    {
        self.directory.insert(&peer, &addr);
        let mut r: Vec<Command> = Vec::new();
        if !self.connected.contains(&peer) && !self.dialed.contains(&peer, &addr) {
            self.dialed.insert(&peer, &addr);
            r.push(Command::Dial { peer, addr });
            assert(command_views(r@) =~= seq![CommandView::Dial { peer: peer@, addr: addr@ }]);
        } else {
            assert(command_views(r@) =~= Seq::<CommandView>::empty());
        }
        r
    }

    /// The self-record publication that is due at time `now_secs`, if any.
    /// Where the routing table is enabled and the record was never published,
    /// or was last published at least `REPUBLISH_INTERVAL_SECS` ago, the
    /// record maps `/pk/` and the local peer to `public_key`, is published by
    /// the local peer and lives `RECORD_TTL_SECS` seconds.
    pub fn publish_due(&mut self, now_secs: u64, public_key: &Vec<u8>) -> (r: Option<Command>)
        ensures
            final(self).wf() == old(self).wf(),
            final(self).local_peer() == old(self).local_peer(),
            final(self).enabled() == old(self).enabled(),
            final(self).directory() == old(self).directory(),
            final(self).connected() == old(self).connected(),
            final(self).dialed() == old(self).dialed(),
            ({
                let due = old(self).enabled().contains(SubProtocol::Kademlia) && match old(
                    self,
                ).last_published() {
                    None => true,
                    Some(t) => now_secs as int >= t as int + REPUBLISH_INTERVAL_SECS as int,
                };
                &&& due ==> r is Some && r->0@ == CommandView::PutRecord {
                    key: record_key(old(self).local_peer()),
                    value: public_key@,
                    publisher: old(self).local_peer(),
                    ttl_secs: RECORD_TTL_SECS,
                } && final(self).last_published() == Some(now_secs)
                &&& !due ==> r is None && final(self).last_published() == old(
                    self,
                ).last_published()
            }),
    {
        if !self.registry.is_enabled(SubProtocol::Kademlia) {
            return None;
        }
        let due = match self.last_published {
            None => true,
            Some(t) => now_secs >= t && now_secs - t >= REPUBLISH_INTERVAL_SECS,
        };
        if !due {
            return None;
        }
        let mut key: Vec<u8> = Vec::new();
        key.push(0x2fu8);
        key.push(0x70u8);
        key.push(0x6bu8);
        key.push(0x2fu8);
        let mut i: usize = 0;
        while i < self.local_peer.len()
            invariant
                i <= self.local_peer@.len(),
                key@ == seq![0x2fu8, 0x70u8, 0x6bu8, 0x2fu8] + self.local_peer@.take(i as int),
            decreases self.local_peer@.len() - i,
        {
            key.push(self.local_peer[i]);
            assert(self.local_peer@.take(i + 1) =~= self.local_peer@.take(i as int).push(
                self.local_peer@[i as int],
            ));
            assert(key@ =~= seq![0x2fu8, 0x70u8, 0x6bu8, 0x2fu8] + self.local_peer@.take(i + 1));
            i = i + 1;
        }
        assert(self.local_peer@.take(i as int) =~= self.local_peer@);
        self.last_published = Some(now_secs);
        Some(
            Command::PutRecord {
                key,
                value: bytes_clone(public_key),
                publisher: bytes_clone(&self.local_peer),
                ttl_secs: RECORD_TTL_SECS,
            },
        )
    }
}

} // verus!
