//! The node-wide side of the application protocol: which peers it has run with.
use crate::admission::{
    established_verdict, pending_verdict, release, tracks, verdict_result, AdmissionController,
    AdmissionDenied, ConnView, Direction,
};
use crate::config::ConnectionLimits;
use crate::directory::ByteSet;
use crate::vpn::config::Config;
use crate::vpn::handler::Handler;
use vstd::prelude::*;

verus! {

/// Events the application protocol reports to the node.
#[derive(Debug)]
pub enum Event {
    TestEvent,
    VpnEstablishedEvent,
}

pub struct TestEvent {}

/// The application protocol was established with `peer_id`.
pub struct VpnEstablishedEvent {
    pub peer_id: Vec<u8>,
}

/// The application protocol's state across connections: the peers it has
/// run with, and the admission of connections against the configured
/// ceilings.
pub struct Behaviour {
    config: Config,
    peers: ByteSet,
    admission: AdmissionController,
}

impl Behaviour {
    /// The peers seen on established connections.
    pub closed spec fn peers(&self) -> Set<Seq<u8>> {
        self.peers.set()
    }

    /// The connections admitted and not yet closed.
    pub closed spec fn connections(&self) -> Seq<ConnView> {
        self.admission.entries()
    }

    pub closed spec fn limits(&self) -> ConnectionLimits {
        self.admission.limits()
    }

    pub closed spec fn budget(&self) -> usize {
        self.admission.budget()
    }

    /// The configured interface name.
    pub closed spec fn interface(&self) -> Seq<char> {
        self.config.interface_name@
    }

    pub closed spec fn wf(&self) -> bool {
        self.peers.wf() && self.admission.wf()
    }

    /// No peer and no connection yet; connections are admitted against
    /// `limits` and a memory budget of `memory_budget` bytes.
    pub fn new(config: Config, limits: ConnectionLimits, memory_budget: usize) -> (r: Self)
        ensures
            r.wf(),
            r.interface() == config.interface_name@,
            r.peers() == Set::<Seq<u8>>::empty(),
            r.connections() == Seq::<ConnView>::empty(),
            r.limits() == limits,
            r.budget() == memory_budget,
    {
        Behaviour {
            config,
            peers: ByteSet::new(),
            admission: AdmissionController::new(limits, memory_budget),
        }
    }

    /// The name of the network interface traffic is bridged to.
    pub fn interface_name(&self) -> (r: &String)
        ensures
            r@ == self.interface(),
    {
        &self.config.interface_name
    }

    /// Number of connections admitted and not yet closed.
    pub fn connection_count(&self) -> (r: usize)
        ensures
            r == self.connections().len(),
    {
        self.admission.len()
    }

    /// Remember `peer_id`; returns whether it was new.
    pub fn add_peer(&mut self, peer_id: &Vec<u8>) -> (r: bool)
        requires
            old(self).wf(),
        ensures
            final(self).wf(),
            final(self).peers() == old(self).peers().insert(peer_id@),
            r == !old(self).peers().contains(peer_id@),
            final(self).connections() == old(self).connections(),
            final(self).limits() == old(self).limits(),
            final(self).budget() == old(self).budget(),
    {
        self.peers.insert(peer_id)
    }

    /// A connection `id` is coming in while `memory` bytes are in use: admit
    /// it as pending, or name the ceiling it reaches.
    pub fn handle_pending_inbound_connection(&mut self, id: u64, memory: usize) -> (r: Result<
        (),
        AdmissionDenied,
    >)
        requires
            old(self).wf(),
            old(self).connections().len() < u64::MAX,
        ensures
            final(self).wf(),
            final(self).peers() == old(self).peers(),
            final(self).limits() == old(self).limits(),
            final(self).budget() == old(self).budget(),
            r == verdict_result(
                pending_verdict(
                    release(old(self).connections(), id),
                    old(self).limits(),
                    old(self).budget(),
                    Direction::Inbound,
                    memory,
                ),
            ),
            final(self).connections() == if r is Ok {
                release(old(self).connections(), id).push(
                    ConnView { id, direction: Direction::Inbound, peer: None },
                )
            } else {
                release(old(self).connections(), id)
            },
    {
        self.admission.admit_pending(id, Direction::Inbound, memory)
    }

    /// This node is dialing out on connection `id` while `memory` bytes are in
    /// use: admit it as pending and add no address to those being dialed, or
    /// name the ceiling it reaches.
    pub fn handle_pending_outbound_connection(&mut self, id: u64, memory: usize) -> (r: Result<
        Vec<Vec<u8>>,
        AdmissionDenied,
    >)
        requires
            old(self).wf(),
            old(self).connections().len() < u64::MAX,
        ensures
            final(self).wf(),
            final(self).peers() == old(self).peers(),
            final(self).limits() == old(self).limits(),
            final(self).budget() == old(self).budget(),
            r is Ok <==> pending_verdict(
                release(old(self).connections(), id),
                old(self).limits(),
                old(self).budget(),
                Direction::Outbound,
                memory,
            ) is None,
            r matches Ok(v) ==> v@.len() == 0,
            r matches Err(d) ==> Err::<(), AdmissionDenied>(d) == verdict_result(
                pending_verdict(
                    release(old(self).connections(), id),
                    old(self).limits(),
                    old(self).budget(),
                    Direction::Outbound,
                    memory,
                ),
            ),
            final(self).connections() == if r is Ok {
                release(old(self).connections(), id).push(
                    ConnView { id, direction: Direction::Outbound, peer: None },
                )
            } else {
                release(old(self).connections(), id)
            },
    {
        match self.admission.admit_pending(id, Direction::Outbound, memory) {
            Ok(()) => Ok(Vec::new()),
            Err(d) => Err(d),
        }
    }

    /// Connection `id` in direction `dir` to `peer` was established while
    /// `memory` bytes are in use. Where no ceiling is reached, the peer is
    /// remembered, the connection moves from pending to established in one
    /// step, and it gets a fresh handler; otherwise the connection is released
    /// and the first ceiling reached, in the order total, direction, peer,
    /// memory, is named.
    fn establish(&mut self, id: u64, dir: Direction, peer: &Vec<u8>, memory: usize) -> (r: Result<
        Handler,
        AdmissionDenied,
    >)
        requires
            old(self).wf(),
            old(self).connections().len() < u64::MAX,
        ensures
            final(self).wf(),
            final(self).limits() == old(self).limits(),
            final(self).budget() == old(self).budget(),
            r is Ok <==> established_verdict(
                release(old(self).connections(), id),
                old(self).limits(),
                old(self).budget(),
                dir,
                peer@,
                memory,
            ) is None,
            r matches Err(d) ==> Err::<(), AdmissionDenied>(d) == verdict_result(
                established_verdict(
                    release(old(self).connections(), id),
                    old(self).limits(),
                    old(self).budget(),
                    dir,
                    peer@,
                    memory,
                ),
            ),
            r matches Ok(h) ==> !h.upgraded(),
            final(self).peers() == if r is Ok {
                old(self).peers().insert(peer@)
            } else {
                old(self).peers()
            },
            final(self).connections() == if r is Ok {
                release(old(self).connections(), id).push(
                    ConnView { id, direction: dir, peer: Some(peer@) },
                )
            } else {
                release(old(self).connections(), id)
            },
    {
        match self.admission.admit_established(id, dir, peer, memory) {
            Ok(()) => {
                self.add_peer(peer);
                Ok(Handler::default())
            },
            Err(d) => Err(d),
        }
    }

    /// An inbound connection `id` to `peer` was established; see `establish`
    /// for the admission decision.
    pub fn handle_established_inbound_connection(
        &mut self,
        id: u64,
        peer: &Vec<u8>,
        memory: usize,
    ) -> (r: Result<Handler, AdmissionDenied>)
        requires
            old(self).wf(),
            old(self).connections().len() < u64::MAX,
        ensures
            final(self).wf(),
            final(self).limits() == old(self).limits(),
            final(self).budget() == old(self).budget(),
            r is Ok <==> established_verdict(
                release(old(self).connections(), id),
                old(self).limits(),
                old(self).budget(),
                Direction::Inbound,
                peer@,
                memory,
            ) is None,
            r matches Err(d) ==> Err::<(), AdmissionDenied>(d) == verdict_result(
                established_verdict(
                    release(old(self).connections(), id),
                    old(self).limits(),
                    old(self).budget(),
                    Direction::Inbound,
                    peer@,
                    memory,
                ),
            ),
            r matches Ok(h) ==> !h.upgraded(),
            final(self).peers() == if r is Ok {
                old(self).peers().insert(peer@)
            } else {
                old(self).peers()
            },
            final(self).connections() == if r is Ok {
                release(old(self).connections(), id).push(
                    ConnView { id, direction: Direction::Inbound, peer: Some(peer@) },
                )
            } else {
                release(old(self).connections(), id)
            },
    {
        self.establish(id, Direction::Inbound, peer, memory)
    }

    /// An outbound connection `id` to `peer` was established; see `establish`
    /// for the admission decision.
    pub fn handle_established_outbound_connection(
        &mut self,
        id: u64,
        peer: &Vec<u8>,
        memory: usize,
    ) -> (r: Result<Handler, AdmissionDenied>)
        requires
            old(self).wf(),
            old(self).connections().len() < u64::MAX,
        ensures
            final(self).wf(),
            final(self).limits() == old(self).limits(),
            final(self).budget() == old(self).budget(),
            r is Ok <==> established_verdict(
                release(old(self).connections(), id),
                old(self).limits(),
                old(self).budget(),
                Direction::Outbound,
                peer@,
                memory,
            ) is None,
            r matches Err(d) ==> Err::<(), AdmissionDenied>(d) == verdict_result(
                established_verdict(
                    release(old(self).connections(), id),
                    old(self).limits(),
                    old(self).budget(),
                    Direction::Outbound,
                    peer@,
                    memory,
                ),
            ),
            r matches Ok(h) ==> !h.upgraded(),
            final(self).peers() == if r is Ok {
                old(self).peers().insert(peer@)
            } else {
                old(self).peers()
            },
            final(self).connections() == if r is Ok {
                release(old(self).connections(), id).push(
                    ConnView { id, direction: Direction::Outbound, peer: Some(peer@) },
                )
            } else {
                release(old(self).connections(), id)
            },
    {
        self.establish(id, Direction::Outbound, peer, memory)
    }

    /// Connection `id` closed, was rejected or failed: release its slot.
    /// Returns whether it was admitted; a second report releases nothing.
    pub fn on_connection_closed(&mut self, id: u64) -> (r: bool)
        requires
            old(self).wf(),
        ensures
            final(self).wf(),
            r == tracks(old(self).connections(), id),
            final(self).connections() == release(old(self).connections(), id),
            final(self).peers() == old(self).peers(),
            final(self).limits() == old(self).limits(),
            final(self).budget() == old(self).budget(),
    {
        self.admission.close(id)
    }
}

} // verus!
