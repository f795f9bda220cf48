//! The per-connection side of the application protocol.
use crate::vpn::upgrade::{string_views, vpn_protocol, vpn_protocol_id, Upgrade};
use vstd::prelude::*;

verus! {

/// What a connection handler asks of the connection when polled.
pub enum Action {
    /// Report that the remote supports these protocol identifiers.
    ReportRemoteProtocols(Vec<String>),
    /// Nothing to do until woken.
    Pending,
}

/// The state of one connection for the application protocol.
pub struct Handler {
    is_upgraded: bool,
}

impl Handler {
    /// Whether the protocol upgrade has been started.
    pub closed spec fn upgraded(&self) -> bool {
        self.is_upgraded
    }

    /// The offer made on inbound streams.
    pub fn listen_protocol(&self) -> (r: Upgrade)
        ensures
            r.protocols() == seq![vpn_protocol()],
    {
        Upgrade::new()
    }

    /// On the first poll, start the upgrade by reporting the application
    /// protocol as supported; afterwards wait until woken.
    pub fn poll(&mut self) -> (r: Action)
        ensures
            final(self).upgraded(),
            !old(self).upgraded() ==> (r matches Action::ReportRemoteProtocols(p) && string_views(p@)
                == seq![vpn_protocol()]),
            old(self).upgraded() ==> r is Pending,
    {
        if !self.is_upgraded {
            self.is_upgraded = true;
            let mut protocols: Vec<String> = Vec::new();
            protocols.push(vpn_protocol_id());
            assert(string_views(protocols@) =~= seq![vpn_protocol()]);
            return Action::ReportRemoteProtocols(protocols);
        }
        Action::Pending
    }
}

impl Default for Handler {
    /// A handler whose upgrade has not started.
    fn default() -> (r: Self)
        ensures
            !r.upgraded(),
    {
        Handler { is_upgraded: false }
    }
}

} // verus!
