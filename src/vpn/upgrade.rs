//! Negotiation of the application protocol on a freshly opened stream.
//!
//! Each side offers the identifiers it supports; the responder accepts a
//! proposed identifier only if it supports it, and rejects the stream
//! otherwise. Selection reads nothing but the offer and changes nothing.
use vstd::prelude::*;

verus! {

/// The identifier of the application protocol.
pub open spec fn vpn_protocol() -> Seq<char> {
    "/libp2p/vpn/0.0.1"@
}

/// The identifier of the application protocol.
pub fn vpn_protocol_id() -> (r: String)
    ensures
        r@ == vpn_protocol(),
{
    String::from_str("/libp2p/vpn/0.0.1")
}

/// Why an upgrade failed.
#[derive(Clone, Copy, Debug, PartialEq, Eq, Structural)]
pub enum Error {
    /// The negotiated identifier is not one offered here.
    HandshakeError,
}

/// The proposed identifier is not one this side supports; the stream is
/// closed and the connection stays up.
#[derive(Clone, Copy, Debug, PartialEq, Eq, Structural)]
pub struct NegotiationRejected {}

pub open spec fn string_views(v: Seq<String>) -> Seq<Seq<char>> {
    v.map_values(|s: String| s@)
}

/// The identifiers offered for a stream.
pub struct Upgrade {
    supported_protocols: Vec<String>,
}

impl Upgrade {
    pub closed spec fn protocols(&self) -> Seq<Seq<char>> {
        string_views(self.supported_protocols@)
    }

    /// An offer of the application protocol alone.
    pub fn new() -> (r: Self)
        ensures
            r.protocols() == seq![vpn_protocol()],
    {
        let mut supported_protocols: Vec<String> = Vec::new();
        supported_protocols.push(vpn_protocol_id());
        let r = Upgrade { supported_protocols };
        assert(r.protocols() =~= seq![vpn_protocol()]);
        r
    }

    /// The identifiers offered, in order.
    pub fn protocol_info(&self) -> (r: Vec<String>)
        ensures
            string_views(r@) == self.protocols(),
    {
        let mut r: Vec<String> = Vec::new();
        let mut i: usize = 0;
        while i < self.supported_protocols.len()
            invariant
                i <= self.supported_protocols@.len(),
                string_views(r@) == self.protocols().take(i as int),
            decreases self.supported_protocols@.len() - i,
        {
            let ghost before = string_views(r@);
            r.push(self.supported_protocols[i].clone());
            assert(string_views(r@) =~= before.push(self.protocols()[i as int]));
            assert(self.protocols().take(i + 1) =~= self.protocols().take(i as int).push(
                self.protocols()[i as int],
            ));
            i = i + 1;
        }
        assert(self.protocols().take(i as int) =~= self.protocols());
        r
    }

    /// Answer a peer's proposal: the identifier if it is offered here, else a
    /// rejection.
    pub fn select(&self, proposed: &String) -> (r: Result<String, NegotiationRejected>)
        ensures
            r is Ok <==> self.protocols().contains(proposed@),
            r matches Ok(s) ==> s@ == proposed@,
    {
        let mut i: usize = 0;
        while i < self.supported_protocols.len()
            invariant
                i <= self.supported_protocols@.len(),
                forall|j: int| 0 <= j < i ==> self.protocols()[j] != proposed@,
            decreases self.supported_protocols@.len() - i,
        {
            if self.supported_protocols[i] == *proposed {
                assert(self.protocols()[i as int] == proposed@);
                return Ok(proposed.clone());
            }
            i = i + 1;
        }
        Err(NegotiationRejected {})
    }

    /// Finish an inbound upgrade on the stream negotiated for `info`: the
    /// stream is accepted only for an identifier offered here.
    pub fn upgrade_inbound(self, info: String) -> (r: Result<String, Error>)
        ensures
            r is Ok <==> self.protocols().contains(info@),
            r matches Ok(s) ==> s@ == info@,
    {
        match self.select(&info) {
            Ok(_) => Ok(info),
            Err(_) => Err(Error::HandshakeError),
        }
    }

    /// Finish an outbound upgrade on the stream negotiated for `info`: the
    /// stream is accepted only for an identifier offered here.
    pub fn upgrade_outbound(self, info: String) -> (r: Result<String, Error>)
        ensures
            r is Ok <==> self.protocols().contains(info@),
            r matches Ok(s) ==> s@ == info@,
    {
        match self.select(&info) {
            Ok(_) => Ok(info),
            Err(_) => Err(Error::HandshakeError),
        }
    }
}

} // verus!
