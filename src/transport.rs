//! The pre-shared-key upgrade of a raw duplex stream.
//!
//! Each side draws a fresh 32-byte nonce, sends it, flushes, and reads exactly
//! 32 bytes back as the remote nonce. Outgoing bytes are then encrypted with
//! (key, local nonce) and incoming bytes decrypted with (key, remote nonce).
//! The nonces are not authenticated: a peer without the key completes the
//! exchange but produces ciphertext that decrypts to garbage. The exchange
//! itself is performed by the caller; this module decides its outcome.
use crate::cipher::{cipher_nonce, CipherSession, CipherView, PreSharedKey, NONCE_SIZE};
use vstd::prelude::*;

verus! {

/// Relies on rand's `fill`, which fills the buffer from the thread-local
/// cryptographically secure generator: nothing is known of the bytes.
#[verifier::external_body]
fn random_nonce() -> (r: [u8; 32]) {
    let mut nonce = [0u8; 32];
    rand::fill(&mut nonce);
    nonce
}

/// Why a handshake or an upgraded stream failed.
#[derive(Clone, Copy, Debug, PartialEq, Eq, Structural)]
pub enum Error {
    /// The nonce exchange failed: sending, flushing or receiving the nonce
    /// failed, fewer than 32 bytes came back, or the peer sent back the local
    /// nonce.
    HandshakeError,
    /// An I/O failure on the stream after the handshake.
    IoError,
}

/// A step of the nonce exchange.
#[derive(Clone, Copy, Debug, PartialEq, Eq, Structural)]
pub enum HandshakeStep {
    SendNonce,
    Flush,
    ReceiveNonce,
}

impl Error {
    /// The error that an I/O failure at `step` of the nonce exchange is
    /// reported as: whichever step failed, the exchange failed.
    pub fn from_io_failure(step: HandshakeStep) -> (r: Error)
        ensures
            r == Error::HandshakeError,
    {
        match step {
            HandshakeStep::SendNonce => Error::HandshakeError,
            HandshakeStep::Flush => Error::HandshakeError,
            HandshakeStep::ReceiveNonce => Error::HandshakeError,
        }
    }
}

/// Private-network configuration: the key every upgrade uses.
pub struct Transport {
    psk: PreSharedKey,
}

impl Transport {
    pub closed spec fn psk(&self) -> PreSharedKey {
        self.psk
    }

    pub fn new(psk: PreSharedKey) -> (r: Self)
        ensures
            r.psk() == psk,
    {
        Transport { psk }
    }

    /// Begin a handshake with a freshly drawn local nonce.
    pub fn start(&self) -> (r: Handshake)
        ensures
            r.psk() == self.psk(),
    {
        Handshake { psk: self.psk, local_nonce: random_nonce() }
    }
}

/// A handshake in progress: the local nonce is drawn, the remote one not yet
/// received. Dropping it abandons the attempt; nothing of it carries over.
pub struct Handshake {
    psk: PreSharedKey,
    local_nonce: [u8; 32],
}

impl Handshake {
    pub closed spec fn psk(&self) -> PreSharedKey {
        self.psk
    }

    pub closed spec fn local(&self) -> Seq<u8> {
        self.local_nonce@
    }

    /// The 32 bytes to send to the peer.
    pub fn local_nonce(&self) -> (r: [u8; 32])
        ensures
            r@ == self.local(),
    {
        self.local_nonce
    }

    /// Complete the handshake with `remote`, the bytes read back from the peer.
    /// Succeeds exactly when 32 bytes came back whose cipher part differs from
    /// the local nonce's, so that the two directions never share a keystream;
    /// the session then encrypts with the local nonce and decrypts with the
    /// remote one, both from stream byte 0.
    pub fn finish(self, remote: &Vec<u8>) -> (r: Result<CipherSession, Error>)
        ensures
            r is Ok <==> (remote@.len() == NONCE_SIZE && cipher_nonce(remote@) != cipher_nonce(
                self.local(),
            )),
            r matches Err(e) ==> e == Error::HandshakeError,
            r matches Ok(s) ==> s.encrypt_view() == (CipherView {
                key: self.psk()@,
                nonce: self.local(),
                pos: 0,
            }) && s.decrypt_view() == (CipherView { key: self.psk()@, nonce: remote@, pos: 0 }),
    {
        if remote.len() != NONCE_SIZE {
            return Err(Error::HandshakeError);
        }
        let mut remote_nonce = [0u8; 32];
        let mut same_prefix = true;
        let mut i: usize = 0;
        while i < NONCE_SIZE
            invariant
                i <= NONCE_SIZE,
                remote@.len() == NONCE_SIZE,
                remote_nonce@.len() == NONCE_SIZE,
                forall|j: int| 0 <= j < i ==> remote_nonce@[j] == remote@[j],
                same_prefix == (forall|j: int|
                    0 <= j < i && j < 24 ==> remote@[j] == self.local_nonce@[j]),
            decreases NONCE_SIZE - i,
        {
            let b = remote[i];
            let ghost before = remote_nonce@;
            remote_nonce[i] = b;
            assert(remote_nonce@ == before.update(i as int, b));
            if i < 24 && b != self.local_nonce[i] {
                same_prefix = false;
            }
            i = i + 1;
        }
        assert(remote_nonce@ =~= remote@);
        proof {
            if same_prefix {
                assert(cipher_nonce(remote@) =~= cipher_nonce(self.local_nonce@));
            } else {
                let j = choose|j: int| 0 <= j < 24 && remote@[j] != self.local_nonce@[j];
                assert(cipher_nonce(remote@)[j] != cipher_nonce(self.local_nonce@)[j]);
            }
        }
        if same_prefix {
            return Err(Error::HandshakeError);
        }
        Ok(CipherSession::new(&self.psk, self.local_nonce, remote_nonce))
    }
}

} // verus!
