//! Stream encryption keyed by a pre-shared key.
//!
//! A [`CipherState`] is one direction of an XSalsa20 stream: the key, the
//! nonce it was seeded with and how many bytes it has processed so far. A
//! [`CipherSession`] pairs the state that encrypts outgoing bytes (seeded with
//! the local nonce) with the state that decrypts incoming bytes (seeded with
//! the remote nonce).
use salsa20::cipher::{KeyIvInit, StreamCipher, StreamCipherSeek};
use salsa20::{Salsa20, XSalsa20};
use sha3::digest::ExtendableOutput;
use sha3::Shake128;
use vstd::prelude::*;

verus! {

/// Size in bytes of a pre-shared key.
pub const KEY_SIZE: usize = 32;

/// Size in bytes of the nonce that each side sends during the handshake.
pub const NONCE_SIZE: usize = 32;

/// Number of leading nonce bytes that seed XSalsa20, whose nonce is 24 bytes wide.
pub const XNONCE_SIZE: usize = 24;

/// Size in bytes of a key fingerprint.
pub const FINGERPRINT_SIZE: usize = 16;

/// Byte `pos` of the XSalsa20 keystream for `key` and the 24-byte `nonce`.
pub uninterp spec fn xsalsa20_keystream(key: Seq<u8>, nonce: Seq<u8>, pos: nat) -> u8;

/// Byte `pos` of the Salsa20 keystream for `key` and the 8-byte `nonce`.
pub uninterp spec fn salsa20_keystream(key: Seq<u8>, nonce: Seq<u8>, pos: nat) -> u8;

/// The first `len` bytes of the SHAKE128 output for `data`.
pub uninterp spec fn shake128_xof(data: Seq<u8>, len: nat) -> Seq<u8>;

/// The part of a handshake nonce that seeds XSalsa20.
pub open spec fn cipher_nonce(nonce: Seq<u8>) -> Seq<u8> {
    nonce.subrange(0, XNONCE_SIZE as int)
}

/// `data` XORed with the XSalsa20 keystream for (`key`, `cipher_nonce(nonce)`),
/// starting at stream byte `pos`.
pub open spec fn stream_xor(key: Seq<u8>, nonce: Seq<u8>, pos: nat, data: Seq<u8>) -> Seq<u8> {
    Seq::new(data.len(), |i: int| data[i] ^ xsalsa20_keystream(key, cipher_nonce(nonce), pos + i as nat))
}

/// The first `n` bytes of the Salsa20 keystream for (`key`, `nonce`).
pub open spec fn salsa20_prefix(key: Seq<u8>, nonce: Seq<u8>, n: nat) -> Seq<u8> {
    Seq::new(n, |i: int| salsa20_keystream(key, nonce, i as nat))
}

/// The eight ASCII bytes `finprint`, the Salsa20 nonce used for fingerprints.
pub open spec fn fingerprint_nonce() -> Seq<u8> {
    seq![0x66u8, 0x69u8, 0x6eu8, 0x70u8, 0x72u8, 0x69u8, 0x6eu8, 0x74u8]
}

/// The fingerprint of `key`: SHAKE128 over the first 64 Salsa20 keystream bytes
/// of (`key`, `finprint`), cut to 16 bytes.
pub open spec fn fingerprint_of(key: Seq<u8>) -> Seq<u8> {
    shake128_xof(salsa20_prefix(key, fingerprint_nonce(), 64), FINGERPRINT_SIZE as nat)
}

/// Relies on salsa20's `XSalsa20`: a cipher made by `KeyIvInit::new` from `key`
/// and `nonce`, moved by `StreamCipherSeek::seek` to byte `pos`, XORs
/// `StreamCipher::apply_keystream`'s buffer with the keystream from that byte on.
/// The keystream depends on key, nonce and position alone; its 64-bit block
/// counter cannot run out below byte `u64::MAX`.
#[verifier::external_body]
fn xsalsa20_apply(key: &[u8; 32], nonce: &Vec<u8>, pos: u64, buf: &mut Vec<u8>)
    requires
        nonce@.len() == XNONCE_SIZE,
        pos + old(buf)@.len() <= u64::MAX,
    ensures
        final(buf)@ == Seq::new(
            old(buf)@.len(),
            |i: int| old(buf)@[i] ^ xsalsa20_keystream(key@, nonce@, (pos + i) as nat),
        ),
{
    let mut cipher = XSalsa20::new(key.into(), salsa20::XNonce::from_slice(nonce));
    cipher.seek(pos);
    cipher.apply_keystream(buf);
}

/// Relies on salsa20's `Salsa20`: a cipher made by `KeyIvInit::new` from `key`
/// and `nonce` XORs `StreamCipher::apply_keystream`'s buffer with its keystream
/// from byte 0 on.
#[verifier::external_body]
fn salsa20_apply(key: &[u8; 32], nonce: &[u8; 8], buf: &mut Vec<u8>)
    requires
        old(buf)@.len() <= u64::MAX,
    ensures
        final(buf)@ == Seq::new(
            old(buf)@.len(),
            |i: int| old(buf)@[i] ^ salsa20_keystream(key@, nonce@, i as nat),
        ),
{
    let mut cipher = Salsa20::new(key.into(), nonce.into());
    cipher.apply_keystream(buf);
}

/// Relies on sha3's `Shake128` through `ExtendableOutput::digest_xof`: the first
/// 16 bytes of the extendable output for `data`.
#[verifier::external_body]
fn shake128_16(data: &Vec<u8>) -> (r: [u8; 16])
    ensures
        r@ == shake128_xof(data@, 16),
{
    let mut out = [0u8; 16];
    Shake128::digest_xof(data, &mut out);
    out
}

/// A 32-byte secret shared by every member of a private overlay.
#[derive(Clone, Copy, PartialEq, Eq)]
pub struct PreSharedKey([u8; 32]);

impl View for PreSharedKey {
    type V = Seq<u8>;

    closed spec fn view(&self) -> Seq<u8> {
        self.0@
    }
}

/// A 16-byte digest of a pre-shared key, for checking out of band that two
/// peers hold the same key without showing the key.
#[derive(Clone, Copy, PartialEq, Eq)]
pub struct Fingerprint([u8; 16]);

impl View for Fingerprint {
    type V = Seq<u8>;

    closed spec fn view(&self) -> Seq<u8> {
        self.0@
    }
}

impl Fingerprint {
    /// The fingerprint bytes.
    pub fn bytes(&self) -> (r: [u8; 16])
        ensures
            r@ == self@,
    {
        self.0
    }
}

proof fn lemma_xor_zero(x: u8)
    ensures
        0u8 ^ x == x,
{
    assert(0u8 ^ x == x) by (bit_vector);
}

impl PreSharedKey {
    /// Create a new pre-shared key from raw bytes.
    pub fn new(data: [u8; 32]) -> (r: Self)
        ensures
            r@ == data@,
    {
        PreSharedKey(data)
    }

    /// The raw key bytes.
    pub fn bytes(&self) -> (r: [u8; 32])
        ensures
            r@ == self@,
    {
        self.0
    }

    /// The key's fingerprint: the first 64 bytes of the Salsa20 keystream for
    /// this key and the nonce `finprint`, hashed with SHAKE128 to 16 bytes.
    pub fn fingerprint(&self) -> (r: Fingerprint)
        ensures
            r@ == fingerprint_of(self@),
    {
        let nonce: [u8; 8] = [0x66u8, 0x69u8, 0x6eu8, 0x70u8, 0x72u8, 0x69u8, 0x6eu8, 0x74u8];
        assert(nonce@ =~= fingerprint_nonce());
        let mut enc: Vec<u8> = Vec::new();
        let mut i: usize = 0;
        while i < 64
            invariant
                i <= 64,
                enc@.len() == i,
                forall|j: int| 0 <= j < i ==> enc@[j] == 0u8,
            decreases 64 - i,
        {
            enc.push(0u8);
            i = i + 1;
        }
        salsa20_apply(&self.0, &nonce, &mut enc);
        assert(enc@ =~= salsa20_prefix(self@, fingerprint_nonce(), 64)) by {
            assert forall|j: int| 0 <= j < 64 implies enc@[j] == salsa20_keystream(
                self@,
                fingerprint_nonce(),
                j as nat,
            ) by {
                lemma_xor_zero(salsa20_keystream(self@, fingerprint_nonce(), j as nat));
            }
        }
        Fingerprint(shake128_16(&enc))
    }
}

/// The abstract state of one direction of a cipher stream.
pub ghost struct CipherView {
    pub key: Seq<u8>,
    pub nonce: Seq<u8>,
    pub pos: nat,
}

/// One direction of an XSalsa20 stream: the key, the 32-byte handshake nonce it
/// was seeded with, and the number of bytes processed so far.
pub struct CipherState {
    key: [u8; 32],
    nonce: [u8; 32],
    pos: u64,
}

impl View for CipherState {
    type V = CipherView;

    closed spec fn view(&self) -> CipherView {
        CipherView { key: self.key@, nonce: self.nonce@, pos: self.pos as nat }
    }
}

impl CipherState {
    /// A fresh stream for `psk` seeded with `nonce`, at stream byte 0.
    pub fn new(psk: &PreSharedKey, nonce: [u8; 32]) -> (r: Self)
        ensures
            r@ == (CipherView { key: psk@, nonce: nonce@, pos: 0 }),
    {
        CipherState { key: psk.bytes(), nonce, pos: 0 }
    }

    /// Number of bytes this stream has processed.
    pub fn position(&self) -> (r: u64)
        ensures
            r == self@.pos,
    {
        self.pos
    }

    /// Encrypt or decrypt `buf` in place and advance the stream by its length.
    pub fn apply_keystream(&mut self, buf: &mut Vec<u8>)
        requires
            old(self)@.pos + old(buf)@.len() <= u64::MAX,
        ensures
            final(buf)@ == stream_xor(old(self)@.key, old(self)@.nonce, old(self)@.pos, old(buf)@),
            final(self)@ == (CipherView { pos: old(self)@.pos + old(buf)@.len(), ..old(self)@ }),
    {
        let mut xnonce: Vec<u8> = Vec::new();
        let mut i: usize = 0;
        while i < XNONCE_SIZE
            invariant
                i <= XNONCE_SIZE,
                xnonce@ =~= self.nonce@.subrange(0, i as int),
            decreases XNONCE_SIZE - i,
        {
            xnonce.push(self.nonce[i]);
            i = i + 1;
        }
        let ghost before = buf@;
        let len = buf.len();
        xsalsa20_apply(&self.key, &xnonce, self.pos, buf);
        assert(buf@ =~= stream_xor(self.key@, self.nonce@, self.pos as nat, before));
        self.pos = self.pos + len as u64;
    }
}

/// The two directions of an encrypted connection. The encrypting stream is
/// seeded with the local nonce, the decrypting one with the remote nonce.
pub struct CipherSession {
    encrypt: CipherState,
    decrypt: CipherState,
}

impl CipherSession {
    pub closed spec fn encrypt_view(&self) -> CipherView {
        self.encrypt@
    }

    pub closed spec fn decrypt_view(&self) -> CipherView {
        self.decrypt@
    }

    /// A session for `psk` whose outgoing stream is seeded with `local_nonce`
    /// and whose incoming stream is seeded with `remote_nonce`.
    pub fn new(psk: &PreSharedKey, local_nonce: [u8; 32], remote_nonce: [u8; 32]) -> (r: Self)
        ensures
            r.encrypt_view() == (CipherView { key: psk@, nonce: local_nonce@, pos: 0 }),
            r.decrypt_view() == (CipherView { key: psk@, nonce: remote_nonce@, pos: 0 }),
    {
        CipherSession {
            encrypt: CipherState::new(psk, local_nonce),
            decrypt: CipherState::new(psk, remote_nonce),
        }
    }

    /// Encrypt `buf` in place with the outgoing stream.
    pub fn encrypt(&mut self, buf: &mut Vec<u8>)
        requires
            old(self).encrypt_view().pos + old(buf)@.len() <= u64::MAX,
        ensures
            final(buf)@ == stream_xor(
                old(self).encrypt_view().key,
                old(self).encrypt_view().nonce,
                old(self).encrypt_view().pos,
                old(buf)@,
            ),
            final(self).encrypt_view() == (CipherView {
                pos: old(self).encrypt_view().pos + old(buf)@.len(),
                ..old(self).encrypt_view()
            }),
            final(self).decrypt_view() == old(self).decrypt_view(),
    {
        self.encrypt.apply_keystream(buf);
    }

    /// Decrypt `buf` in place with the incoming stream.
    pub fn decrypt(&mut self, buf: &mut Vec<u8>)
        requires
            old(self).decrypt_view().pos + old(buf)@.len() <= u64::MAX,
        ensures
            final(buf)@ == stream_xor(
                old(self).decrypt_view().key,
                old(self).decrypt_view().nonce,
                old(self).decrypt_view().pos,
                old(buf)@,
            ),
            final(self).decrypt_view() == (CipherView {
                pos: old(self).decrypt_view().pos + old(buf)@.len(),
                ..old(self).decrypt_view()
            }),
            final(self).encrypt_view() == old(self).encrypt_view(),
    {
        self.decrypt.apply_keystream(buf);
    }

    /// Hand the outgoing stream to a writer and keep the incoming one.
    pub fn split(self) -> (r: (CipherState, CipherState))
        ensures
            r.0@ == self.encrypt_view(),
            r.1@ == self.decrypt_view(),
    {
        (self.encrypt, self.decrypt)
    }
}

/// Decrypting with the key, nonce and stream position that encrypted a message
/// gives the message back.
pub proof fn lemma_round_trip(key: Seq<u8>, nonce: Seq<u8>, pos: nat, msg: Seq<u8>)
    ensures
        stream_xor(key, nonce, pos, stream_xor(key, nonce, pos, msg)) == msg,
{
    let once = stream_xor(key, nonce, pos, msg);
    let twice = stream_xor(key, nonce, pos, once);
    assert forall|i: int| 0 <= i < msg.len() implies twice[i] == msg[i] by {
        let k = xsalsa20_keystream(key, cipher_nonce(nonce), pos + i as nat);
        let m = msg[i];
        assert((m ^ k) ^ k == m) by (bit_vector);
    }
    assert(twice =~= msg);
}

/// Processing `a` then `b` from stream byte `pos` is processing `a + b` at once:
/// a message may be encrypted and decrypted in any pieces.
pub proof fn lemma_stream_split(key: Seq<u8>, nonce: Seq<u8>, pos: nat, a: Seq<u8>, b: Seq<u8>)
    ensures
        stream_xor(key, nonce, pos, a + b) == stream_xor(key, nonce, pos, a) + stream_xor(
            key,
            nonce,
            pos + a.len(),
            b,
        ),
{
    assert(stream_xor(key, nonce, pos, a + b) =~= stream_xor(key, nonce, pos, a) + stream_xor(
        key,
        nonce,
        pos + a.len(),
        b,
    ));
}

/// A message encrypted from stream byte `pos` and decrypted in two pieces, cut
/// at any `i`, each piece at its own stream position, comes back whole.
pub proof fn lemma_round_trip_split(key: Seq<u8>, nonce: Seq<u8>, pos: nat, msg: Seq<u8>, i: int)
    requires
        0 <= i <= msg.len(),
    ensures
        ({
            let c = stream_xor(key, nonce, pos, msg);
            stream_xor(key, nonce, pos, c.subrange(0, i)) + stream_xor(
                key,
                nonce,
                pos + i as nat,
                c.subrange(i, c.len() as int),
            ) == msg
        }),
{
    let c = stream_xor(key, nonce, pos, msg);
    assert(c =~= c.subrange(0, i) + c.subrange(i, c.len() as int));
    lemma_stream_split(key, nonce, pos, c.subrange(0, i), c.subrange(i, c.len() as int));
    lemma_round_trip(key, nonce, pos, msg);
}

/// A message encrypted under nonce `a` and decrypted under nonce `b` comes back
/// at byte `i` exactly where the two keystreams agree at that byte: wherever
/// they differ, the byte is garbled.
pub proof fn lemma_cross_nonce_recovery(
    key: Seq<u8>,
    a: Seq<u8>,
    b: Seq<u8>,
    pos: nat,
    msg: Seq<u8>,
    i: int,
)
    requires
        0 <= i < msg.len(),
    ensures
        (stream_xor(key, b, pos, stream_xor(key, a, pos, msg))[i] == msg[i]) <==> (
        xsalsa20_keystream(key, cipher_nonce(a), pos + i as nat) == xsalsa20_keystream(
            key,
            cipher_nonce(b),
            pos + i as nat,
        )),
{
    let ka = xsalsa20_keystream(key, cipher_nonce(a), pos + i as nat);
    let kb = xsalsa20_keystream(key, cipher_nonce(b), pos + i as nat);
    let m = msg[i];
    assert(((m ^ ka) ^ kb == m) <==> (ka == kb)) by (bit_vector);
}

/// Equal keys have equal fingerprints.
pub proof fn lemma_fingerprint_deterministic(k1: PreSharedKey, k2: PreSharedKey)
    requires
        k1@ == k2@,
    ensures
        fingerprint_of(k1@) == fingerprint_of(k2@),
{
}

} // verus!
