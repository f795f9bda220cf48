//! The write half of an encrypted stream: bytes written are encrypted at once
//! into a bounded buffer, which the underlying stream drains.
use crate::cipher::{stream_xor, CipherState, CipherView};
use vstd::prelude::*;

verus! {

/// Capacity in bytes of the buffer of an encrypted stream's write half.
pub const WRITE_BUFFER_SIZE: usize = 1024;

/// Encrypts written bytes into a buffer of at most `capacity` bytes.
pub struct CryptWriter {
    buf: Vec<u8>,
    capacity: usize,
    cipher: CipherState,
}

impl CryptWriter {
    /// Encrypted bytes not yet taken by the underlying stream.
    pub closed spec fn pending(&self) -> Seq<u8> {
        self.buf@
    }

    pub closed spec fn capacity(&self) -> nat {
        self.capacity as nat
    }

    pub closed spec fn cipher(&self) -> CipherView {
        self.cipher@
    }

    pub open spec fn wf(&self) -> bool {
        0 < self.capacity() && self.pending().len() <= self.capacity()
    }

    /// An empty writer with room for `capacity` bytes, encrypting with `cipher`.
    pub fn with_capacity(capacity: usize, cipher: CipherState) -> (r: Self)
        requires
            capacity > 0,
        ensures
            r.wf(),
            r.pending() == Seq::<u8>::empty(),
            r.capacity() == capacity,
            r.cipher() == cipher@,
    {
        CryptWriter { buf: Vec::new(), capacity, cipher }
    }

    /// Number of bytes the cipher has encrypted so far.
    pub fn position(&self) -> (r: u64)
        ensures
            r == self.cipher().pos,
    {
        self.cipher.position()
    }

    /// Whether the buffer is full and has to be drained before the next write.
    pub fn is_full(&self) -> (r: bool)
        requires
            self.wf(),
        ensures
            r == (self.pending().len() == self.capacity()),
    {
        self.buf.len() == self.capacity
    }

    /// Encrypt as much of `data` as the buffer has room for and append it;
    /// returns how many bytes of `data` were taken.
    pub fn write(&mut self, data: &[u8]) -> (n: usize)
        requires
            old(self).wf(),
            old(self).cipher().pos + data@.len() <= u64::MAX,
        ensures
            final(self).wf(),
            n == if data@.len() <= old(self).capacity() - old(self).pending().len() {
                data@.len() as int
            } else {
                old(self).capacity() - old(self).pending().len()
            },
            final(self).pending() == old(self).pending() + stream_xor(
                old(self).cipher().key,
                old(self).cipher().nonce,
                old(self).cipher().pos,
                data@.subrange(0, n as int),
            ),
            final(self).cipher() == (CipherView { pos: old(self).cipher().pos + n as nat, ..old(self).cipher() }),
            final(self).capacity() == old(self).capacity(),
    {
        let room = self.capacity - self.buf.len();
        let n = if data.len() <= room {
            data.len()
        } else {
            room
        };
        let mut chunk: Vec<u8> = Vec::new();
        let mut i: usize = 0;
        while i < n
            invariant
                i <= n,
                n <= data@.len(),
                chunk@ == data@.subrange(0, i as int),
            decreases n - i,
        {
            chunk.push(data[i]);
            assert(data@.subrange(0, i + 1) =~= data@.subrange(0, i as int).push(data@[i as int]));
            i = i + 1;
        }
        self.cipher.apply_keystream(&mut chunk);
        let ghost start = self.buf@;
        let ghost cipher_after = self.cipher@;
        let ghost cap = self.capacity;
        assert(chunk@.len() == n);
        let mut j: usize = 0;
        while j < chunk.len()
            invariant
                j <= chunk@.len(),
                chunk@.len() == n,
                start.len() + n <= cap,
                cap > 0,
                self.capacity == cap,
                self.cipher@ == cipher_after,
                self.buf@ == start + chunk@.subrange(0, j as int),
            decreases chunk@.len() - j,
        {
            self.buf.push(chunk[j]);
            assert(chunk@.subrange(0, j + 1) =~= chunk@.subrange(0, j as int).push(chunk@[j as int]));
            assert(self.buf@ =~= start + chunk@.subrange(0, j + 1));
            j = j + 1;
        }
        assert(chunk@.subrange(0, j as int) =~= chunk@);
        n
    }

    /// The encrypted bytes waiting for the underlying stream.
    pub fn pending_bytes(&self) -> (r: &[u8])
        ensures
            r@ == self.pending(),
    {
        self.buf.as_slice()
    }

    /// Drop the first `n` pending bytes, which the underlying stream took.
    pub fn consume(&mut self, n: usize)
        requires
            old(self).wf(),
            n <= old(self).pending().len(),
        ensures
            final(self).wf(),
            final(self).pending() == old(self).pending().subrange(n as int, old(self).pending().len() as int),
            final(self).cipher() == old(self).cipher(),
            final(self).capacity() == old(self).capacity(),
    {
        let mut rest: Vec<u8> = Vec::new();
        let mut i: usize = n;
        while i < self.buf.len()
            invariant
                n <= i <= self.buf@.len(),
                rest@ == self.buf@.subrange(n as int, i as int),
            decreases self.buf@.len() - i,
        {
            rest.push(self.buf[i]);
            assert(self.buf@.subrange(n as int, i + 1) =~= self.buf@.subrange(n as int, i as int).push(
                self.buf@[i as int],
            ));
            i = i + 1;
        }
        self.buf = rest;
    }
}

} // verus!
