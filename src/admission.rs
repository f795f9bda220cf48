//! Admission of connections against numeric ceilings and a memory budget.
//!
//! The controller tracks every connection it admitted, pending or established,
//! by its identifier. Counts in each scope are read off that list, so a
//! connection is counted once while it is tracked and released exactly once,
//! however often its closing is reported.
use crate::bytes::{bytes_clone, bytes_eq};
use crate::config::ConnectionLimits;
use vstd::prelude::*;

verus! {

/// Which side opened a connection.
#[derive(Clone, Copy, Debug, PartialEq, Eq, Structural)]
pub enum Direction {
    Inbound,
    Outbound,
}

/// The ceiling that denied a connection.
#[derive(Clone, Copy, Debug, PartialEq, Eq, Structural)]
pub enum Ceiling {
    EstablishedTotal,
    EstablishedIncoming,
    EstablishedOutgoing,
    EstablishedPerPeer,
    PendingIncoming,
    PendingOutgoing,
    MemoryBudget,
}

/// A connection was refused because `ceiling` was reached.
#[derive(Clone, Copy, Debug, PartialEq, Eq, Structural)]
pub struct AdmissionDenied {
    pub ceiling: Ceiling,
}

/// A tracked connection: pending while its peer is unknown, established once
/// the handshake named the peer.
pub ghost struct ConnView {
    pub id: u64,
    pub direction: Direction,
    pub peer: Option<Seq<u8>>,
}

/// Number of entries of `s` that satisfy `f`.
pub open spec fn count(s: Seq<ConnView>, f: spec_fn(ConnView) -> bool) -> nat
    decreases s.len(),
{
    if s.len() == 0 {
        0
    } else {
        count(s.drop_last(), f) + if f(s.last()) {
            1nat
        } else {
            0nat
        }
    }
}

pub open spec fn pending_in(dir: Direction) -> spec_fn(ConnView) -> bool {
    |c: ConnView| c.peer is None && c.direction == dir
}

pub open spec fn established_in(dir: Direction) -> spec_fn(ConnView) -> bool {
    |c: ConnView| c.peer is Some && c.direction == dir
}

pub open spec fn established() -> spec_fn(ConnView) -> bool {
    |c: ConnView| c.peer is Some
}

pub open spec fn established_with(peer: Seq<u8>) -> spec_fn(ConnView) -> bool {
    |c: ConnView| c.peer == Some(peer)
}

/// No two entries share an identifier.
pub open spec fn ids_unique(s: Seq<ConnView>) -> bool {
    forall|i: int, j: int| 0 <= i < s.len() && 0 <= j < s.len() && i != j ==> s[i].id != s[j].id
}

pub open spec fn tracks(s: Seq<ConnView>, id: u64) -> bool {
    exists|i: int| 0 <= i < s.len() && s[i].id == id
}

/// `s` without the entry for `id`, if it has one.
pub open spec fn release(s: Seq<ConnView>, id: u64) -> Seq<ConnView> {
    if tracks(s, id) {
        s.remove(choose|i: int| 0 <= i < s.len() && s[i].id == id)
    } else {
        s
    }
}

/// The ceiling, if any, that a new pending connection in direction `dir`
/// reaches, given the tracked connections `s` and `memory` bytes in use.
pub open spec fn pending_verdict(
    s: Seq<ConnView>,
    limits: ConnectionLimits,
    budget: usize,
    dir: Direction,
    memory: usize,
) -> Option<Ceiling> {
    if dir == Direction::Inbound && count(s, pending_in(dir)) >= limits.max_pending_incoming {
        Some(Ceiling::PendingIncoming)
    } else if dir == Direction::Outbound && count(s, pending_in(dir))
        >= limits.max_pending_outgoing {
        Some(Ceiling::PendingOutgoing)
    } else if memory > budget {
        Some(Ceiling::MemoryBudget)
    } else {
        None
    }
}

/// The ceiling, if any, that a connection in direction `dir` to `peer`
/// reaches on becoming established, checked in order: all established
/// connections, those in its direction, those to its peer, memory.
pub open spec fn established_verdict(
    s: Seq<ConnView>,
    limits: ConnectionLimits,
    budget: usize,
    dir: Direction,
    peer: Seq<u8>,
    memory: usize,
) -> Option<Ceiling> {
    if count(s, established()) >= limits.max_established_total {
        Some(Ceiling::EstablishedTotal)
    } else if dir == Direction::Inbound && count(s, established_in(dir))
        >= limits.max_established_incoming {
        Some(Ceiling::EstablishedIncoming)
    } else if dir == Direction::Outbound && count(s, established_in(dir))
        >= limits.max_established_outgoing {
        Some(Ceiling::EstablishedOutgoing)
    } else if count(s, established_with(peer)) >= limits.max_established_per_peer {
        Some(Ceiling::EstablishedPerPeer)
    } else if memory > budget {
        Some(Ceiling::MemoryBudget)
    } else {
        None
    }
}

/// `Ok` where no ceiling is reached, else the denial naming it.
pub open spec fn verdict_result(v: Option<Ceiling>) -> Result<(), AdmissionDenied> {
    match v {
        Some(c) => Err(AdmissionDenied { ceiling: c }),
        None => Ok(()),
    }
}

/// Entries that are pending (or established), in direction `dir` where one is
/// given, with `peer` where one is given.
spec fn in_scope(pending: bool, dir: Option<Direction>, peer: Option<Seq<u8>>) -> spec_fn(
    ConnView,
) -> bool {
    |c: ConnView|
        (c.peer is None) == pending && (dir is Some ==> c.direction == dir->0) && (peer is Some
            ==> c.peer == peer)
}

spec fn opt_view(peer: Option<&Vec<u8>>) -> Option<Seq<u8>> {
    match peer {
        Some(p) => Some(p@),
        None => None,
    }
}

struct Connection {
    id: u64,
    direction: Direction,
    peer: Option<Vec<u8>>,
}

impl View for Connection {
    type V = ConnView;

    closed spec fn view(&self) -> ConnView {
        ConnView {
            id: self.id,
            direction: self.direction,
            peer: match self.peer {
                Some(p) => Some(p@),
                None => None,
            },
        }
    }
}

/// Decides whether connections may proceed, and keeps the counts that the
/// decisions read.
pub struct AdmissionController {
    limits: ConnectionLimits,
    memory_budget: usize,
    connections: Vec<Connection>,
}

impl AdmissionController {
    /// The tracked connections.
    pub closed spec fn entries(&self) -> Seq<ConnView> {
        self.connections@.map_values(|c: Connection| c@)
    }

    pub closed spec fn limits(&self) -> ConnectionLimits {
        self.limits
    }

    pub closed spec fn budget(&self) -> usize {
        self.memory_budget
    }

    pub open spec fn wf(&self) -> bool {
        ids_unique(self.entries())
    }

    /// A controller with no connection, enforcing `limits` and a memory budget
    /// of `memory_budget` bytes.
    pub fn new(limits: ConnectionLimits, memory_budget: usize) -> (r: Self)
        ensures
            r.wf(),
            r.entries() == Seq::<ConnView>::empty(),
            r.limits() == limits,
            r.budget() == memory_budget,
    {
        let r = AdmissionController { limits, memory_budget, connections: Vec::new() };
        assert(r.entries() =~= Seq::<ConnView>::empty());
        r
    }

    /// Number of tracked connections.
    pub fn len(&self) -> (r: usize)
        ensures
            r == self.entries().len(),
    {
        self.connections.len()
    }

    fn count_matching(&self, pending: bool, dir: Option<Direction>, peer: Option<&Vec<u8>>) -> (n: u64)
        requires
            self.connections@.len() <= u64::MAX,
        ensures
            n == count(self.entries(), in_scope(pending, dir, opt_view(peer))),
    {
        let mut n: u64 = 0;
        let mut i: usize = 0;
        while i < self.connections.len()
            invariant
                i <= self.connections@.len(),
                self.connections@.len() <= u64::MAX,
                n <= i,
                n == count(self.entries().take(i as int), in_scope(pending, dir, opt_view(peer))),
            decreases self.connections@.len() - i,
        {
            let c = &self.connections[i];
            let is_pending = match &c.peer {
                Some(_) => false,
                None => true,
            };
            let dir_ok = match dir {
                Some(d) => c.direction == d,
                None => true,
            };
            let peer_ok = match peer {
                Some(p) => match &c.peer {
                    Some(q) => bytes_eq(q, p),
                    None => false,
                },
                None => true,
            };
            let ghost e = self.entries()[i as int];
            assert(e == self.connections@[i as int]@);
            assert(self.entries().take(i + 1).drop_last() =~= self.entries().take(i as int));
            assert(self.entries().take(i + 1).last() == e);
            assert(is_pending == (e.peer is None));
            assert(dir_ok == (dir is Some ==> e.direction == dir->0));
            assert(peer_ok == (opt_view(peer) is Some ==> e.peer == opt_view(peer)));
            assert(in_scope(pending, dir, opt_view(peer))(e) == (is_pending == pending && dir_ok
                && peer_ok));
            if is_pending == pending && dir_ok && peer_ok {
                n = n + 1;
            }
            i = i + 1;
        }
        assert(self.entries().take(i as int) =~= self.entries());
        n
    }

    /// Index of the entry for `id`, if one is tracked.
    fn find(&self, id: u64) -> (r: Option<usize>)
        ensures
            match r {
                Some(i) => i < self.entries().len() && self.entries()[i as int].id == id,
                None => !tracks(self.entries(), id),
            },
    {
        let mut i: usize = 0;
        while i < self.connections.len()
            invariant
                i <= self.connections@.len(),
                forall|j: int| 0 <= j < i ==> self.entries()[j].id != id,
            decreases self.connections@.len() - i,
        {
            if self.connections[i].id == id {
                return Some(i);
            }
            i = i + 1;
        }
        None
    }

    /// Stop tracking `id`; returns whether it was tracked.
    pub fn close(&mut self, id: u64) -> (r: bool)
        requires
            old(self).wf(),
        ensures
            final(self).wf(),
            r == tracks(old(self).entries(), id),
            final(self).entries() == release(old(self).entries(), id),
            final(self).limits() == old(self).limits(),
            final(self).budget() == old(self).budget(),
    {
        match self.find(id) {
            Some(i) => {
                let ghost s = self.entries();
                proof {
                    let k = choose|k: int| 0 <= k < s.len() && s[k].id == id;
                    assert(k == i as int);
                }
                self.connections.remove(i);
                assert(self.entries() =~= s.remove(i as int));
                true
            },
            None => false,
        }
    }

    /// Admit a new pending connection `id` in direction `dir` while `memory`
    /// bytes are in use. An entry already tracked for `id` is released first.
    pub fn admit_pending(&mut self, id: u64, dir: Direction, memory: usize) -> (r: Result<
        (),
        AdmissionDenied,
    >)
        requires
            old(self).wf(),
            old(self).entries().len() < u64::MAX,
        ensures
            final(self).wf(),
            final(self).limits() == old(self).limits(),
            final(self).budget() == old(self).budget(),
            r == verdict_result(
                pending_verdict(
                    release(old(self).entries(), id),
                    old(self).limits(),
                    old(self).budget(),
                    dir,
                    memory,
                ),
            ),
            final(self).entries() == if r is Ok {
                release(old(self).entries(), id).push(
                    ConnView { id, direction: dir, peer: None },
                )
            } else {
                release(old(self).entries(), id)
            },
    {
        self.close(id);
        let pending = self.count_matching(true, Some(dir), None);
        assert(count(self.entries(), pending_in(dir)) == pending) by {
            assert(pending_in(dir) =~= in_scope(true, Some(dir), None));
        }
        let verdict = match dir {
            Direction::Inbound => if pending >= self.limits.max_pending_incoming as u64 {
                Some(Ceiling::PendingIncoming)
            } else {
                None
            },
            Direction::Outbound => if pending >= self.limits.max_pending_outgoing as u64 {
                Some(Ceiling::PendingOutgoing)
            } else {
                None
            },
        };
        let verdict = match verdict {
            Some(c) => Some(c),
            None => if memory > self.memory_budget {
                Some(Ceiling::MemoryBudget)
            } else {
                None
            },
        };
        match verdict {
            Some(c) => Err(AdmissionDenied { ceiling: c }),
            None => {
                let ghost s = self.entries();
                self.connections.push(Connection { id, direction: dir, peer: None });
                assert(self.entries() =~= s.push(ConnView { id, direction: dir, peer: None }));
                Ok(())
            },
        }
    }

    /// Admit connection `id` in direction `dir` as established with `peer`
    /// while `memory` bytes are in use. Whatever was tracked for `id` (its
    /// pending entry) is released in the same step, so a denied connection
    /// leaves nothing behind and an admitted one moves from pending to
    /// established without being counted twice.
    pub fn admit_established(
        &mut self,
        id: u64,
        dir: Direction,
        peer: &Vec<u8>,
        memory: usize,
    ) -> (r: Result<(), AdmissionDenied>)
        requires
            old(self).wf(),
            old(self).entries().len() < u64::MAX,
        ensures
            final(self).wf(),
            final(self).limits() == old(self).limits(),
            final(self).budget() == old(self).budget(),
            r == verdict_result(
                established_verdict(
                    release(old(self).entries(), id),
                    old(self).limits(),
                    old(self).budget(),
                    dir,
                    peer@,
                    memory,
                ),
            ),
            final(self).entries() == if r is Ok {
                release(old(self).entries(), id).push(
                    ConnView { id, direction: dir, peer: Some(peer@) },
                )
            } else {
                release(old(self).entries(), id)
            },
    {
        self.close(id);
        let total = self.count_matching(false, None, None);
        let in_dir = self.count_matching(false, Some(dir), None);
        let with_peer = self.count_matching(false, None, Some(peer));
        assert(count(self.entries(), established()) == total) by {
            assert(established() =~= in_scope(false, None, None));
        }
        assert(count(self.entries(), established_in(dir)) == in_dir) by {
            assert(established_in(dir) =~= in_scope(false, Some(dir), None));
        }
        assert(count(self.entries(), established_with(peer@)) == with_peer) by {
            assert(established_with(peer@) =~= in_scope(false, None, Some(peer@)));
        }
        let dir_limit = match dir {
            Direction::Inbound => self.limits.max_established_incoming,
            Direction::Outbound => self.limits.max_established_outgoing,
        };
        let verdict = if total >= self.limits.max_established_total as u64 {
            Some(Ceiling::EstablishedTotal)
        } else if in_dir >= dir_limit as u64 {
            match dir {
                Direction::Inbound => Some(Ceiling::EstablishedIncoming),
                Direction::Outbound => Some(Ceiling::EstablishedOutgoing),
            }
        } else if with_peer >= self.limits.max_established_per_peer as u64 {
            Some(Ceiling::EstablishedPerPeer)
        } else if memory > self.memory_budget {
            Some(Ceiling::MemoryBudget)
        } else {
            None
        };
        match verdict {
            Some(c) => Err(AdmissionDenied { ceiling: c }),
            None => {
                let ghost s = self.entries();
                let entry = Connection { id, direction: dir, peer: Some(bytes_clone(peer)) };
                self.connections.push(entry);
                assert(self.entries() =~= s.push(
                    ConnView { id, direction: dir, peer: Some(peer@) },
                ));
                Ok(())
            },
        }
    }
}

/// Removing entry `i` lowers a count by one where the entry is counted, and
/// leaves it unchanged elsewhere.
proof fn lemma_count_remove(s: Seq<ConnView>, i: int, f: spec_fn(ConnView) -> bool)
    requires
        0 <= i < s.len(),
    ensures
        count(s.remove(i), f) + (if f(s[i]) {
            1nat
        } else {
            0nat
        }) == count(s, f),
    decreases s.len(),
{
    if i == s.len() - 1 {
        assert(s.remove(i) =~= s.drop_last());
    } else {
        lemma_count_remove(s.drop_last(), i, f);
        assert(s.remove(i).drop_last() =~= s.drop_last().remove(i));
        assert(s.remove(i).last() == s.last());
    }
}

/// With the established connections at the total ceiling, the next
/// connection is denied for that ceiling. Closing one of them takes the count
/// one below the ceiling, and then a connection that no other ceiling stops is
/// admitted again.
pub proof fn lemma_admission_monotonicity(
    s: Seq<ConnView>,
    limits: ConnectionLimits,
    budget: usize,
    closed_id: u64,
    dir: Direction,
    peer: Seq<u8>,
    memory: usize,
)
    requires
        ids_unique(s),
        exists|i: int| 0 <= i < s.len() && s[i].id == closed_id && s[i].peer is Some,
        count(s, established()) <= limits.max_established_total,
    ensures
        count(s, established()) == limits.max_established_total ==> established_verdict(
            s,
            limits,
            budget,
            dir,
            peer,
            memory,
        ) == Some(Ceiling::EstablishedTotal),
        count(release(s, closed_id), established()) + 1 == count(s, established()),
        ({
            let after = release(s, closed_id);
            (dir == Direction::Inbound ==> count(after, established_in(dir))
                < limits.max_established_incoming) && (dir == Direction::Outbound ==> count(
                after,
                established_in(dir),
            ) < limits.max_established_outgoing) && count(after, established_with(peer))
                < limits.max_established_per_peer && memory <= budget ==> established_verdict(
                after,
                limits,
                budget,
                dir,
                peer,
                memory,
            ) is None
        }),
{
    let i = choose|i: int| 0 <= i < s.len() && s[i].id == closed_id && s[i].peer is Some;
    assert(tracks(s, closed_id));
    let k = choose|k: int| 0 <= k < s.len() && s[k].id == closed_id;
    assert(k == i);
    lemma_count_remove(s, k, established());
}

} // verus!
