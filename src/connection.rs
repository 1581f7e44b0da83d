//! Per-connection bookkeeping of the experimental reliable-UDP transport: packet numbers,
//! packets awaiting acknowledgement, and the round-trip estimate. Times are milliseconds
//! handed in by the host.
use vstd::prelude::*;
use std::collections::HashMap;
use crate::discovery::SocketAddress;

verus! {

broadcast use vstd::std_specs::hash::group_hash_axioms;

/// Lifecycle of a connection.
#[derive(Debug, Clone, Copy, PartialEq, Eq, Structural)]
pub enum ConnectionState {
    Idle,
    Handshaking,
    Connected,
    Closing,
    Closed,
}

/// A sent packet awaiting its acknowledgement.
#[derive(Debug, Clone)]
pub struct PendingPacket {
    pub sent_at_ms: u64,
    pub data: Vec<u8>,
    pub retries: u32,
}

/// Settings of the transport.
#[derive(Debug, Clone, Copy)]
pub struct TransportConfig {
    pub max_retries: u32,
    pub max_connections: usize,
}

impl Default for TransportConfig {
    fn default() -> (r: TransportConfig)
        ensures
            r.max_retries == 5,
            r.max_connections == 100,
    {
        TransportConfig { max_retries: 5, max_connections: 100 }
    }
}

/// Idle time after which a connection counts as gone: 30 s.
pub const IDLE_TIMEOUT_MS: u64 = 30000;

/// Round-trip estimate after a new sample: seven eighths of the old one plus one eighth of the
/// sample.
pub open spec fn next_rtt(rtt: u64, sample: u64) -> int {
    (rtt * 7 + sample) / 8
}

/// Milliseconds from `then` to `now`; 0 if the clock went back.
pub open spec fn since(now: u64, then: u64) -> int {
    if now >= then {
        now - then
    } else {
        0
    }
}

/// One connection.
#[derive(Debug)]
pub struct Connection {
    pub id: u64,
    pub remote_addr: SocketAddress,
    pub state: ConnectionState,
    pub next_pkt_num: u64,
    pub highest_acked: u64,
    pub pending_acks: HashMap<u64, PendingPacket>,
    pub rtt_ms: u64,
    pub last_activity_ms: u64,
}

impl Connection {
    pub fn new(id: u64, remote_addr: SocketAddress, now: u64) -> (r: Connection)
        ensures
            r.id == id,
            r.state == ConnectionState::Idle,
            r.next_pkt_num == 0,
            r.highest_acked == 0,
            r.pending_acks@ == Map::<u64, PendingPacket>::empty(),
            r.rtt_ms == 100,
            r.last_activity_ms == now,
    {
        Connection {
            id,
            remote_addr,
            state: ConnectionState::Idle,
            next_pkt_num: 0,
            highest_acked: 0,
            pending_acks: HashMap::new(),
            rtt_ms: 100,
            last_activity_ms: now,
        }
    }

    /// Hands out the next packet number.
    pub fn alloc_pkt_num(&mut self) -> (r: u64)
        requires
            old(self).next_pkt_num < u64::MAX,
        ensures
            r == old(self).next_pkt_num,
            final(self).next_pkt_num == old(self).next_pkt_num + 1,
            final(self).pending_acks@ == old(self).pending_acks@,
    {
        let num = self.next_pkt_num;
        self.next_pkt_num = self.next_pkt_num + 1;
        num
    }

    /// Records a sent packet for acknowledgement tracking.
    pub fn record_sent(&mut self, pkt_num: u64, data: Vec<u8>, now: u64)
        ensures
            final(self).pending_acks@.dom() == old(self).pending_acks@.dom().insert(pkt_num),
            final(self).pending_acks@[pkt_num].sent_at_ms == now,
            final(self).pending_acks@[pkt_num].data@ == data@,
            final(self).pending_acks@[pkt_num].retries == 0,
            forall|k: u64|
                k != pkt_num && #[trigger] old(self).pending_acks@.contains_key(k) ==> final(self).pending_acks@[k]
                    == old(self).pending_acks@[k],
            final(self).last_activity_ms == now,
            final(self).rtt_ms == old(self).rtt_ms,
            final(self).next_pkt_num == old(self).next_pkt_num,
    {
        self.pending_acks.insert(pkt_num, PendingPacket { sent_at_ms: now, data, retries: 0 });
        self.last_activity_ms = now;
    }

    /// Processes the acknowledgement of `pkt_num` at time `now`: the packet stops being
    /// pending and, if it was, its round trip updates the estimate.
    pub fn acknowledge(&mut self, pkt_num: u64, now: u64)
        ensures
            final(self).pending_acks@ == old(self).pending_acks@.remove(pkt_num),
            old(self).pending_acks@.contains_key(pkt_num) ==> final(self).rtt_ms == next_rtt(
                old(self).rtt_ms,
                since(now, old(self).pending_acks@[pkt_num].sent_at_ms) as u64,
            ),
            !old(self).pending_acks@.contains_key(pkt_num) ==> final(self).rtt_ms == old(self).rtt_ms,
            final(self).highest_acked == if pkt_num > old(self).highest_acked {
                pkt_num
            } else {
                old(self).highest_acked
            },
            final(self).last_activity_ms == now,
    {
        match self.pending_acks.remove(&pkt_num) {
            Some(p) => {
                let sample = if now >= p.sent_at_ms {
                    now - p.sent_at_ms
                } else {
                    0
                };
                let r = (self.rtt_ms as u128 * 7 + sample as u128) / 8;
                assert(r <= u64::MAX);
                self.rtt_ms = r as u64;
            },
            None => {},
        }
        if pkt_num > self.highest_acked {
            self.highest_acked = pkt_num;
        }
        self.last_activity_ms = now;
    }

    /// Marks a pending packet for retransmission at `now` and returns its bytes.
    pub fn mark_retransmit(&mut self, pkt_num: u64, now: u64) -> (r: Option<Vec<u8>>)
        ensures
            r is Some == old(self).pending_acks@.contains_key(pkt_num),
            final(self).pending_acks@.dom() == old(self).pending_acks@.dom(),
            r matches Some(d) ==> d@ == old(self).pending_acks@[pkt_num].data@
                && final(self).pending_acks@[pkt_num].sent_at_ms == now
                && final(self).pending_acks@[pkt_num].retries == if old(self).pending_acks@[pkt_num].retries < u32::MAX {
                    old(self).pending_acks@[pkt_num].retries + 1
                } else {
                    u32::MAX as int
                },
    {
        match self.pending_acks.remove(&pkt_num) {
            Some(p) => {
                let mut copy: Vec<u8> = Vec::new();
                crate::wire::push_range(&mut copy, p.data.as_slice(), 0, p.data.len());
                assert(copy@ =~= p.data@);
                let retries = if p.retries < u32::MAX {
                    p.retries + 1
                } else {
                    u32::MAX
                };
                self.pending_acks.insert(pkt_num, PendingPacket { sent_at_ms: now, data: p.data, retries });
                assert(self.pending_acks@.dom() =~= old(self).pending_acks@.dom());
                Some(copy)
            },
            None => None,
        }
    }

    /// Whether the connection has been idle for more than 30 s at `now`.
    pub fn is_timed_out(&self, now: u64) -> (r: bool)
        ensures
            r == (since(now, self.last_activity_ms) > IDLE_TIMEOUT_MS),
    {
        let idle = if now >= self.last_activity_ms {
            now - self.last_activity_ms
        } else {
            0
        };
        idle > IDLE_TIMEOUT_MS
    }

    /// Whether pending packet `k` is older than 1.5 round trips at `now`.
    pub open spec fn spec_overdue(&self, k: u64, now: u64) -> bool {
        self.pending_acks@.contains_key(k) && since(now, self.pending_acks@[k].sent_at_ms) > self.rtt_ms
            as int * 3 / 2
    }

    /// Packet numbers of the pending packets older than 1.5 round trips at `now`, each once.
    pub fn get_retransmit_candidates(&self, now: u64) -> (r: Vec<u64>)
        ensures
            forall|k: u64| r@.contains(k) <==> self.spec_overdue(k, now),
            r@.no_duplicates(),
    {
        let mut r: Vec<u64> = Vec::new();
        let ghost m = self.pending_acks@;
        let ghost mut seen: Set<u64> = Set::empty();
        for entry in it: self.pending_acks.iter()
            invariant
                m == self.pending_acks@,
                it.seq().no_duplicates(),
                forall|i: int| 0 <= i < it.seq().len() ==> #[trigger] m.contains_key(*it.seq()[i].0) && m[*it.seq()[i].0] == *it.seq()[i].1,
                forall|k: u64| #[trigger] m.contains_key(k) ==> it.seq().contains((&k, &m[k])),
                forall|q: u64| #[trigger] seen.contains(q) <==> exists|i: int| 0 <= i < it.index() && *it.seq()[i].0 == q,
                forall|q: u64| #[trigger] r@.contains(q) <==> (self.spec_overdue(q, now) && seen.contains(q)),
                forall|q: u64| #[trigger] m.contains_key(q) && !seen.contains(q) ==> exists|i: int| it.index() <= i < it.seq().len() && *it.seq()[i].0 == q,
                r@.no_duplicates(),
        {
            let ghost idx = it.index();
            assert(entry == it.seq()[idx as int]);
            let (k, p) = entry;
            proof {
                assert(!seen.contains(*k)) by {
                    if seen.contains(*k) {
                        let i = choose|i: int| 0 <= i < idx && *it.seq()[i].0 == *k;
                        assert(m[*k] == *it.seq()[i].1);
                        assert(it.seq()[i] == it.seq()[idx as int]);
                    }
                }
            }
            let age = if now >= p.sent_at_ms {
                now - p.sent_at_ms
            } else {
                0
            };
            let ghost before = r@;
            if (age as u128) > (self.rtt_ms as u128 * 3) / 2 {
                r.push(*k);
                proof {
                    assert forall|a: int, b: int| 0 <= a < b < r@.len() implies r@[a] != r@[b] by {
                        if b == before.len() {
                            assert(before.contains(r@[a]));
                        }
                    }
                    assert forall|q: u64| #[trigger] r@.contains(q) <==> (q == *k || before.contains(q)) by {
                        if r@.contains(q) && q != *k {
                            let j = choose|j: int| 0 <= j < r@.len() && r@[j] == q;
                            assert(before[j] == q);
                        }
                        if before.contains(q) {
                            let j = choose|j: int| 0 <= j < before.len() && before[j] == q;
                            assert(r@[j] == q);
                        }
                        if q == *k {
                            assert(r@[r@.len() - 1] == q);
                        }
                    }
                }
            }
            proof {
                let old_seen = seen;
                seen = seen.insert(*k);
                assert forall|q: u64| #[trigger] seen.contains(q) <==> exists|i: int| 0 <= i < idx + 1 && *it.seq()[i].0 == q by {
                    if seen.contains(q) && q != *k {
                        assert(old_seen.contains(q));
                    }
                    if exists|i: int| 0 <= i < idx + 1 && *it.seq()[i].0 == q {
                        let i = choose|i: int| 0 <= i < idx + 1 && *it.seq()[i].0 == q;
                        if i < idx {
                            assert(old_seen.contains(q));
                        }
                    }
                    if q == *k {
                        assert(*it.seq()[idx as int].0 == q);
                    }
                }
                assert forall|q: u64| #[trigger] m.contains_key(q) && !seen.contains(q) implies exists|i: int| idx + 1 <= i < it.seq().len() && *it.seq()[i].0 == q by {
                    let i = choose|i: int| idx <= i < it.seq().len() && *it.seq()[i].0 == q;
                    assert(i != idx);
                }
            }
        }
        r
    }

    /// Whether pending packet `pkt_num` is overdue at `now`: older than 1.5 round trips.
    pub fn is_overdue(&self, pkt_num: u64, now: u64) -> (r: bool)
        ensures
            r == (self.pending_acks@.contains_key(pkt_num) && since(now, self.pending_acks@[pkt_num].sent_at_ms)
                > self.rtt_ms as int * 3 / 2),
    {
        match self.pending_acks.get(&pkt_num) {
            Some(p) => {
                let age = if now >= p.sent_at_ms {
                    now - p.sent_at_ms
                } else {
                    0
                };
                (age as u128) > (self.rtt_ms as u128 * 3) / 2
            },
            None => false,
        }
    }
}

} // verus!
