//! UDP heartbeat packets and the liveness rule of the heartbeat manager. Sockets and the
//! sending thread live with the host.
use vstd::prelude::*;
use vstd::array::ArrayAdditionalExecFns;
use crate::wire::{be64, push_be64};

verus! {

/// First byte of a heartbeat packet ("V").
pub const HEARTBEAT_MAGIC_0: u8 = 0x56;

/// Second byte of a heartbeat packet ("W").
pub const HEARTBEAT_MAGIC_1: u8 = 0x57;

/// Packet type of a ping.
pub const PACKET_PING: u8 = 0x01;

/// Packet type of a pong.
pub const PACKET_PONG: u8 = 0x02;

/// Missed intervals after which a peer counts as gone.
pub const TIMEOUT_MULTIPLIER: u64 = 3;

/// Length of a heartbeat packet.
pub const HEARTBEAT_LEN: usize = 11;

/// Milliseconds since the Unix epoch on the system clock (0 if the clock is before it).
#[verifier::external_body]
fn current_timestamp_ms() -> (r: u64) {
    std::time::SystemTime::now().duration_since(std::time::UNIX_EPOCH).unwrap_or_default().as_millis() as u64
}

/// A heartbeat packet: magic, type, then eight timestamp bytes.
pub open spec fn heartbeat_bytes(kind: u8, stamp: Seq<u8>) -> Seq<u8> {
    seq![HEARTBEAT_MAGIC_0, HEARTBEAT_MAGIC_1, kind] + stamp
}

fn packet_with(kind: u8, stamp: &[u8]) -> (r: [u8; 11])
    requires
        stamp@.len() >= 8,
    ensures
        r@ == heartbeat_bytes(kind, stamp@.take(8)),
{
    let mut p = [0u8; 11];
    p.set(0, HEARTBEAT_MAGIC_0);
    p.set(1, HEARTBEAT_MAGIC_1);
    p.set(2, kind);
    let mut i: usize = 0;
    while i < 8
        invariant
            i <= 8,
            stamp@.len() >= 8,
            p@.len() == 11,
            p@[0] == HEARTBEAT_MAGIC_0,
            p@[1] == HEARTBEAT_MAGIC_1,
            p@[2] == kind,
            forall|k: int| 3 <= k < 3 + i ==> #[trigger] p@[k] == stamp@[k - 3],
        decreases 8 - i,
    {
        p.set(3 + i, stamp[i]);
        i += 1;
    }
    assert(p@ =~= heartbeat_bytes(kind, stamp@.take(8)));
    p
}

/// A ping carrying timestamp `ts` (big-endian).
pub fn ping_packet_at(ts: u64) -> (r: [u8; 11])
    ensures
        r@ == heartbeat_bytes(PACKET_PING, be64(ts)),
{
    let mut stamp: Vec<u8> = Vec::new();
    push_be64(&mut stamp, ts);
    assert(stamp@ =~= be64(ts));
    assert(stamp@.take(8) =~= be64(ts));
    packet_with(PACKET_PING, stamp.as_slice())
}

/// A ping stamped with the current time.
pub fn create_ping_packet() -> (r: [u8; 11])
    ensures
        r@.len() == 11,
        r@[0] == HEARTBEAT_MAGIC_0,
        r@[1] == HEARTBEAT_MAGIC_1,
        r@[2] == PACKET_PING,
{
    ping_packet_at(current_timestamp_ms())
}

/// The pong answering a ping whose timestamp bytes are `timestamp[..8]`.
pub fn create_pong_packet(timestamp: &[u8]) -> (r: [u8; 11])
    requires
        timestamp@.len() >= 8,
    ensures
        r@ == heartbeat_bytes(PACKET_PONG, timestamp@.take(8)),
{
    packet_with(PACKET_PONG, timestamp)
}

/// Whether a received datagram is a heartbeat packet of type `kind`.
pub fn is_heartbeat(buf: &[u8], kind: u8) -> (r: bool)
    ensures
        r == (buf@.len() >= HEARTBEAT_LEN && buf@[0] == HEARTBEAT_MAGIC_0 && buf@[1] == HEARTBEAT_MAGIC_1
            && buf@[2] == kind),
{
    buf.len() >= HEARTBEAT_LEN && buf[0] == HEARTBEAT_MAGIC_0 && buf[1] == HEARTBEAT_MAGIC_1 && buf[2] == kind
}

/// Milliseconds from `last` to `now`; 0 if the clock went back.
pub open spec fn elapsed(now: u64, last: u64) -> int {
    if now >= last {
        now - last
    } else {
        0
    }
}

/// Heartbeat settings and the time of the last pong.
pub struct HeartbeatManager {
    running: bool,
    last_pong: u64,
    interval_ms: u64,
}

impl HeartbeatManager {
    pub closed spec fn spec_running(&self) -> bool {
        self.running
    }

    pub closed spec fn spec_interval(&self) -> u64 {
        self.interval_ms
    }

    pub closed spec fn spec_last_pong(&self) -> u64 {
        self.last_pong
    }

    /// A stopped manager with a 5 s interval.
    pub fn new() -> (r: HeartbeatManager)
        ensures
            !r.spec_running(),
            r.spec_interval() == 5000,
            r.spec_last_pong() == 0,
    {
        HeartbeatManager { running: false, last_pong: 0, interval_ms: 5000 }
    }

    pub fn set_interval(&mut self, ms: u64)
        ensures
            final(self).spec_interval() == ms,
            final(self).spec_running() == old(self).spec_running(),
            final(self).spec_last_pong() == old(self).spec_last_pong(),
    {
        self.interval_ms = ms;
    }

    pub fn interval(&self) -> (r: u64)
        ensures
            r == self.spec_interval(),
    {
        self.interval_ms
    }

    /// Marks the manager running from time `now`; returns false if it already ran.
    pub fn start(&mut self, now: u64) -> (started: bool)
        ensures
            started == !old(self).spec_running(),
            final(self).spec_running(),
            started ==> final(self).spec_last_pong() == now,
            !started ==> final(self).spec_last_pong() == old(self).spec_last_pong(),
            final(self).spec_interval() == old(self).spec_interval(),
    {
        if self.running {
            return false;
        }
        self.running = true;
        self.last_pong = now;
        true
    }

    pub fn stop(&mut self)
        ensures
            !final(self).spec_running(),
            final(self).spec_interval() == old(self).spec_interval(),
            final(self).spec_last_pong() == old(self).spec_last_pong(),
    {
        self.running = false;
    }

    /// Records a pong received at `now`.
    pub fn on_pong(&mut self, now: u64)
        ensures
            final(self).spec_last_pong() == now,
            final(self).spec_running() == old(self).spec_running(),
            final(self).spec_interval() == old(self).spec_interval(),
    {
        self.last_pong = now;
    }

    pub fn is_running(&self) -> (r: bool)
        ensures
            r == self.spec_running(),
    {
        self.running
    }

    /// Whether the peer answered within three intervals of `now`.
    pub fn is_peer_alive(&self, now: u64) -> (r: bool)
        ensures
            r == (self.spec_running() && elapsed(now, self.spec_last_pong()) < TIMEOUT_MULTIPLIER
                * self.spec_interval()),
    {
        if !self.running {
            return false;
        }
        let since = if now >= self.last_pong {
            now - self.last_pong
        } else {
            0
        };
        if self.interval_ms > u64::MAX / TIMEOUT_MULTIPLIER {
            return true;
        }
        since < self.interval_ms * TIMEOUT_MULTIPLIER
    }

    /// Milliseconds since the last pong.
    pub fn time_since_last_pong(&self, now: u64) -> (r: u64)
        ensures
            r == elapsed(now, self.spec_last_pong()),
    {
        if now >= self.last_pong {
            now - self.last_pong
        } else {
            0
        }
    }
}

} // verus!
