//! The table of known peers, keyed by device id, and the discovery manager's decisions on
//! beacon and mDNS events.
use vstd::prelude::*;
use vstd::string::{StrSliceExecFns, StringExecFns};
use crate::discovery::{IpAddress, SERVICE_TYPE, parse_hello, parse_hello_packet};

verus! {

/// A peer as last observed.
#[derive(Debug)]
pub struct DiscoveredPeer {
    pub device_id: String,
    pub device_name: String,
    pub addresses: Vec<IpAddress>,
    pub port: u16,
}

pub struct PeerView {
    pub device_id: Seq<char>,
    pub device_name: Seq<char>,
    pub addresses: Seq<IpAddress>,
    pub port: u16,
}

impl View for DiscoveredPeer {
    type V = PeerView;

    open spec fn view(&self) -> PeerView {
        PeerView {
            device_id: self.device_id@,
            device_name: self.device_name@,
            addresses: self.addresses@,
            port: self.port,
        }
    }
}

fn copy_addresses(a: &Vec<IpAddress>) -> (r: Vec<IpAddress>)
    ensures
        r@ == a@,
{
    let mut r: Vec<IpAddress> = Vec::new();
    let mut i: usize = 0;
    while i < a.len()
        invariant
            i <= a@.len(),
            r@ == a@.subrange(0, i as int),
        decreases a@.len() - i,
    {
        r.push(a[i]);
        i += 1;
        assert(r@ =~= a@.subrange(0, i as int));
    }
    assert(r@ =~= a@);
    r
}

impl DiscoveredPeer {
    /// An independent copy of the peer.
    pub fn copy(&self) -> (r: DiscoveredPeer)
        ensures
            r@ == self@,
    {
        DiscoveredPeer {
            device_id: self.device_id.clone(),
            device_name: self.device_name.clone(),
            addresses: copy_addresses(&self.addresses),
            port: self.port,
        }
    }
}

/// Notification of a change in the set of known peers.
#[derive(Debug)]
pub enum DiscoveryEvent {
    PeerFound(DiscoveredPeer),
    PeerLost(String),
}

/// The peers of a list as a map from device id; a later entry wins.
pub open spec fn peer_map(s: Seq<PeerView>) -> Map<Seq<char>, PeerView>
    decreases s.len(),
{
    if s.len() == 0 {
        Map::empty()
    } else {
        peer_map(s.drop_last()).insert(s.last().device_id, s.last())
    }
}

/// No two entries share a device id.
pub open spec fn unique_ids(s: Seq<PeerView>) -> bool {
    forall|i: int, j: int|
        0 <= i < s.len() && 0 <= j < s.len() && i != j ==> #[trigger] s[i].device_id
            != #[trigger] s[j].device_id
}

pub proof fn lemma_peer_map_domain(s: Seq<PeerView>, id: Seq<char>)
    ensures
        peer_map(s).contains_key(id) <==> exists|i: int| 0 <= i < s.len() && #[trigger] s[i].device_id == id,
    decreases s.len(),
{
    if s.len() > 0 {
        lemma_peer_map_domain(s.drop_last(), id);
        if peer_map(s).contains_key(id) && s.last().device_id != id {
            let i = choose|i: int| 0 <= i < s.len() - 1 && #[trigger] s.drop_last()[i].device_id == id;
            assert(s[i].device_id == id);
        }
        if exists|i: int| 0 <= i < s.len() && #[trigger] s[i].device_id == id {
            let i = choose|i: int| 0 <= i < s.len() && #[trigger] s[i].device_id == id;
            if i < s.len() - 1 {
                assert(s.drop_last()[i].device_id == id);
            }
        }
    }
}

pub proof fn lemma_peer_map_update(s: Seq<PeerView>, k: int, p: PeerView)
    requires
        unique_ids(s),
        0 <= k < s.len(),
        s[k].device_id == p.device_id,
    ensures
        peer_map(s.update(k, p)) == peer_map(s).insert(p.device_id, p),
        unique_ids(s.update(k, p)),
    decreases s.len(),
{
    let t = s.update(k, p);
    assert forall|i: int, j: int|
        0 <= i < t.len() && 0 <= j < t.len() && i != j implies #[trigger] t[i].device_id
        != #[trigger] t[j].device_id by {
        assert(s[i].device_id != s[j].device_id);
    }
    if k == s.len() - 1 {
        assert(t.drop_last() =~= s.drop_last());
        assert(peer_map(t) =~= peer_map(s).insert(p.device_id, p));
    } else {
        let d = s.drop_last();
        assert(unique_ids(d)) by {
            assert forall|i: int, j: int|
                0 <= i < d.len() && 0 <= j < d.len() && i != j implies #[trigger] d[i].device_id
                != #[trigger] d[j].device_id by {
                assert(s[i].device_id != s[j].device_id);
            }
        }
        lemma_peer_map_update(d, k, p);
        assert(t.drop_last() =~= d.update(k, p));
        assert(s.last().device_id != p.device_id) by {
            assert(s[s.len() - 1].device_id != s[k].device_id);
        }
        assert(peer_map(t) =~= peer_map(s).insert(p.device_id, p));
    }
}

pub proof fn lemma_peer_map_remove(s: Seq<PeerView>, k: int)
    requires
        unique_ids(s),
        0 <= k < s.len(),
    ensures
        peer_map(s.remove(k)) == peer_map(s).remove(s[k].device_id),
        unique_ids(s.remove(k)),
    decreases s.len(),
{
    let t = s.remove(k);
    let id = s[k].device_id;
    assert forall|i: int, j: int|
        0 <= i < t.len() && 0 <= j < t.len() && i != j implies #[trigger] t[i].device_id
        != #[trigger] t[j].device_id by {
        let a = if i < k { i } else { i + 1 };
        let b = if j < k { j } else { j + 1 };
        assert(s[a].device_id != s[b].device_id);
    }
    let d = s.drop_last();
    assert(unique_ids(d)) by {
        assert forall|i: int, j: int|
            0 <= i < d.len() && 0 <= j < d.len() && i != j implies #[trigger] d[i].device_id
            != #[trigger] d[j].device_id by {
            assert(s[i].device_id != s[j].device_id);
        }
    }
    if k == s.len() - 1 {
        assert(t =~= d);
        lemma_peer_map_domain(d, id);
        assert forall|i: int| 0 <= i < d.len() implies #[trigger] d[i].device_id != id by {
            assert(s[i].device_id != s[k].device_id);
        }
        assert(!peer_map(d).contains_key(id));
        assert(peer_map(t) =~= peer_map(s).remove(id));
    } else {
        lemma_peer_map_remove(d, k);
        assert(t.drop_last() =~= d.remove(k));
        assert(s.last().device_id != id) by {
            assert(s[s.len() - 1].device_id != s[k].device_id);
        }
        assert(t.last() == s.last());
        assert(peer_map(t) =~= peer_map(s).remove(id));
    }
}

/// Known peers, at most one per device id.
pub struct PeerTable {
    peers: Vec<DiscoveredPeer>,
}

impl PeerTable {
    pub closed spec fn entries(&self) -> Seq<PeerView> {
        self.peers@.map_values(|p: DiscoveredPeer| p@)
    }

    /// The table as a map from device id to the latest observation.
    pub open spec fn view_map(&self) -> Map<Seq<char>, PeerView> {
        peer_map(self.entries())
    }

    pub open spec fn wf(&self) -> bool {
        unique_ids(self.entries())
    }

    pub fn new() -> (r: PeerTable)
        ensures
            r.wf(),
            r.view_map() == Map::<Seq<char>, PeerView>::empty(),
    {
        let r = PeerTable { peers: Vec::new() };
        assert(r.entries() =~= Seq::<PeerView>::empty());
        r
    }

    fn find(&self, id: &String) -> (r: Option<usize>)
        ensures
            r matches Some(k) ==> k < self.entries().len() && self.entries()[k as int].device_id
                == id@,
            r is None ==> forall|i: int|
                0 <= i < self.entries().len() ==> #[trigger] self.entries()[i].device_id != id@,
    {
        let mut i: usize = 0;
        while i < self.peers.len()
            invariant
                i <= self.peers@.len(),
                forall|j: int| 0 <= j < i ==> #[trigger] self.entries()[j].device_id != id@,
            decreases self.peers@.len() - i,
        {
            if self.peers[i].device_id == *id {
                return Some(i);
            }
            i += 1;
        }
        None
    }

    /// Records `peer` as the latest observation of its device id.
    pub fn upsert(&mut self, peer: DiscoveredPeer)
        requires
            old(self).wf(),
        ensures
            final(self).wf(),
            final(self).view_map() == old(self).view_map().insert(peer@.device_id, peer@),
    {
        let ghost p = peer@;
        let ghost s = self.entries();
        match self.find(&peer.device_id) {
            Some(k) => {
                self.peers.set(k, peer);
                proof {
                    lemma_peer_map_update(s, k as int, p);
                    assert(self.entries() =~= s.update(k as int, p));
                }
            },
            None => {
                self.peers.push(peer);
                proof {
                    assert(self.entries() =~= s.push(p));
                    assert(self.entries().drop_last() =~= s);
                    assert forall|i: int, j: int|
                        0 <= i < self.entries().len() && 0 <= j < self.entries().len() && i != j implies #[trigger] self.entries()[i].device_id
                        != #[trigger] self.entries()[j].device_id by {
                        if i < s.len() && j < s.len() {
                            assert(s[i].device_id != s[j].device_id);
                        }
                    }
                }
            },
        }
    }

    /// Forgets the peer with device id `id`, if any.
    pub fn remove(&mut self, id: &String)
        requires
            old(self).wf(),
        ensures
            final(self).wf(),
            final(self).view_map() == old(self).view_map().remove(id@),
    {
        let ghost s = self.entries();
        match self.find(id) {
            Some(k) => {
                self.peers.remove(k);
                proof {
                    lemma_peer_map_remove(s, k as int);
                    assert(self.entries() =~= s.remove(k as int));
                }
            },
            None => {
                proof {
                    lemma_peer_map_domain(s, id@);
                    assert(self.view_map() =~= old(self).view_map().remove(id@));
                }
            },
        }
    }

    /// A snapshot of every known peer, one per device id.
    pub fn snapshot(&self) -> (r: Vec<DiscoveredPeer>)
        requires
            self.wf(),
        ensures
            r@.map_values(|p: DiscoveredPeer| p@) == self.entries(),
            unique_ids(self.entries()),
            forall|i: int| 0 <= i < r@.len() ==> #[trigger] self.view_map().contains_key(r@[i]@.device_id)
                && self.view_map()[r@[i]@.device_id] == r@[i]@,
            forall|id: Seq<char>| #[trigger] self.view_map().contains_key(id) ==> exists|i: int|
                0 <= i < r@.len() && r@[i]@.device_id == id,
    {
        let mut r: Vec<DiscoveredPeer> = Vec::new();
        let mut i: usize = 0;
        while i < self.peers.len()
            invariant
                i <= self.peers@.len(),
                r@.map_values(|p: DiscoveredPeer| p@) == self.entries().subrange(0, i as int),
            decreases self.peers@.len() - i,
        {
            let c = self.peers[i].copy();
            assert(c@ == self.entries()[i as int]);
            let ghost before = r@;
            r.push(c);
            assert(r@ == before.push(c));
            assert(r@.map_values(|p: DiscoveredPeer| p@) =~= before.map_values(|p: DiscoveredPeer| p@).push(c@));
            i += 1;
            assert(r@.map_values(|p: DiscoveredPeer| p@) =~= self.entries().subrange(0, i as int));
        }
        assert(self.entries().subrange(0, i as int) =~= self.entries());
        proof {
            let s = self.entries();
            assert forall|i: int| 0 <= i < r@.len() implies #[trigger] self.view_map().contains_key(r@[i]@.device_id)
                && self.view_map()[r@[i]@.device_id] == r@[i]@ by {
                assert(s[i] == r@[i]@);
                lemma_peer_map_value(s, i);
            }
            assert forall|id: Seq<char>| #[trigger] self.view_map().contains_key(id) implies exists|i: int|
                0 <= i < r@.len() && r@[i]@.device_id == id by {
                lemma_peer_map_domain(s, id);
                let i = choose|i: int| 0 <= i < s.len() && #[trigger] s[i].device_id == id;
                assert(s[i] == r@[i]@);
            }
        }
        r
    }
}

pub proof fn lemma_peer_map_value(s: Seq<PeerView>, k: int)
    requires
        unique_ids(s),
        0 <= k < s.len(),
    ensures
        peer_map(s).contains_key(s[k].device_id),
        peer_map(s)[s[k].device_id] == s[k],
    decreases s.len(),
{
    if k < s.len() - 1 {
        let d = s.drop_last();
        assert(unique_ids(d)) by {
            assert forall|i: int, j: int|
                0 <= i < d.len() && 0 <= j < d.len() && i != j implies #[trigger] d[i].device_id
                != #[trigger] d[j].device_id by {
                assert(s[i].device_id != s[j].device_id);
            }
        }
        lemma_peer_map_value(d, k);
        assert(s[s.len() - 1].device_id != s[k].device_id);
    }
}

/// The first dot-separated label of an mDNS full name: the characters before the first `.`.
pub open spec fn is_first_label(s: Seq<char>, r: Seq<char>) -> bool {
    exists|k: int|
        #![trigger s.take(k)]
        0 <= k <= s.len() && r == s.take(k) && (forall|j: int| 0 <= j < k ==> s[j] != '.') && (k
            == s.len() || s[k] == '.')
}

proof fn lemma_first_label_witness(s: Seq<char>, r: Seq<char>, k: int)
    requires
        0 <= k <= s.len(),
        r == s.take(k),
        forall|j: int| 0 <= j < k ==> s[j] != '.',
        k == s.len() || s[k] == '.',
    ensures
        is_first_label(s, r),
{
}

/// The device id that an mDNS full name (`<id>._voidwarp._udp.local.`) carries.
pub fn device_id_from_fullname(fullname: &str) -> (r: String)
    ensures
        is_first_label(fullname@, r@),
{
    let n = fullname.unicode_len();
    let mut k: usize = 0;
    while k < n && fullname.get_char(k) != '.'
        invariant
            k <= n,
            n == fullname@.len(),
            forall|j: int| 0 <= j < k ==> fullname@[j] != '.',
        decreases n - k,
    {
        k += 1;
    }
    let r = fullname.substring_char(0, k).to_owned();
    assert(r@ =~= fullname@.take(k as int));
    assert(k == n || fullname@[k as int] == '.');
    proof {
        lemma_first_label_witness(fullname@, r@, k as int);
    }
    r
}

/// Why a discovery operation could not be carried out.
#[derive(Clone, Copy, Debug, PartialEq, Eq, Structural)]
pub enum DiscoveryError {
    /// The manager runs without an mDNS daemon.
    DaemonUnavailable,
}

/// Discovery state of one engine: the peer table, the device id under which this device is
/// advertised, and whether an mDNS daemon backs it.
pub struct DiscoveryManager {
    peers: PeerTable,
    self_id: String,
    our_service: Option<String>,
    fallback_mode: bool,
}

impl DiscoveryManager {
    pub closed spec fn wf(&self) -> bool {
        &&& self.peers.wf()
        &&& !self.peers.view_map().contains_key(self.self_id@)
    }

    /// Peers by device id.
    pub closed spec fn peer_map(&self) -> Map<Seq<char>, PeerView> {
        self.peers.view_map()
    }

    pub closed spec fn spec_fallback(&self) -> bool {
        self.fallback_mode
    }

    /// The device id under which this device is advertised, if registered.
    /// This device's id: never an entry of the table.
    pub closed spec fn spec_self_id(&self) -> Seq<char> {
        self.self_id@
    }

    pub closed spec fn spec_our_id(&self) -> Option<Seq<char>> {
        match self.our_service {
            Some(s) => Some(s@),
            None => None,
        }
    }

    /// A manager backed by an mDNS daemon.
    pub fn new(device_id: &str) -> (r: DiscoveryManager)
        ensures
            r.spec_self_id() == device_id@,
            r.wf(),
            !r.spec_fallback(),
            r.spec_our_id() is None,
            r.peer_map() == Map::<Seq<char>, PeerView>::empty(),
    {
        DiscoveryManager {
            peers: PeerTable::new(),
            self_id: device_id.to_owned(),
            our_service: None,
            fallback_mode: false,
        }
    }

    /// A manager without mDNS: manual peers and beacons only.
    pub fn new_fallback(device_id: &str) -> (r: DiscoveryManager)
        ensures
            r.spec_self_id() == device_id@,
            r.wf(),
            r.spec_fallback(),
            r.spec_our_id() is None,
            r.peer_map() == Map::<Seq<char>, PeerView>::empty(),
    {
        DiscoveryManager {
            peers: PeerTable::new(),
            self_id: device_id.to_owned(),
            our_service: None,
            fallback_mode: true,
        }
    }

    /// A daemon became available: the manager leaves fallback mode, keeping its peers.
    pub fn upgrade(&mut self)
        requires
            old(self).wf(),
        ensures
            final(self).wf(),
            !final(self).spec_fallback(),
            final(self).peer_map() == old(self).peer_map(),
            final(self).spec_our_id() == old(self).spec_our_id(),
            final(self).spec_self_id() == old(self).spec_self_id(),
    {
        self.fallback_mode = false;
    }

    pub fn is_fallback(&self) -> (r: bool)
        ensures
            r == self.spec_fallback(),
    {
        self.fallback_mode
    }

    /// The device id this device is advertised under, if any.
    pub fn our_id(&self) -> (r: Option<&String>)
        ensures
            r matches Some(s) ==> self.spec_our_id() == Some(s@),
            r is None ==> self.spec_our_id() is None,
    {
        match &self.our_service {
            Some(s) => Some(s),
            None => None,
        }
    }

    /// Records that the service is advertised under `device_id`; refused without a daemon.
    pub fn register_service(&mut self, device_id: &str) -> (r: Result<(), DiscoveryError>)
        requires
            old(self).wf(),
        ensures
            final(self).wf(),
            r is Err <==> old(self).spec_fallback(),
            r is Ok ==> final(self).spec_our_id() == Some(device_id@),
            r is Err ==> final(self).spec_our_id() == old(self).spec_our_id(),
            final(self).spec_fallback() == old(self).spec_fallback(),
            final(self).spec_self_id() == old(self).spec_self_id(),
            final(self).peer_map() == old(self).peer_map(),
    {
        if self.fallback_mode {
            return Err(DiscoveryError::DaemonUnavailable);
        }
        self.our_service = Some(device_id.to_owned());
        Ok(())
    }

    /// Full mDNS name of this device's service, if it is advertised.
    pub fn service_fullname(&self) -> (r: Option<String>)
        ensures
            r is Some <==> self.spec_our_id() is Some,
            r matches Some(s) ==> s@ == self.spec_our_id().unwrap() + "."@ + SERVICE_TYPE@,
    {
        match &self.our_service {
            Some(id) => {
                let mut s = id.clone();
                s.append(".");
                s.append(SERVICE_TYPE);
                Some(s)
            },
            None => None,
        }
    }

    /// Stops advertising: returns the full name to withdraw from mDNS, if any.
    pub fn unregister(&mut self) -> (r: Option<String>)
        requires
            old(self).wf(),
        ensures
            final(self).wf(),
            final(self).spec_our_id() is None,
            r is Some <==> old(self).spec_our_id() is Some && !old(self).spec_fallback(),
            r matches Some(s) ==> s@ == old(self).spec_our_id().unwrap() + "."@ + SERVICE_TYPE@,
            final(self).spec_fallback() == old(self).spec_fallback(),
            final(self).spec_self_id() == old(self).spec_self_id(),
            final(self).peer_map() == old(self).peer_map(),
    {
        let name = if self.fallback_mode {
            None
        } else {
            self.service_fullname()
        };
        self.our_service = None;
        name
    }

    /// Every known peer, one per device id; this device is never among them.
    pub fn get_peers(&self) -> (r: Vec<DiscoveredPeer>)
        requires
            self.wf(),
        ensures
            forall|i: int| 0 <= i < r@.len() ==> #[trigger] self.peer_map().contains_key(r@[i]@.device_id)
                && self.peer_map()[r@[i]@.device_id] == r@[i]@,
            forall|id: Seq<char>| #[trigger] self.peer_map().contains_key(id) ==> exists|i: int|
                0 <= i < r@.len() && r@[i]@.device_id == id,
            forall|i: int, j: int|
                0 <= i < r@.len() && 0 <= j < r@.len() && i != j ==> #[trigger] r@[i]@.device_id
                    != #[trigger] r@[j]@.device_id,
            forall|i: int| 0 <= i < r@.len() ==> self.spec_self_id() != #[trigger] r@[i]@.device_id,
    {
        let r = self.peers.snapshot();
        proof {
            let s = self.peers.entries();
            assert forall|i: int, j: int|
                0 <= i < r@.len() && 0 <= j < r@.len() && i != j implies #[trigger] r@[i]@.device_id
                != #[trigger] r@[j]@.device_id by {
                assert(r@.map_values(|p: DiscoveredPeer| p@)[i] == s[i]);
                assert(r@.map_values(|p: DiscoveredPeer| p@)[j] == s[j]);
            }
        }
        r
    }

    /// Adds or replaces a peer entered by hand; this device's own id is not added.
    pub fn add_manual_peer(&mut self, device_id: String, device_name: String, ip: IpAddress, port: u16)
        requires
            old(self).wf(),
        ensures
            final(self).wf(),
            old(self).spec_self_id() != device_id@ ==> final(self).peer_map() == old(self).peer_map().insert(
                device_id@,
                PeerView { device_id: device_id@, device_name: device_name@, addresses: seq![ip], port },
            ),
            old(self).spec_self_id() == device_id@ ==> final(self).peer_map() == old(self).peer_map(),
            final(self).spec_our_id() == old(self).spec_our_id(),
            final(self).spec_fallback() == old(self).spec_fallback(),
            final(self).spec_self_id() == old(self).spec_self_id(),
    {
        let own = self.self_id == device_id;
        if own {
            return;
        }
        let mut addresses: Vec<IpAddress> = Vec::new();
        addresses.push(ip);
        let peer = DiscoveredPeer { device_id, device_name, addresses, port };
        assert(peer@.addresses =~= seq![ip]);
        self.peers.upsert(peer);
    }

    /// Handles a datagram from the beacon listener: a whole Hello from another device becomes the
    /// latest observation of that device, reachable at the datagram's source address. Returns
    /// whether the table changed.
    pub fn on_hello(&mut self, packet: &[u8], from: IpAddress) -> (r: bool)
        requires
            old(self).wf(),
        ensures
            final(self).wf(),
            final(self).spec_our_id() == old(self).spec_our_id(),
            final(self).spec_fallback() == old(self).spec_fallback(),
            final(self).spec_self_id() == old(self).spec_self_id(),
            r <==> (parse_hello(packet@) matches Some(h) && old(self).spec_self_id() != h.device_id),
            r ==> final(self).peer_map() == old(self).peer_map().insert(
                parse_hello(packet@).unwrap().device_id,
                PeerView {
                    device_id: parse_hello(packet@).unwrap().device_id,
                    device_name: parse_hello(packet@).unwrap().device_name,
                    addresses: seq![from],
                    port: parse_hello(packet@).unwrap().port,
                },
            ),
            !r ==> final(self).peer_map() == old(self).peer_map(),
    {
        match parse_hello_packet(packet) {
            None => false,
            Some(hello) => {
                let own = self.self_id == hello.device_id;
                if own {
                    return false;
                }
                let mut addresses: Vec<IpAddress> = Vec::new();
                addresses.push(from);
                let peer = DiscoveredPeer {
                    device_id: hello.device_id,
                    device_name: hello.device_name,
                    addresses,
                    port: hello.port,
                };
                assert(peer@.addresses =~= seq![from]);
                self.peers.upsert(peer);
                true
            },
        }
    }

    /// Handles a resolved mDNS service. The `id` property names the device (empty if absent);
    /// the `name` property, or else the full name, is its display name. Returns the new entry,
    /// or `None` when the service is this device's own.
    pub fn on_service_resolved(
        &mut self,
        id_property: Option<String>,
        name_property: Option<String>,
        fullname: String,
        addresses: Vec<IpAddress>,
        port: u16,
    ) -> (r: Option<DiscoveredPeer>)
        requires
            old(self).wf(),
        ensures
            final(self).wf(),
            final(self).spec_our_id() == old(self).spec_our_id(),
            final(self).spec_fallback() == old(self).spec_fallback(),
            final(self).spec_self_id() == old(self).spec_self_id(),
            ({
                let id = match id_property {
                    Some(s) => s@,
                    None => Seq::<char>::empty(),
                };
                let name = match name_property {
                    Some(s) => s@,
                    None => fullname@,
                };
                let p = PeerView { device_id: id, device_name: name, addresses: addresses@, port };
                &&& (r is None <==> old(self).spec_self_id() == id)
                &&& (r is None ==> final(self).peer_map() == old(self).peer_map())
                &&& (r matches Some(q) ==> q@ == p && final(self).peer_map() == old(self).peer_map().insert(id, p))
            }),
    {
        let id = match id_property {
            Some(s) => s,
            None => String::new(),
        };
        let own = self.self_id == id;
        if own {
            return None;
        }
        let name = match name_property {
            Some(s) => s,
            None => fullname,
        };
        let peer = DiscoveredPeer { device_id: id, device_name: name, addresses, port };
        let found = peer.copy();
        self.peers.upsert(peer);
        Some(found)
    }

    /// Handles a removed mDNS service: forgets the device its full name carries, and returns
    /// that device id.
    pub fn on_service_removed(&mut self, fullname: &str) -> (r: String)
        requires
            old(self).wf(),
        ensures
            final(self).wf(),
            is_first_label(fullname@, r@),
            final(self).peer_map() == old(self).peer_map().remove(r@),
            final(self).spec_our_id() == old(self).spec_our_id(),
            final(self).spec_fallback() == old(self).spec_fallback(),
            final(self).spec_self_id() == old(self).spec_self_id(),
    {
        let id = device_id_from_fullname(fullname);
        self.peers.remove(&id);
        id
    }
}

} // verus!
