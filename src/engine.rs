//! The engine handle's state: this device's identity and its discovery manager.
use vstd::prelude::*;
use crate::crypto::DeviceIdentity;
use crate::peers::{DiscoveryManager, PeerView};

verus! {

/// What the host sees of discovery.
pub struct DiscoveryStatus {
    pub active: bool,
    pub fallback: bool,
    pub our_id: Option<Seq<char>>,
    pub peers: Map<Seq<char>, PeerView>,
}

/// Discovery status after starting it: a fresh manager, in fallback mode without a daemon,
/// advertised under this device's id when registration succeeded.
pub open spec fn started_status(device_id: Seq<char>, daemon_ok: bool, registered: bool) -> DiscoveryStatus {
    DiscoveryStatus {
        active: true,
        fallback: !daemon_ok,
        our_id: if daemon_ok && registered {
            Some(device_id)
        } else {
            None
        },
        peers: Map::empty(),
    }
}

/// Discovery status after a start from status `before`. A first start makes a fresh manager;
/// a start while discovery runs keeps its peers and registration, and only upgrades a fallback
/// manager when a daemon is now available (registering then if the host did).
pub open spec fn after_start(before: DiscoveryStatus, device_id: Seq<char>, daemon_ok: bool, registered: bool) -> DiscoveryStatus {
    if !before.active {
        started_status(device_id, daemon_ok, registered)
    } else {
        DiscoveryStatus {
            active: true,
            fallback: before.fallback && !daemon_ok,
            our_id: if before.our_id is Some {
                before.our_id
            } else if daemon_ok && registered {
                Some(device_id)
            } else {
                None
            },
            peers: before.peers,
        }
    }
}

/// One engine: identity and discovery.
pub struct Engine {
    identity: DeviceIdentity,
    discovery: Option<DiscoveryManager>,
}

impl Engine {
    pub closed spec fn spec_device_id(&self) -> Seq<char> {
        self.identity.device_id@
    }

    pub closed spec fn status(&self) -> DiscoveryStatus {
        match self.discovery {
            Some(d) => DiscoveryStatus {
                active: true,
                fallback: d.spec_fallback(),
                our_id: d.spec_our_id(),
                peers: d.peer_map(),
            },
            None => DiscoveryStatus {
                active: false,
                fallback: true,
                our_id: None,
                peers: Map::empty(),
            },
        }
    }

    pub closed spec fn wf(&self) -> bool {
        self.discovery matches Some(d) ==> d.wf() && d.spec_self_id() == self.identity.device_id@
    }

    /// An engine for `identity`, discovery not started.
    pub fn new(identity: DeviceIdentity) -> (r: Engine)
        ensures
            r.wf(),
            r.spec_device_id() == identity.device_id@,
            !r.status().active,
    {
        Engine { identity, discovery: None }
    }

    pub fn identity(&self) -> (r: &DeviceIdentity)
        ensures
            r.device_id@ == self.spec_device_id(),
    {
        &self.identity
    }

    /// Starts discovery: a manager backed by mDNS when `daemon_ok`, else a fallback one, which
    /// records this device's id when the host's registration succeeded. Starting always
    /// succeeds; calling it again replaces the manager.
    pub fn start_discovery(&mut self, daemon_ok: bool, registered: bool)
        requires
            old(self).wf(),
        ensures
            final(self).wf(),
            final(self).spec_device_id() == old(self).spec_device_id(),
            final(self).status() == after_start(old(self).status(), old(self).spec_device_id(), daemon_ok, registered),
    {
        let mut m = match self.discovery.take() {
            Some(m) => m,
            None => {
                let mut m = if daemon_ok {
                    DiscoveryManager::new(self.identity.device_id.as_str())
                } else {
                    DiscoveryManager::new_fallback(self.identity.device_id.as_str())
                };
                if daemon_ok && registered {
                    let _ = m.register_service(self.identity.device_id.as_str());
                }
                self.discovery = Some(m);
                return;
            },
        };
        if daemon_ok && m.is_fallback() {
            m.upgrade();
        }
        if daemon_ok && registered && m.our_id().is_none() {
            let _ = m.register_service(self.identity.device_id.as_str());
        }
        self.discovery = Some(m);
    }

    /// Stops discovery; returns the manager so the host can withdraw its service.
    pub fn stop_discovery(&mut self) -> (r: Option<DiscoveryManager>)
        requires
            old(self).wf(),
        ensures
            final(self).wf(),
            !final(self).status().active,
            final(self).spec_device_id() == old(self).spec_device_id(),
            r is Some == old(self).status().active,
            r matches Some(d) ==> d.wf() && d.peer_map() == old(self).status().peers && d.spec_our_id()
                == old(self).status().our_id && d.spec_fallback() == old(self).status().fallback,
    {
        self.discovery.take()
    }

    /// The discovery manager, once started.
    pub fn discovery(&self) -> (r: Option<&DiscoveryManager>)
        requires
            self.wf(),
        ensures
            r is Some == self.status().active,
            r matches Some(d) ==> d.wf() && d.peer_map() == self.status().peers && d.spec_our_id()
                == self.status().our_id && d.spec_fallback() == self.status().fallback,
    {
        match &self.discovery {
            Some(d) => Some(d),
            None => None,
        }
    }

    /// Removes the manager, for the host to update it and put it back.
    pub fn take_discovery(&mut self) -> (r: Option<DiscoveryManager>)
        requires
            old(self).wf(),
        ensures
            final(self).wf(),
            r is Some == old(self).status().active,
            r matches Some(d) ==> d.wf() && d.peer_map() == old(self).status().peers && d.spec_our_id()
                == old(self).status().our_id && d.spec_fallback() == old(self).status().fallback
                && d.spec_self_id() == old(self).spec_device_id(),
            !final(self).status().active,
            final(self).spec_device_id() == old(self).spec_device_id(),
    {
        self.discovery.take()
    }

    /// Puts a manager back.
    pub fn put_discovery(&mut self, d: DiscoveryManager)
        requires
            old(self).wf(),
            d.wf(),
            d.spec_self_id() == old(self).spec_device_id(),
        ensures
            final(self).wf(),
            final(self).status().active,
            final(self).status().peers == d.peer_map(),
            final(self).status().our_id == d.spec_our_id(),
            final(self).status().fallback == d.spec_fallback(),
            final(self).spec_device_id() == old(self).spec_device_id(),
    {
        self.discovery = Some(d);
    }
}

/// Starting discovery twice in a row, with the same outcomes of daemon creation and
/// registration, leaves the same status as starting it once.
pub proof fn lemma_start_discovery_idempotent(
    before: DiscoveryStatus,
    device_id: Seq<char>,
    daemon_ok: bool,
    registered: bool,
)
    ensures
        after_start(after_start(before, device_id, daemon_ok, registered), device_id, daemon_ok, registered)
            == after_start(before, device_id, daemon_ok, registered),
{
}

} // verus!
