//! The devices found on the network as the desktop window lists them: one
//! entry per service name, in the order found.

use vstd::prelude::*;
use crate::shared::discovery::DiscoveredPeer;
use crate::text::str_eq;

verus! {

/// The service names of `peers`, in order.
pub open spec fn names_of(peers: Seq<DiscoveredPeer>) -> Seq<Seq<char>> {
    peers.map_values(|p: DiscoveredPeer| p.fullname@)
}

/// Keeps the devices whose service name is not `name`.
pub open spec fn other_than(name: Seq<char>) -> spec_fn(DiscoveredPeer) -> bool {
    |p: DiscoveredPeer| p.fullname@ != name
}

/// A row of the device list: identifier, platform, the first address
/// (empty when there is none) and the port.
#[derive(Debug, Clone)]
pub struct DeviceRow {
    pub device_id: String,
    pub platform: String,
    pub address: String,
    pub port: i32,
}

/// The devices found, each service name once.
pub struct PeerList {
    pub peers: Vec<DiscoveredPeer>,
}

impl PeerList {
    /// The list's invariant: no service name twice.
    pub open spec fn wf(&self) -> bool {
        forall|i: int, j: int|
            0 <= i < j < self.peers@.len() ==> self.peers@[i].fullname@ != self.peers@[j].fullname@
    }

    /// Whether a device with service name `name` is listed.
    pub open spec fn lists(&self, name: Seq<char>) -> bool {
        names_of(self.peers@).contains(name)
    }

    /// An empty list.
    pub fn new() -> (r: Self)
        ensures
            r.wf(),
            r.peers@.len() == 0,
    {
        PeerList { peers: Vec::new() }
    }

    /// Whether a device with this service name is listed.
    fn position_of(&self, name: &String) -> (r: Option<usize>)
        ensures
            match r {
                Some(i) => i < self.peers@.len() && self.peers@[i as int].fullname@ == name@,
                None => !self.lists(name@),
            },
    {
        let mut i: usize = 0;
        while i < self.peers.len()
            invariant
                i <= self.peers@.len(),
                forall|k: int| 0 <= k < i ==> self.peers@[k].fullname@ != name@,
            decreases self.peers.len() - i,
        {
            if str_eq(self.peers[i].fullname.as_str(), name.as_str()) {
                return Some(i);
            }
            i = i + 1;
        }
        assert forall|k: int| 0 <= k < names_of(self.peers@).len() implies names_of(self.peers@)[k] != name@ by {}
        None
    }

    /// A device was found: it is added at the end unless its service name
    /// is listed already. Returns whether it was added.
    pub fn on_discovered(&mut self, peer: DiscoveredPeer) -> (r: bool)
        requires
            old(self).wf(),
        ensures
            final(self).wf(),
            r == !old(self).lists(peer.fullname@),
            r ==> final(self).peers@ == old(self).peers@.push(peer),
            !r ==> final(self).peers@ == old(self).peers@,
    {
        match self.position_of(&peer.fullname) {
            Some(i) => {
                assert(names_of(self.peers@)[i as int] == peer.fullname@);
                false
            },
            None => {
                let ghost before = self.peers@;
                self.peers.push(peer);
                assert forall|i: int, j: int| 0 <= i < j < self.peers@.len() implies self.peers@[i].fullname@
                    != self.peers@[j].fullname@ by {
                    if j == before.len() {
                        assert(names_of(before)[i] == before[i].fullname@);
                    }
                }
                true
            },
        }
    }

    /// A device went away: every entry with its service name is dropped,
    /// the others keep their order.
    pub fn on_lost(&mut self, fullname: &String)
        requires
            old(self).wf(),
        ensures
            final(self).wf(),
            final(self).peers@ == old(self).peers@.filter(other_than(fullname@)),
            !final(self).lists(fullname@),
    {
        let ghost name = fullname@;
        let mut kept: Vec<DiscoveredPeer> = Vec::new();
        let mut old_peers: Vec<DiscoveredPeer> = Vec::new();
        std::mem::swap(&mut old_peers, &mut self.peers);
        let ghost src = old_peers@;
        let total: usize = old_peers.len();
        let mut i: usize = 0;
        assert(src.skip(0) =~= src);
        while old_peers.len() > 0
            invariant
                src.len() == total,
                i <= src.len(),
                old_peers@ == src.skip(i as int),
                src == old(self).peers@,
                name == fullname@,
                kept@ == src.take(i as int).filter(other_than(name)),
            decreases old_peers.len(),
        {
            let p = old_peers.remove(0);
            assert(p == src[i as int]);
            assert(src.take(i + 1).drop_last() =~= src.take(i as int));
            assert(src.take(i + 1).last() == src[i as int]);
            assert(old_peers@ =~= src.skip(i + 1));
            proof {
                reveal(Seq::filter);
            }
            if !str_eq(p.fullname.as_str(), fullname.as_str()) {
                kept.push(p);
                assert(kept@ =~= src.take(i + 1).filter(other_than(name)));
            }
            i = i + 1;
        }
        assert(src.take(i as int) =~= src);
        self.peers = kept;
        assert forall|i: int, j: int| 0 <= i < j < self.peers@.len() implies self.peers@[i].fullname@
            != self.peers@[j].fullname@ by {
            crate::shared::database::lemma_filter_keeps_order(src, other_than(name));
            let fs = src.filter(other_than(name));
            let (pa, pb) = choose|pa: int, pb: int|
                0 <= pa < pb < src.len() && src[pa] == fs[i] && src[pb] == fs[j];
        }
        assert forall|k: int| 0 <= k < names_of(self.peers@).len() implies names_of(self.peers@)[k] != name by {
            src.lemma_filter_pred(other_than(name), k);
        }
    }

    /// The rows of the device list, in order.
    pub fn device_rows(&self) -> (r: Vec<DeviceRow>)
        ensures
            r@.len() == self.peers@.len(),
            forall|i: int|
                0 <= i < r@.len() ==> {
                    let p = self.peers@[i];
                    &&& (#[trigger] r@[i]).device_id@ == p.device_id@
                    &&& r@[i].platform@ == p.platform@
                    &&& r@[i].address@ == if p.addresses@.len() > 0 {
                        p.addresses@[0]@
                    } else {
                        Seq::empty()
                    }
                    &&& r@[i].port == p.port as i32
                },
    {
        let mut out: Vec<DeviceRow> = Vec::new();
        let mut i: usize = 0;
        while i < self.peers.len()
            invariant
                i <= self.peers@.len(),
                out@.len() == i,
                forall|k: int|
                    0 <= k < i ==> {
                        let p = self.peers@[k];
                        &&& (#[trigger] out@[k]).device_id@ == p.device_id@
                        &&& out@[k].platform@ == p.platform@
                        &&& out@[k].address@ == if p.addresses@.len() > 0 {
                            p.addresses@[0]@
                        } else {
                            Seq::empty()
                        }
                        &&& out@[k].port == p.port as i32
                    },
            decreases self.peers.len() - i,
        {
            let p = &self.peers[i];
            let address = if p.addresses.len() > 0 {
                p.addresses[0].clone()
            } else {
                String::new()
            };
            out.push(
                DeviceRow {
                    device_id: p.device_id.clone(),
                    platform: p.platform.clone(),
                    address,
                    port: p.port as i32,
                },
            );
            i = i + 1;
        }
        out
    }
}

} // verus!
