//! The registry of connected peers.

use vstd::prelude::*;
use crate::communication::{Message, PeerAddr};

verus! {

/// One live connection: its address, the job that is in flight on it if
/// there is one (named by the millisecond at which it was created), and the
/// sending end of its outbound channel.
#[derive(Debug)]
pub struct Peer<T> {
    pub addr: PeerAddr,
    pub job: Option<u128>,
    pub outbound: T,
}

/// A message that is to be put on the outbound channel of a peer.
#[derive(Debug)]
pub struct Notice<T> {
    pub addr: PeerAddr,
    pub outbound: T,
    pub message: Message,
}

/// Whether no two of `peers` have the same address.
pub open spec fn distinct_addresses<T>(peers: Seq<Peer<T>>) -> bool {
    forall|i: int, j: int|
        0 <= i < j < peers.len() ==> (#[trigger] peers[i]).addr != (#[trigger] peers[j]).addr
}

/// Whether a peer with this address is among `peers`.
pub open spec fn has_peer<T>(peers: Seq<Peer<T>>, addr: PeerAddr) -> bool {
    exists|i: int| 0 <= i < peers.len() && (#[trigger] peers[i]).addr == addr
}

/// The position of the peer with this address among `peers`, where there
/// is one.
pub open spec fn position<T>(peers: Seq<Peer<T>>, addr: PeerAddr) -> int {
    choose|i: int| 0 <= i < peers.len() && (#[trigger] peers[i]).addr == addr
}

/// The close notices for `peers`: one for each, in their order.
pub open spec fn close_notices<T>(peers: Seq<Peer<T>>) -> Seq<Notice<T>> {
    Seq::new(
        peers.len(),
        |i: int|
            Notice { addr: peers[i].addr, outbound: peers[i].outbound, message: Message::Close },
    )
}

/// The peers that are connected, each under its address, in the order in
/// which they registered.
pub struct PeerRegistry<T> {
    peers: Vec<Peer<T>>,
}

impl<T> PeerRegistry<T> {
    /// The registered peers, in the order in which they registered.
    pub closed spec fn view(&self) -> Seq<Peer<T>> {
        self.peers@
    }

    /// No address is registered twice.
    #[verifier::type_invariant]
    pub closed spec fn well_formed(&self) -> bool {
        distinct_addresses(self.peers@)
    }

    /// Where `addr` is registered, it is registered at one position only.
    pub proof fn lemma_position(&self, addr: PeerAddr, i: int)
        requires
            distinct_addresses(self@),
            0 <= i < self@.len(),
            self@[i].addr == addr,
        ensures
            has_peer(self@, addr),
            position(self@, addr) == i,
    {
        let p = position(self@, addr);
        if p < i {
            assert(self@[p].addr != self@[i].addr);
        } else if i < p {
            assert(self@[i].addr != self@[p].addr);
        }
    }

    /// A registry without peers.
    pub fn new() -> (r: Self)
        ensures
            r@.len() == 0,
    {
        PeerRegistry { peers: Vec::new() }
    }

    /// The number of registered peers.
    pub fn len(&self) -> (r: usize)
        ensures
            r == self@.len(),
            distinct_addresses(self@),
    {
        proof {
            use_type_invariant(self);
        }
        self.peers.len()
    }

    /// The position at which `addr` is registered.
    fn find(&self, addr: PeerAddr) -> (r: Option<usize>)
        ensures
            distinct_addresses(self@),
            match r {
                Some(i) => has_peer(self@, addr) && i == position(self@, addr) && i < self@.len(),
                None => !has_peer(self@, addr),
            },
    {
        proof {
            use_type_invariant(self);
        }
        let mut i: usize = 0;
        while i < self.peers.len()
            invariant
                i <= self.peers.len(),
                distinct_addresses(self.peers@),
                forall|j: int| 0 <= j < i ==> (#[trigger] self.peers@[j]).addr != addr,
            decreases self.peers.len() - i,
        {
            if self.peers[i].addr == addr {
                proof {
                    self.lemma_position(addr, i as int);
                }
                return Some(i);
            }
            i = i + 1;
        }
        None
    }

    /// Whether a peer is registered under `addr`.
    pub fn contains(&self, addr: PeerAddr) -> (r: bool)
        ensures
            r == has_peer(self@, addr),
    {
        self.find(addr).is_some()
    }

    /// The job that is in flight on the connection of `addr`: none where no
    /// peer is registered under it or no job is in flight.
    pub fn job_of(&self, addr: PeerAddr) -> (r: Option<u128>)
        ensures
            r == if has_peer(self@, addr) {
                self@[position(self@, addr)].job
            } else {
                None
            },
    {
        match self.find(addr) {
            Some(i) => self.peers[i].job,
            None => None,
        }
    }

    /// Registers a peer under `addr`, with no job in flight. A peer that
    /// was registered under the same address gives way and is handed back;
    /// the others stay as they are, in their order.
    pub fn register(&mut self, addr: PeerAddr, outbound: T) -> (r: Option<Peer<T>>)
        ensures
            distinct_addresses(old(self)@),
            distinct_addresses(final(self)@),
            has_peer(final(self)@, addr),
            match r {
                Some(previous) => {
                    &&& has_peer(old(self)@, addr)
                    &&& previous == old(self)@[position(old(self)@, addr)]
                    &&& final(self)@ == old(self)@.update(
                        position(old(self)@, addr),
                        Peer { addr, job: None, outbound },
                    )
                },
                None => {
                    &&& !has_peer(old(self)@, addr)
                    &&& final(self)@ == old(self)@.push(Peer { addr, job: None, outbound })
                },
            },
    {
        let peer = Peer { addr, job: None, outbound };
        match self.find(addr) {
            Some(i) => {
                let mut peers: Vec<Peer<T>> = Vec::new();
                core::mem::swap(&mut peers, &mut self.peers);
                peers.push(peer);
                let previous = peers.swap_remove(i);
                self.peers = peers;
                assert(self.peers@ =~= old(self)@.update(i as int, peer));
                assert(self.peers@[i as int].addr == addr);
                Some(previous)
            },
            None => {
                let mut peers: Vec<Peer<T>> = Vec::new();
                core::mem::swap(&mut peers, &mut self.peers);
                peers.push(peer);
                self.peers = peers;
                assert(self.peers@[self.peers@.len() - 1].addr == addr);
                None
            },
        }
    }

    /// Removes the peer that is registered under `addr` and hands it back.
    /// The others stay as they are, in their order. Where no peer is
    /// registered under `addr`, nothing changes.
    pub fn deregister(&mut self, addr: PeerAddr) -> (r: Option<Peer<T>>)
        ensures
            distinct_addresses(old(self)@),
            distinct_addresses(final(self)@),
            !has_peer(final(self)@, addr),
            match r {
                Some(peer) => {
                    &&& has_peer(old(self)@, addr)
                    &&& peer == old(self)@[position(old(self)@, addr)]
                    &&& final(self)@ == old(self)@.remove(position(old(self)@, addr))
                },
                None => !has_peer(old(self)@, addr) && final(self)@ == old(self)@,
            },
    {
        match self.find(addr) {
            Some(i) => {
                let mut peers: Vec<Peer<T>> = Vec::new();
                core::mem::swap(&mut peers, &mut self.peers);
                let peer = peers.remove(i);
                self.peers = peers;
                assert forall|j: int| 0 <= j < self.peers@.len() implies (
                #[trigger] self.peers@[j]).addr != addr by {
                    if j < i {
                        assert(old(self)@[j].addr != old(self)@[i as int].addr);
                    } else {
                        assert(old(self)@[i as int].addr != old(self)@[j + 1].addr);
                    }
                }
                Some(peer)
            },
            None => None,
        }
    }

    /// Notes which job is in flight on the connection of `addr`, or that
    /// none is. Says whether a peer is registered under `addr`; where none
    /// is, nothing changes.
    pub fn set_job(&mut self, addr: PeerAddr, job: Option<u128>) -> (r: bool)
        ensures
            distinct_addresses(old(self)@),
            distinct_addresses(final(self)@),
            r == has_peer(old(self)@, addr),
            final(self)@.len() == old(self)@.len(),
            forall|i: int|
                0 <= i < old(self)@.len() ==> (#[trigger] final(self)@[i]).addr == old(
                    self,
                )@[i].addr && final(self)@[i].outbound == old(self)@[i].outbound,
            forall|i: int|
                0 <= i < old(self)@.len() ==> (#[trigger] final(self)@[i]).job == if r && i
                    == position(old(self)@, addr) {
                    job
                } else {
                    old(self)@[i].job
                },
    {
        match self.find(addr) {
            Some(i) => {
                let mut peers: Vec<Peer<T>> = Vec::new();
                core::mem::swap(&mut peers, &mut self.peers);
                let mut peer = peers.remove(i);
                peer.job = job;
                peers.insert(i, peer);
                self.peers = peers;
                true
            },
            None => false,
        }
    }

    /// Empties the registry and gives, for each peer that was registered, the
    /// notice that asks it to close: one for each, in the order in which the
    /// peers registered.
    pub fn close_all(&mut self) -> (r: Vec<Notice<T>>)
        ensures
            final(self)@.len() == 0,
            r@ == close_notices(old(self)@),
    {
        let mut peers: Vec<Peer<T>> = Vec::new();
        core::mem::swap(&mut peers, &mut self.peers);
        let ghost all = peers@;
        let mut notices: Vec<Notice<T>> = Vec::new();
        while peers.len() > 0
            invariant
                peers@.len() <= all.len(),
                notices@.len() + peers@.len() == all.len(),
                forall|i: int| 0 <= i < peers@.len() ==> peers@[i] == all[i],
                forall|i: int|
                    0 <= i < notices@.len() ==> (#[trigger] notices@[i]) == close_notices(all)[all.len()
                        - 1 - i],
            decreases peers@.len(),
        {
            let peer = peers.pop().unwrap();
            notices.push(Notice { addr: peer.addr, outbound: peer.outbound, message: Message::Close });
        }
        let mut ordered: Vec<Notice<T>> = Vec::new();
        while notices.len() > 0
            invariant
                ordered@.len() + notices@.len() == all.len(),
                forall|i: int|
                    0 <= i < notices@.len() ==> (#[trigger] notices@[i]) == close_notices(all)[all.len()
                        - 1 - i],
                forall|i: int|
                    0 <= i < ordered@.len() ==> (#[trigger] ordered@[i]) == close_notices(all)[i],
            decreases notices@.len(),
        {
            let notice = notices.pop().unwrap();
            ordered.push(notice);
        }
        assert(ordered@ =~= close_notices(all));
        ordered
    }
}

} // verus!
