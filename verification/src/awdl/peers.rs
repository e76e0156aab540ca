//! The peer table: one entry per peer address, created on first contact and
//! dropped after a timeout.

use vstd::prelude::*;
use vstd::string::StringExecFns;
use crate::awdl::election::{spec_tree_print, awdl_election_tree_print};
use crate::awdl::channel::{AwdlChan, chan_null, seq_is_static, awdl_chanseq_init_static};
use crate::awdl::election::{AwdlElectionState, ElectionView, awdl_election_state_init, is_self_master, AWDL_ELECTION_METRIC_INIT, AWDL_ELECTION_COUNTER_INIT};

verus! {

/// Longest peer name kept.
pub const HOST_NAME_LENGTH_MAX: usize = 64;

/// Peers not heard from for this long (microseconds) are dropped.
pub const PEERS_DEFAULT_TIMEOUT: u64 = 2_000_000;

/// How often (microseconds) the table is cleaned.
pub const PEERS_DEFAULT_CLEAN_INTERVAL: u64 = 1_000_000;

/// Outcome of adding a peer.
#[derive(Debug, Clone, Copy, PartialEq, Eq, Structural)]
pub enum PeersStatus {
    Update,
    Added,
    Missing,
    Internal,
}

/// One AWDL peer.
#[derive(Debug)]
pub struct AwdlPeer {
    pub addr: [u8; 6],
    pub last_update: u64,
    pub election: AwdlElectionState,
    pub sequence: [AwdlChan; 16],
    pub sync_offset: u64,
    pub name: String,
    pub country_code: String,
    pub infra_addr: [u8; 6],
    pub version: u8,
    pub devclass: u8,
    pub supports_v2: bool,
    pub sent_mif: bool,
    pub is_valid: bool,
}

/// A peer with arrays and strings as sequences.
pub struct PeerView {
    pub addr: Seq<u8>,
    pub last_update: u64,
    pub election: ElectionView,
    pub sequence: Seq<Seq<u8>>,
    pub sync_offset: u64,
    pub name: Seq<char>,
    pub country_code: Seq<char>,
    pub infra_addr: Seq<u8>,
    pub version: u8,
    pub devclass: u8,
    pub supports_v2: bool,
    pub sent_mif: bool,
    pub is_valid: bool,
}

impl View for AwdlPeer {
    type V = PeerView;

    open spec fn view(&self) -> PeerView {
        PeerView {
            addr: self.addr@,
            last_update: self.last_update,
            election: self.election@,
            sequence: self.sequence@.map_values(|c: AwdlChan| c.val@),
            sync_offset: self.sync_offset,
            name: self.name@,
            country_code: self.country_code@,
            infra_addr: self.infra_addr@,
            version: self.version,
            devclass: self.devclass,
            supports_v2: self.supports_v2,
            sent_mif: self.sent_mif,
            is_valid: self.is_valid,
        }
    }
}

/// Views of the peers of a table, in table order.
pub open spec fn peers_view(s: Seq<AwdlPeer>) -> Seq<PeerView> {
    s.map_values(|p: AwdlPeer| p@)
}

/// Index of the first peer view with address `a`, looking from `i` on.
pub open spec fn find_view_from(s: Seq<PeerView>, a: Seq<u8>, i: int) -> Option<int>
    decreases s.len() - i,
{
    if i < 0 || i >= s.len() {
        None
    } else if s[i].addr == a {
        Some(i)
    } else {
        find_view_from(s, a, i + 1)
    }
}

/// Index of the peer view with address `a`.
pub open spec fn find_view(s: Seq<PeerView>, a: Seq<u8>) -> Option<int> {
    find_view_from(s, a, 0)
}

proof fn lemma_find_view_from(s: Seq<AwdlPeer>, a: Seq<u8>, i: int)
    requires
        0 <= i,
    ensures
        find_view_from(peers_view(s), a, i) == find_from(s, a, i),
    decreases s.len() - i,
{
    if i < s.len() {
        lemma_find_view_from(s, a, i + 1);
    }
}

/// Looking a peer up by address gives the same index on the views.
pub proof fn lemma_find_view(s: Seq<AwdlPeer>, a: Seq<u8>)
    ensures
        find_view(peers_view(s), a) == find_peer(s, a),
        peers_view(s).len() == s.len(),
{
    lemma_find_view_from(s, a, 0);
}

/// The view of a table with one entry replaced.
pub proof fn lemma_peers_view_update(s: Seq<AwdlPeer>, i: int, p: AwdlPeer)
    requires
        0 <= i < s.len(),
    ensures
        peers_view(s.update(i, p)) == peers_view(s).update(i, p@),
{
    assert(peers_view(s.update(i, p)) =~= peers_view(s).update(i, p@));
}

/// The view of a peer right after it is first seen.
pub open spec fn fresh_view(addr: Seq<u8>) -> PeerView {
    PeerView {
        addr: addr,
        last_update: 0,
        election: ElectionView {
            master_addr: addr,
            sync_addr: addr,
            self_addr: addr,
            height: 0,
            master_metric: AWDL_ELECTION_METRIC_INIT,
            self_metric: AWDL_ELECTION_METRIC_INIT,
            master_counter: AWDL_ELECTION_COUNTER_INIT,
            self_counter: AWDL_ELECTION_COUNTER_INIT,
        },
        sequence: Seq::new(16, |i: int| seq![0u8, 0u8]),
        sync_offset: 0,
        name: Seq::empty(),
        country_code: seq!['N', 'A'],
        infra_addr: seq![0u8, 0u8, 0u8, 0u8, 0u8, 0u8],
        version: 0,
        devclass: 0,
        supports_v2: false,
        sent_mif: false,
        is_valid: false,
    }
}

/// A peer view counts as valid: it sent a MIF and announced device class and version.
pub open spec fn view_valid(p: PeerView) -> bool {
    p.sent_mif && p.devclass != 0 && p.version != 0
}

/// The view of a peer after contact at `now`.
pub open spec fn touched_view(p: PeerView, now: u64) -> PeerView {
    PeerView { last_update: now, is_valid: view_valid(p), ..p }
}

/// Adding or refreshing a peer, on views: the new table, the status and
/// whether the peer just became valid.
pub open spec fn spec_peer_add_view(ps: Seq<PeerView>, addr: Seq<u8>, now: u64) -> (Seq<PeerView>, PeersStatus, bool) {
    match find_view(ps, addr) {
        Some(i) => (ps.update(i, touched_view(ps[i], now)), PeersStatus::Update, !ps[i].is_valid && view_valid(ps[i])),
        None => (ps.push(touched_view(fresh_view(addr), now)), PeersStatus::Added, false),
    }
}

/// Replacing an entry by one with the same address keeps addresses unique.
pub proof fn lemma_unique_update(s: Seq<AwdlPeer>, i: int, p: AwdlPeer)
    requires
        unique_addrs(s),
        0 <= i < s.len(),
        p.addr@ == s[i].addr@,
    ensures
        unique_addrs(s.update(i, p)),
{
    let t = s.update(i, p);
    assert forall|a: int, b: int|
        0 <= a < t.len() && 0 <= b < t.len() && a != b implies (#[trigger] t[a]).addr@ != (
        #[trigger] t[b]).addr@ by {
        assert(t[a].addr@ == s[a].addr@);
        assert(t[b].addr@ == s[b].addr@);
    }
}

/// A peer as first seen: nothing known but its address.
pub open spec fn is_fresh_peer(p: AwdlPeer, addr: [u8; 6]) -> bool {
    &&& p.addr == addr
    &&& p.last_update == 0
    &&& p.election.self_addr == addr
    &&& p.election.self_metric == AWDL_ELECTION_METRIC_INIT
    &&& p.election.self_counter == AWDL_ELECTION_COUNTER_INIT
    &&& is_self_master(p.election)
    &&& p.sequence@.len() == 16
    &&& forall|i: int| 0 <= i < 16 ==> (#[trigger] p.sequence@[i]).val@ == seq![0u8, 0u8]
    &&& p.sync_offset == 0
    &&& p.name@ == Seq::<char>::empty()
    &&& p.country_code@ == seq!['N', 'A']
    &&& p.infra_addr@ == seq![0u8, 0u8, 0u8, 0u8, 0u8, 0u8]
    &&& p.version == 0
    &&& p.devclass == 0
    &&& !p.supports_v2
    &&& !p.sent_mif
    &&& !p.is_valid
}

/// A peer is valid once it sent a master indication frame and announced its
/// device class and version.
pub open spec fn spec_check_valid(p: AwdlPeer) -> bool {
    p.sent_mif && p.devclass != 0 && p.version != 0
}

impl AwdlPeer {
    /// A fresh peer with address `addr`.
    pub fn new(addr: [u8; 6]) -> (p: Self)
        ensures
            is_fresh_peer(p, addr),
    {
        let null = chan_null();
        let mut seq = [null;16];
        awdl_chanseq_init_static(&mut seq, &null);
        let mut election = AwdlElectionState::new(addr);
        awdl_election_state_init(&mut election, &addr);
        let na = String::from_str("NA");
        proof {
            reveal_strlit("NA");
        }
        let p = Self {
            addr,
            last_update: 0,
            election,
            sequence: seq,
            sync_offset: 0,
            name: String::new(),
            country_code: na,
            infra_addr: [0;6],
            version: 0,
            devclass: 0,
            supports_v2: false,
            sent_mif: false,
            is_valid: false,
        };
        assert(p.infra_addr@ =~= seq![0u8, 0u8, 0u8, 0u8, 0u8, 0u8]);
        assert(p.country_code@ == seq!['N', 'A']);
        assert(p.name@ == Seq::<char>::empty());
        assert(is_self_master(p.election));
        assert(forall|i: int| 0 <= i < 16 ==> (#[trigger] p.sequence@[i]).val@ == seq![0u8, 0u8]);
        p
    }

    fn check_valid(&self) -> (r: bool)
        ensures
            r == spec_check_valid(*self),
    {
        self.sent_mif && self.devclass != 0 && self.version != 0
    }
}

/// Index of the first peer in `s` with address `a`, looking from `i` on.
pub open spec fn find_from(s: Seq<AwdlPeer>, a: Seq<u8>, i: int) -> Option<int>
    decreases s.len() - i,
{
    if i < 0 || i >= s.len() {
        None
    } else if s[i].addr@ == a {
        Some(i)
    } else {
        find_from(s, a, i + 1)
    }
}

/// Index of the peer with address `a` in `s`.
pub open spec fn find_peer(s: Seq<AwdlPeer>, a: Seq<u8>) -> Option<int> {
    find_from(s, a, 0)
}

/// No address occurs twice.
pub open spec fn unique_addrs(s: Seq<AwdlPeer>) -> bool {
    forall|i: int, j: int|
        0 <= i < s.len() && 0 <= j < s.len() && i != j ==> (#[trigger] s[i]).addr@ != (
        #[trigger] s[j]).addr@
}

proof fn lemma_find_from(s: Seq<AwdlPeer>, a: Seq<u8>, i: int)
    requires
        0 <= i,
    ensures
        find_from(s, a, i) matches Some(k) ==> i <= k < s.len() && s[k].addr@ == a,
        find_from(s, a, i) is None ==> forall|k: int| i <= k < s.len() ==> s[k].addr@ != a,
    decreases s.len() - i,
{
    if i < s.len() {
        lemma_find_from(s, a, i + 1);
    }
}

/// Facts about `find_peer`: a hit has the address, a miss means no entry has it.
pub proof fn lemma_find_peer(s: Seq<AwdlPeer>, a: Seq<u8>)
    ensures
        find_peer(s, a) matches Some(k) ==> 0 <= k < s.len() && s[k].addr@ == a,
        find_peer(s, a) is None ==> forall|k: int| 0 <= k < s.len() ==> s[k].addr@ != a,
{
    lemma_find_from(s, a, 0);
}

/// In a table without duplicates, the entry with address `a` is found.
pub proof fn lemma_find_unique(s: Seq<AwdlPeer>, a: Seq<u8>, k: int)
    requires
        unique_addrs(s),
        0 <= k < s.len(),
        s[k].addr@ == a,
    ensures
        find_peer(s, a) == Some(k),
{
    lemma_find_peer(s, a);
}

/// The peer table.
#[derive(Debug)]
pub struct AwdlPeerState {
    pub peers: Vec<AwdlPeer>,
    pub timeout: u64,
    pub clean_interval: u64,
}

/// `p` after contact at `now`: timestamp updated, validity recomputed.
pub open spec fn touched(p: AwdlPeer, now: u64) -> AwdlPeer {
    AwdlPeer { last_update: now, is_valid: spec_check_valid(p), ..p }
}

impl AwdlPeerState {
    /// The table is well formed: no address occurs twice.
    pub open spec fn wf(&self) -> bool {
        unique_addrs(self.peers@)
    }

    /// An empty table with the default timeout and cleaning interval.
    pub fn new() -> (s: Self)
        ensures
            s.wf(),
            s.peers@.len() == 0,
            s.timeout == PEERS_DEFAULT_TIMEOUT,
            s.clean_interval == PEERS_DEFAULT_CLEAN_INTERVAL,
    {
        Self {
            peers: Vec::new(),
            timeout: PEERS_DEFAULT_TIMEOUT,
            clean_interval: PEERS_DEFAULT_CLEAN_INTERVAL,
        }
    }

    /// Number of peers.
    pub fn len(&self) -> (n: usize)
        ensures
            n == self.peers@.len(),
    {
        self.peers.len()
    }

    /// True when there are no peers.
    pub fn is_empty(&self) -> (b: bool)
        ensures
            b == (self.peers@.len() == 0),
    {
        self.peers.len() == 0
    }

    /// Index of the peer with address `addr`.
    pub fn find_index(&self, addr: &[u8; 6]) -> (r: Option<usize>)
        ensures
            r matches Some(i) ==> find_peer(self.peers@, addr@) == Some(i as int),
            r is None ==> find_peer(self.peers@, addr@) is None,
    {
        let mut i: usize = 0;
        while i < self.peers.len()
            invariant
                i <= self.peers@.len(),
                find_peer(self.peers@, addr@) == find_from(self.peers@, addr@, i as int),
            decreases self.peers@.len() - i,
        {
            if crate::awdl::election::ether_addr_eq(&self.peers[i].addr, addr) {
                return Some(i);
            }
            i += 1;
        }
        None
    }

    /// Add a peer, or refresh it when present: its timestamp becomes `now`
    /// and its validity is recomputed. Returns `Update` for a known peer and
    /// `Added` for a new one, with whether the peer just became valid.
    pub fn peer_add(&mut self, addr: &[u8; 6], now: u64) -> (r: (PeersStatus, bool))
        requires
            old(self).wf(),
        ensures
            final(self).wf(),
            final(self).timeout == old(self).timeout,
            final(self).clean_interval == old(self).clean_interval,
            find_peer(final(self).peers@, addr@) matches Some(j) && final(self).peers@[j].last_update
                == now,
            (peers_view(final(self).peers@), r.0, r.1) == spec_peer_add_view(peers_view(old(self).peers@), addr@, now),
            match find_peer(old(self).peers@, addr@) {
                Some(i) => {
                    &&& final(self).peers@ == old(self).peers@.update(i, touched(old(self).peers@[i], now))
                    &&& r.0 == PeersStatus::Update
                    &&& r.1 == (!old(self).peers@[i].is_valid && spec_check_valid(old(self).peers@[i]))
                },
                None => {
                    &&& final(self).peers@.len() == old(self).peers@.len() + 1
                    &&& final(self).peers@.take(old(self).peers@.len() as int) == old(self).peers@
                    &&& is_fresh_peer(
                        AwdlPeer { last_update: 0, ..final(self).peers@.last() },
                        *addr,
                    )
                    &&& final(self).peers@.last().last_update == now
                    &&& r == (PeersStatus::Added, false)
                },
            },
    {
        proof {
            lemma_find_peer(self.peers@, addr@);
            lemma_find_view(self.peers@, addr@);
        }
        match self.find_index(addr) {
            Some(i) => {
                let ghost old_peers = self.peers@;
                let was_valid = self.peers[i].is_valid;
                let now_valid = self.peers[i].check_valid();
                self.peers[i].last_update = now;
                self.peers[i].is_valid = now_valid;
                assert(self.peers@ =~= old_peers.update(i as int, touched(old_peers[i as int], now)));
                proof {
                    assert(unique_addrs(self.peers@)) by {
                        assert forall|a: int, b: int|
                            0 <= a < self.peers@.len() && 0 <= b < self.peers@.len() && a != b implies (
                            #[trigger] self.peers@[a]).addr@ != (#[trigger] self.peers@[b]).addr@ by {
                            assert(self.peers@[a].addr == old_peers[a].addr);
                            assert(self.peers@[b].addr == old_peers[b].addr);
                        }
                    }
                    lemma_find_unique(self.peers@, addr@, i as int);
                    lemma_peers_view_update(old_peers, i as int, touched(old_peers[i as int], now));
                    assert(touched(old_peers[i as int], now)@ == touched_view(old_peers[i as int]@, now));
                }
                (PeersStatus::Update, !was_valid && now_valid)
            },
            None => {
                let mut p = AwdlPeer::new(*addr);
                p.last_update = now;
                let now_valid = p.check_valid();
                p.is_valid = now_valid;
                let ghost old_peers = self.peers@;
                self.peers.push(p);
                assert(self.peers@.take(old_peers.len() as int) =~= old_peers);
                proof {
                    assert(unique_addrs(self.peers@)) by {
                        assert forall|a: int, b: int|
                            0 <= a < self.peers@.len() && 0 <= b < self.peers@.len() && a != b implies (
                            #[trigger] self.peers@[a]).addr@ != (#[trigger] self.peers@[b]).addr@ by {
                            if a < old_peers.len() && b < old_peers.len() {
                                assert(self.peers@[a] == old_peers[a]);
                                assert(self.peers@[b] == old_peers[b]);
                            } else if a < old_peers.len() {
                                assert(self.peers@[a] == old_peers[a]);
                            } else {
                                assert(self.peers@[b] == old_peers[b]);
                            }
                        }
                    }
                    lemma_find_unique(self.peers@, addr@, old_peers.len() as int);
                    let np = self.peers@.last();
                    assert(np.sequence@.map_values(|c: AwdlChan| c.val@) =~= Seq::new(16, |i: int| seq![0u8, 0u8]));
                    assert(np@ == touched_view(fresh_view(addr@), now));
                    assert(peers_view(self.peers@) =~= peers_view(old_peers).push(np@));
                }
                (PeersStatus::Added, false)
            },
        }
    }

    /// The peer with address `addr`, if present.
    pub fn peer_get(&self, addr: &[u8; 6]) -> (r: Option<&AwdlPeer>)
        ensures
            match find_peer(self.peers@, addr@) {
                Some(i) => r == Some(&self.peers@[i]),
                None => r is None,
            },
    {
        proof {
            lemma_find_peer(self.peers@, addr@);
        }
        match self.find_index(addr) {
            Some(i) => Some(&self.peers[i]),
            None => None,
        }
    }

    /// Mutable access to the peer with address `addr`, if present. Every other
    /// entry, the timeout and the cleaning interval stay as they were.
    pub fn peer_get_mut(&mut self, addr: &[u8; 6]) -> (r: Option<&mut AwdlPeer>)
        ensures
            final(self).timeout == old(self).timeout,
            final(self).clean_interval == old(self).clean_interval,
            match find_peer(old(self).peers@, addr@) {
                Some(i) => r.is_some() && *r.unwrap() == old(self).peers@[i] && final(self).peers@
                    == old(self).peers@.update(i, *final(r.unwrap())),
                None => r.is_none() && final(self).peers@ == old(self).peers@,
            },
    {
        proof {
            lemma_find_peer(self.peers@, addr@);
        }
        match self.find_index(addr) {
            Some(i) => Some(&mut self.peers[i]),
            None => None,
        }
    }

    /// Remove the peer with address `addr`, returning it.
    pub fn peer_remove(&mut self, addr: &[u8; 6]) -> (r: Option<AwdlPeer>)
        requires
            old(self).wf(),
        ensures
            final(self).wf(),
            final(self).timeout == old(self).timeout,
            final(self).clean_interval == old(self).clean_interval,
            match find_peer(old(self).peers@, addr@) {
                Some(i) => r == Some(old(self).peers@[i]) && final(self).peers@ == old(
                    self,
                ).peers@.remove(i),
                None => r is None && final(self).peers@ == old(self).peers@,
            },
    {
        proof {
            lemma_find_peer(self.peers@, addr@);
            lemma_find_view(self.peers@, addr@);
        }
        match self.find_index(addr) {
            Some(i) => {
                let ghost old_peers = self.peers@;
                let p = self.peers.remove(i);
                assert(self.peers@ == old_peers.remove(i as int));
                assert forall|a: int, b: int|
                    0 <= a < self.peers@.len() && 0 <= b < self.peers@.len() && a != b implies (
                    #[trigger] self.peers@[a]).addr@ != (#[trigger] self.peers@[b]).addr@ by {
                    let a2 = if a < i { a } else { a + 1 };
                    let b2 = if b < i { b } else { b + 1 };
                    assert(self.peers@[a] == old_peers[a2]);
                    assert(self.peers@[b] == old_peers[b2]);
                }
                Some(p)
            },
            None => None,
        }
    }

    /// Drop every peer last heard from before `before`; returns the dropped
    /// peers, in table order.
    pub fn peers_remove_before(&mut self, before: u64) -> (removed: Vec<AwdlPeer>)
        requires
            old(self).wf(),
        ensures
            final(self).wf(),
            final(self).timeout == old(self).timeout,
            final(self).clean_interval == old(self).clean_interval,
            final(self).peers@ == old(self).peers@.filter(|p: AwdlPeer| p.last_update >= before),
            removed@ == old(self).peers@.filter(|p: AwdlPeer| p.last_update < before),
            forall|i: int| 0 <= i < final(self).peers@.len() ==> #[trigger] final(self).peers@[i].last_update >= before,
            forall|i: int| 0 <= i < removed@.len() ==> #[trigger] removed@[i].last_update < before,
    {
        let ghost orig = self.peers@;
        let mut rest: Vec<AwdlPeer> = Vec::new();
        std::mem::swap(&mut rest, &mut self.peers);
        let mut kept: Vec<AwdlPeer> = Vec::new();
        let mut removed: Vec<AwdlPeer> = Vec::new();
        let ghost keep = |p: AwdlPeer| p.last_update >= before;
        let ghost drop = |p: AwdlPeer| p.last_update < before;
        let ghost mut k: int = 0;
        assert(orig.take(0) =~= Seq::<AwdlPeer>::empty());
        while rest.len() > 0
            invariant
                0 <= k <= orig.len(),
                keep == (|p: AwdlPeer| p.last_update >= before),
                drop == (|p: AwdlPeer| p.last_update < before),
                rest@ == orig.skip(k),
                kept@ == orig.take(k).filter(keep),
                removed@ == orig.take(k).filter(drop),
            decreases rest@.len(),
        {
            let p = rest.remove(0);
            assert(p == orig[k]);
            proof {
                lemma_filter_take_step(orig, keep, k);
                lemma_filter_take_step(orig, drop, k);
            }
            if p.last_update < before {
                assert(drop(orig[k]) && !keep(orig[k]));
                removed.push(p);
            } else {
                assert(!drop(orig[k]) && keep(orig[k]));
                kept.push(p);
            }
            proof {
                k = k + 1;
            }
            assert(rest@ =~= orig.skip(k));
        }
        assert(orig.take(k) =~= orig);
        proof {
            broadcast use vstd::seq_lib::group_filter_ensures;

            assert(forall|i: int| 0 <= i < kept@.len() ==> keep(#[trigger] kept@[i]));
            assert(forall|i: int| 0 <= i < removed@.len() ==> drop(#[trigger] removed@[i]));

            assert forall|a: int, b: int|
                0 <= a < kept@.len() && 0 <= b < kept@.len() && a != b implies (
                #[trigger] kept@[a]).addr@ != (#[trigger] kept@[b]).addr@ by {
                lemma_filter_unique(orig, keep, a, b);
            }
        }
        self.peers = kept;
        removed
    }

    /// Election state and validity of every peer, in table order.
    pub fn peers_iter(&self) -> (r: Vec<(AwdlElectionState, bool)>)
        ensures
            r@.len() == self.peers@.len(),
            forall|i: int|
                0 <= i < r@.len() ==> #[trigger] r@[i] == (self.peers@[i].election, self.peers@[i].is_valid),
    {
        let mut r: Vec<(AwdlElectionState, bool)> = Vec::new();
        let mut i: usize = 0;
        while i < self.peers.len()
            invariant
                i <= self.peers@.len(),
                r@.len() == i,
                forall|j: int|
                    0 <= j < i ==> #[trigger] r@[j] == (self.peers@[j].election, self.peers@[j].is_valid),
            decreases self.peers@.len() - i,
        {
            r.push((self.peers[i].election, self.peers[i].is_valid));
            i += 1;
        }
        r
    }
}

proof fn lemma_filter_take_step(s: Seq<AwdlPeer>, f: spec_fn(AwdlPeer) -> bool, k: int)
    requires
        0 <= k < s.len(),
    ensures
        s.take(k + 1).filter(f) == if f(s[k]) {
            s.take(k).filter(f).push(s[k])
        } else {
            s.take(k).filter(f)
        },
{
    reveal_with_fuel(Seq::<_>::filter, 1);
    assert(s.take(k + 1).drop_last() =~= s.take(k));
    assert(s.take(k + 1).last() == s[k]);
}

proof fn lemma_filter_from(s: Seq<AwdlPeer>, f: spec_fn(AwdlPeer) -> bool, i: int)
    requires
        0 <= i < s.filter(f).len(),
    ensures
        exists|k: int| 0 <= k < s.len() && s[k] == s.filter(f)[i],
    decreases s.len(),
{
    reveal_with_fuel(Seq::<_>::filter, 1);
    if s.len() > 0 {
        let init = s.drop_last();
        let fi = init.filter(f);
        if f(s.last()) && i == fi.len() {
            assert(s[s.len() - 1] == s.filter(f)[i]);
        } else {
            lemma_filter_from(init, f, i);
            let k = choose|k: int| 0 <= k < init.len() && init[k] == fi[i];
            assert(s[k] == s.filter(f)[i]);
        }
    }
}

proof fn lemma_filter_unique(s: Seq<AwdlPeer>, f: spec_fn(AwdlPeer) -> bool, a: int, b: int)
    requires
        unique_addrs(s),
        0 <= a < s.filter(f).len(),
        0 <= b < s.filter(f).len(),
        a != b,
    ensures
        s.filter(f)[a].addr@ != s.filter(f)[b].addr@,
    decreases s.len(),
{
    reveal_with_fuel(Seq::<_>::filter, 1);
    if s.len() > 0 {
        let init = s.drop_last();
        assert(unique_addrs(init)) by {
            assert forall|i: int, j: int|
                0 <= i < init.len() && 0 <= j < init.len() && i != j implies (
                #[trigger] init[i]).addr@ != (#[trigger] init[j]).addr@ by {
                assert(init[i] == s[i] && init[j] == s[j]);
            }
        }
        let fi = init.filter(f);
        if f(s.last()) {
            assert(s.filter(f) == fi.push(s.last()));
            if a < fi.len() && b < fi.len() {
                lemma_filter_unique(init, f, a, b);
            } else {
                let x = if a < fi.len() { a } else { b };
                lemma_filter_from(init, f, x);
                let k = choose|k: int| 0 <= k < init.len() && init[k] == fi[x];
                assert(s[k] == init[k]);
                assert(s[s.len() - 1] == s.last());
            }
        } else {
            assert(s.filter(f) == fi);
            lemma_filter_unique(init, f, a, b);
        }
    }
}

/// One line describing a peer: its host name (or `<UNNAMED>`), a colon and
/// its place in the sync tree.
pub open spec fn spec_peer_print(p: AwdlPeer) -> Seq<char> {
    let name = if p.name@.len() == 0 { "<UNNAMED>"@ } else { p.name@ };
    name + ": "@ + spec_tree_print(p.election)
}

/// Describe a peer.
pub fn awdl_peer_print(peer: &AwdlPeer) -> (r: String)
    ensures
        r@ == spec_peer_print(*peer),
{
    let mut r = if peer.name.as_str().is_empty() {
        String::from_str("<UNNAMED>")
    } else {
        peer.name.clone()
    };
    r.append(": ");
    let tree = awdl_election_tree_print(&peer.election);
    r.append(tree.as_str());
    proof {
        reveal_strlit("<UNNAMED>");
        reveal_strlit(": ");
    }
    r
}

} // verus!
