//! Master election: every node follows the peer with the best master
//! counter and metric, preferring short paths and high addresses.

use vstd::prelude::*;
use vstd::wrapping::u32_specs::wrapping_add;
use vstd::string::StringExecFns;
use crate::text::{hex2, dec_chars, push_hex2, push_decimal};

verus! {

broadcast use vstd::slice::group_slice_axioms;

/// Longest sync tree a node may join.
pub const AWDL_ELECTION_TREE_MAX_HEIGHT: u32 = 10;

/// Initial metric of a node.
pub const AWDL_ELECTION_METRIC_INIT: u32 = 60;

/// Initial counter of a node.
pub const AWDL_ELECTION_COUNTER_INIT: u32 = 0;

/// Election state of one node.
#[derive(Debug, Clone, Copy)]
pub struct AwdlElectionState {
    pub master_addr: [u8; 6],
    pub sync_addr: [u8; 6],
    pub self_addr: [u8; 6],
    pub height: u32,
    pub master_metric: u32,
    pub self_metric: u32,
    pub master_counter: u32,
    pub self_counter: u32,
}

/// Election state with addresses as byte strings.
pub struct ElectionView {
    pub master_addr: Seq<u8>,
    pub sync_addr: Seq<u8>,
    pub self_addr: Seq<u8>,
    pub height: u32,
    pub master_metric: u32,
    pub self_metric: u32,
    pub master_counter: u32,
    pub self_counter: u32,
}

impl View for AwdlElectionState {
    type V = ElectionView;

    open spec fn view(&self) -> ElectionView {
        ElectionView {
            master_addr: self.master_addr@,
            sync_addr: self.sync_addr@,
            self_addr: self.self_addr@,
            height: self.height,
            master_metric: self.master_metric,
            self_metric: self.self_metric,
            master_counter: self.master_counter,
            self_counter: self.self_counter,
        }
    }
}

/// The node is its own master: height 0, master and sync address its own,
/// master metric and counter its own.
pub open spec fn is_self_master(s: AwdlElectionState) -> bool {
    &&& s.height == 0
    &&& s.master_addr@ == s.self_addr@
    &&& s.sync_addr@ == s.self_addr@
    &&& s.master_metric == s.self_metric
    &&& s.master_counter == s.self_counter
}

/// `s` with the node made its own master; the other fields unchanged.
pub open spec fn spec_reset_self(s: AwdlElectionState) -> AwdlElectionState {
    AwdlElectionState {
        height: 0,
        master_addr: s.self_addr,
        sync_addr: s.self_addr,
        master_metric: s.self_metric,
        master_counter: s.self_counter,
        ..s
    }
}

impl AwdlElectionState {
    /// A node that is its own master with the initial metric and counter.
    pub fn new(self_addr: [u8; 6]) -> (s: Self)
        ensures
            s.self_addr == self_addr,
            s.self_metric == AWDL_ELECTION_METRIC_INIT,
            s.self_counter == AWDL_ELECTION_COUNTER_INIT,
            is_self_master(s),
    {
        let mut state = Self {
            master_addr: self_addr,
            sync_addr: self_addr,
            self_addr,
            height: 0,
            master_metric: AWDL_ELECTION_METRIC_INIT,
            self_metric: AWDL_ELECTION_METRIC_INIT,
            master_counter: AWDL_ELECTION_COUNTER_INIT,
            self_counter: AWDL_ELECTION_COUNTER_INIT,
        };
        state.reset_self();
        state
    }

    fn reset_metric(&mut self)
        ensures
            *final(self) == (AwdlElectionState {
                self_counter: AWDL_ELECTION_COUNTER_INIT,
                self_metric: AWDL_ELECTION_METRIC_INIT,
                ..*old(self)
            }),
    {
        self.self_counter = AWDL_ELECTION_COUNTER_INIT;
        self.self_metric = AWDL_ELECTION_METRIC_INIT;
    }

    fn reset_self(&mut self)
        ensures
            *final(self) == spec_reset_self(*old(self)),
    {
        self.height = 0;
        self.master_addr = self.self_addr;
        self.sync_addr = self.self_addr;
        self.master_metric = self.self_metric;
        self.master_counter = self.self_counter;
    }
}

/// Re-initialize `state` as a fresh node with address `self_addr`.
pub fn awdl_election_state_init(state: &mut AwdlElectionState, self_addr: &[u8; 6])
    ensures
        final(state).self_addr == *self_addr,
        final(state).self_metric == AWDL_ELECTION_METRIC_INIT,
        final(state).self_counter == AWDL_ELECTION_COUNTER_INIT,
        is_self_master(*final(state)),
{
    state.master_addr = *self_addr;
    state.sync_addr = *self_addr;
    state.self_addr = *self_addr;
    state.reset_metric();
    state.reset_self();
}

/// Byte-wise equality of two Ethernet addresses.
pub fn ether_addr_eq(a: &[u8; 6], b: &[u8; 6]) -> (r: bool)
    ensures
        r == (a@ == b@),
{
    let mut i: usize = 0;
    while i < 6
        invariant
            i <= 6,
            a@.len() == 6,
            b@.len() == 6,
            forall|j: int| 0 <= j < i ==> a@[j] == b@[j],
        decreases 6 - i,
    {
        if a[i] != b[i] {
            return false;
        }
        i += 1;
    }
    assert(a@ =~= b@);
    true
}

/// True when `addr` is the node's sync master.
pub fn awdl_election_is_sync_master(state: &AwdlElectionState, addr: &[u8; 6]) -> (r: bool)
    ensures
        r == (state.sync_addr@ == addr@),
{
    ether_addr_eq(&state.sync_addr, addr)
}

/// Lexicographic comparison of `a` and `b` from position `i` on:
/// -1, 0 or 1.
pub open spec fn lex_order_from(a: Seq<u8>, b: Seq<u8>, i: int) -> int
    decreases a.len() - i,
{
    if i >= a.len() || i >= b.len() {
        0
    } else if a[i] < b[i] {
        -1
    } else if a[i] > b[i] {
        1
    } else {
        lex_order_from(a, b, i + 1)
    }
}

/// Lexicographic comparison of two byte strings: -1, 0 or 1.
pub open spec fn lex_order(a: Seq<u8>, b: Seq<u8>) -> int {
    lex_order_from(a, b, 0)
}

/// Compare two Ethernet addresses byte by byte: -1, 0 or 1.
pub fn compare_ether_addr(a: &[u8; 6], b: &[u8; 6]) -> (r: i32)
    ensures
        r == lex_order(a@, b@),
{
    let mut i: usize = 0;
    while i < 6
        invariant
            i <= 6,
            a@.len() == 6,
            b@.len() == 6,
            lex_order(a@, b@) == lex_order_from(a@, b@, i as int),
        decreases 6 - i,
    {
        if a[i] < b[i] {
            return -1;
        }
        if a[i] > b[i] {
            return 1;
        }
        i += 1;
    }
    0
}

/// Three-way comparison of integers: -1, 0 or 1.
pub open spec fn three_way(a: int, b: int) -> int {
    if a < b {
        -1
    } else if a > b {
        1
    } else {
        0
    }
}

fn compare_u32(a: u32, b: u32) -> (r: i32)
    ensures
        r == three_way(a as int, b as int),
{
    if a < b {
        -1
    } else if a > b {
        1
    } else {
        0
    }
}

/// Compare masters: counter first, then metric.
pub open spec fn spec_compare_master(a: AwdlElectionState, b: AwdlElectionState) -> int {
    let c = three_way(a.master_counter as int, b.master_counter as int);
    if c != 0 {
        c
    } else {
        three_way(a.master_metric as int, b.master_metric as int)
    }
}

fn awdl_election_compare_master(a: &AwdlElectionState, b: &AwdlElectionState) -> (r: i32)
    ensures
        r == spec_compare_master(*a, *b),
{
    let result = compare_u32(a.master_counter, b.master_counter);
    if result != 0 {
        return result;
    }
    compare_u32(a.master_metric, b.master_metric)
}

/// A peer may be followed: it is valid, the tree stays within the maximal
/// height (the height increment wraps at 2^32) and the peer does not sync to us.
pub open spec fn eligible(p: (AwdlElectionState, bool), self_addr: Seq<u8>) -> bool {
    &&& p.1
    &&& wrapping_add(p.0.height, 1) <= AWDL_ELECTION_TREE_MAX_HEIGHT
    &&& p.0.sync_addr@ != self_addr
}

/// `p` beats `b`: a better master; on a tie a shorter path; on a tie again
/// a higher own address.
pub open spec fn better(p: AwdlElectionState, b: AwdlElectionState) -> bool {
    let c = spec_compare_master(p, b);
    if c < 0 {
        false
    } else if c == 0 {
        if p.height > b.height {
            false
        } else if p.height == b.height {
            lex_order(p.self_addr@, b.self_addr@) > 0
        } else {
            true
        }
    } else {
        true
    }
}

/// The candidate that the election holds after the first `n` peers:
/// `None` for the node itself, else a peer index.
pub open spec fn best_index(peers: Seq<(AwdlElectionState, bool)>, me: AwdlElectionState, n: nat) -> Option<int>
    decreases n,
{
    if n == 0 {
        None
    } else {
        let prev = best_index(peers, me, (n - 1) as nat);
        let p = peers[n - 1];
        if eligible(p, me.self_addr@) && better(p.0, current_best(peers, me, prev)) {
            Some(n - 1)
        } else {
            prev
        }
    }
}

/// The state of the candidate `best`.
pub open spec fn current_best(peers: Seq<(AwdlElectionState, bool)>, me: AwdlElectionState, best: Option<int>) -> AwdlElectionState {
    match best {
        Some(i) => peers[i].0,
        None => me,
    }
}

/// The outcome of an election: follow the winning peer, or be master.
pub open spec fn spec_election_result(old_state: AwdlElectionState, peers: Seq<(AwdlElectionState, bool)>) -> AwdlElectionState {
    let me = spec_reset_self(old_state);
    match best_index(peers, me, peers.len()) {
        Some(i) => AwdlElectionState {
            master_addr: peers[i].0.master_addr,
            sync_addr: peers[i].0.self_addr,
            master_metric: peers[i].0.master_metric,
            master_counter: peers[i].0.master_counter,
            height: wrapping_add(peers[i].0.height, 1),
            ..me
        },
        None => me,
    }
}

proof fn lemma_best_index_range(peers: Seq<(AwdlElectionState, bool)>, me: AwdlElectionState, n: nat)
    requires
        n <= peers.len(),
    ensures
        best_index(peers, me, n) matches Some(i) ==> 0 <= i < n,
    decreases n,
{
    if n > 0 {
        lemma_best_index_range(peers, me, (n - 1) as nat);
    }
}

/// Run the election over `peers` (each with its validity).
pub fn awdl_election_run(state: &mut AwdlElectionState, peers: &[(AwdlElectionState, bool)])
    ensures
        *final(state) == spec_election_result(*old(state), peers@),
{
    state.reset_self();
    let ghost me = *state;

    let mut best: Option<usize> = None;
    let mut i: usize = 0;
    while i < peers.len()
        invariant
            i <= peers@.len(),
            *state == me,
            match best {
                Some(b) => best_index(peers@, me, i as nat) == Some(b as int) && b < i,
                None => best_index(peers@, me, i as nat) is None,
            },
        decreases peers@.len() - i,
    {
        let peer_state = &peers[i].0;
        let is_valid = peers[i].1;
        if is_valid && peer_state.height.wrapping_add(1) <= AWDL_ELECTION_TREE_MAX_HEIGHT
            && !awdl_election_is_sync_master(peer_state, &state.self_addr) {
            let rel = match best {
                Some(idx) => awdl_election_compare_master(peer_state, &peers[idx].0),
                None => awdl_election_compare_master(peer_state, state),
            };
            let best_height = match best {
                Some(idx) => peers[idx].0.height,
                None => state.height,
            };
            let accept = if rel < 0 {
                false
            } else if rel == 0 {
                if peer_state.height > best_height {
                    false
                } else if peer_state.height == best_height {
                    let c = match best {
                        Some(idx) => compare_ether_addr(&peer_state.self_addr, &peers[idx].0.self_addr),
                        None => compare_ether_addr(&peer_state.self_addr, &state.self_addr),
                    };
                    c > 0
                } else {
                    true
                }
            } else {
                true
            };
            if accept {
                best = Some(i);
            }
        }
        i += 1;
    }

    if let Some(idx) = best {
        let peer = &peers[idx].0;
        state.master_addr = peer.master_addr;
        state.sync_addr = peer.self_addr;
        state.master_metric = peer.master_metric;
        state.master_counter = peer.master_counter;
        state.height = peer.height.wrapping_add(1);
    }
}


proof fn lemma_lex_trans(a: Seq<u8>, b: Seq<u8>, c: Seq<u8>, i: int)
    requires
        a.len() == b.len() == c.len(),
        0 <= i,
        lex_order_from(a, b, i) > 0,
        lex_order_from(b, c, i) > 0,
    ensures
        lex_order_from(a, c, i) > 0,
    decreases a.len() - i,
{
    if i < a.len() && a[i] == b[i] && b[i] == c[i] {
        lemma_lex_trans(a, b, c, i + 1);
    }
}

proof fn lemma_better_trans(x: AwdlElectionState, y: AwdlElectionState, z: AwdlElectionState)
    requires
        better(x, y),
        better(y, z),
    ensures
        better(x, z),
{
    if spec_compare_master(x, y) == 0 && spec_compare_master(y, z) == 0 && x.height == y.height
        && y.height == z.height {
        lemma_lex_trans(x.self_addr@, y.self_addr@, z.self_addr@, 0);
    }
}

proof fn lemma_best_index_unbeaten(peers: Seq<(AwdlElectionState, bool)>, me: AwdlElectionState, n: nat)
    requires
        n <= peers.len(),
    ensures
        forall|j: int|
            0 <= j < n && eligible(#[trigger] peers[j], me.self_addr@) ==> !better(
                peers[j].0,
                current_best(peers, me, best_index(peers, me, n)),
            ),
        best_index(peers, me, n) matches Some(i) ==> 0 <= i < n && eligible(peers[i], me.self_addr@)
            && better(peers[i].0, me),
    decreases n,
{
    if n > 0 {
        lemma_best_index_unbeaten(peers, me, (n - 1) as nat);
        let prev = best_index(peers, me, (n - 1) as nat);
        let cur = current_best(peers, me, prev);
        let p = peers[n - 1];
        if eligible(p, me.self_addr@) && better(p.0, cur) {
            assert forall|j: int|
                0 <= j < n && eligible(#[trigger] peers[j], me.self_addr@) implies !better(
                peers[j].0,
                p.0,
            ) by {
                if j < n - 1 && better(peers[j].0, p.0) {
                    lemma_better_trans(peers[j].0, p.0, cur);
                }
                if j == n - 1 && better(p.0, p.0) {
                    assert(lex_order_from(p.0.self_addr@, p.0.self_addr@, 0) == 0) by {
                        lemma_lex_refl(p.0.self_addr@, 0);
                    }
                }
            }
            if prev is Some {
                lemma_better_trans(p.0, cur, me);
            }
        }
    }
}

proof fn lemma_lex_refl(a: Seq<u8>, i: int)
    requires
        0 <= i,
    ensures
        lex_order_from(a, a, i) == 0,
    decreases a.len() - i,
{
    if i < a.len() {
        lemma_lex_refl(a, i + 1);
    }
}

/// Election law: no eligible peer beats the candidate the election settles on
/// (the winning peer, or the node itself), and a winning peer is eligible and
/// beats the node itself.
pub proof fn lemma_election_winner_unbeaten(old_state: AwdlElectionState, peers: Seq<(AwdlElectionState, bool)>)
    ensures
        ({
            let me = spec_reset_self(old_state);
            let best = best_index(peers, me, peers.len());
            &&& forall|j: int|
                0 <= j < peers.len() && eligible(#[trigger] peers[j], old_state.self_addr@) ==> !better(
                    peers[j].0,
                    current_best(peers, me, best),
                )
            &&& best matches Some(i) ==> 0 <= i < peers.len() && eligible(peers[i], old_state.self_addr@)
                && better(peers[i].0, me)
        }),
{
    lemma_best_index_unbeaten(peers, spec_reset_self(old_state), peers.len());
}

/// Master `(c1, m1)` is no better than master `(c2, m2)`: counter first,
/// then metric.
pub open spec fn master_at_most(c1: u32, m1: u32, c2: u32, m2: u32) -> bool {
    c1 < c2 || (c1 == c2 && m1 <= m2)
}

/// Election law: after an election the node's master is at least as good,
/// by counter and then metric, as the master of every eligible peer and as
/// the node's own; and the node sits within the maximal tree height.
pub proof fn lemma_election_master_maximal(old_state: AwdlElectionState, peers: Seq<(AwdlElectionState, bool)>)
    ensures
        ({
            let r = spec_election_result(old_state, peers);
            &&& forall|j: int|
                0 <= j < peers.len() && eligible(#[trigger] peers[j], old_state.self_addr@) ==> master_at_most(
                    peers[j].0.master_counter,
                    peers[j].0.master_metric,
                    r.master_counter,
                    r.master_metric,
                )
            &&& master_at_most(r.self_counter, r.self_metric, r.master_counter, r.master_metric)
            &&& r.height <= AWDL_ELECTION_TREE_MAX_HEIGHT
        }),
{
    lemma_election_winner_unbeaten(old_state, peers);
    let me = spec_reset_self(old_state);
    let best = best_index(peers, me, peers.len());
    let b = current_best(peers, me, best);
    let r = spec_election_result(old_state, peers);
    assert(r.master_counter == b.master_counter && r.master_metric == b.master_metric);
    assert forall|j: int|
        0 <= j < peers.len() && eligible(#[trigger] peers[j], old_state.self_addr@) implies master_at_most(
            peers[j].0.master_counter,
            peers[j].0.master_metric,
            r.master_counter,
            r.master_metric,
        ) by {
        assert(!better(peers[j].0, b));
        assert(spec_compare_master(peers[j].0, b) <= 0);
    }
    match best {
        Some(i) => {
            assert(better(peers[i].0, me));
            assert(spec_compare_master(peers[i].0, me) >= 0);
        },
        None => {},
    }
}

/// Election law on path length: among the eligible peers whose master has
/// the counter and metric of the chosen master, none sits closer to that
/// master than the node's new position allows; the node's height is one
/// more than the height of an eligible peer announcing that master, the
/// smallest such, or 0 when the node is its own master.
pub proof fn lemma_election_shortest_path(old_state: AwdlElectionState, peers: Seq<(AwdlElectionState, bool)>)
    ensures
        ({
            let r = spec_election_result(old_state, peers);
            &&& forall|j: int|
                0 <= j < peers.len() && eligible(#[trigger] peers[j], old_state.self_addr@)
                    && peers[j].0.master_counter == r.master_counter && peers[j].0.master_metric == r.master_metric
                    ==> peers[j].0.height + 1 >= r.height
            &&& r.height == 0 || exists|j: int|
                0 <= j < peers.len() && eligible(#[trigger] peers[j], old_state.self_addr@)
                    && peers[j].0.master_counter == r.master_counter && peers[j].0.master_metric == r.master_metric
                    && r.height == peers[j].0.height + 1
        }),
{
    lemma_election_winner_unbeaten(old_state, peers);
    let me = spec_reset_self(old_state);
    let best = best_index(peers, me, peers.len());
    let b = current_best(peers, me, best);
    let r = spec_election_result(old_state, peers);
    match best {
        Some(i) => {
            assert(r.height == wrapping_add(peers[i].0.height, 1));
            assert forall|j: int|
                0 <= j < peers.len() && eligible(#[trigger] peers[j], old_state.self_addr@)
                    && peers[j].0.master_counter == r.master_counter && peers[j].0.master_metric == r.master_metric
                    implies peers[j].0.height + 1 >= r.height by {
                assert(!better(peers[j].0, b));
                assert(spec_compare_master(peers[j].0, b) == 0);
                assert(peers[j].0.height >= peers[i].0.height);
            }
            assert(eligible(peers[i], old_state.self_addr@));
            if peers[i].0.height < u32::MAX {
                assert(r.height == peers[i].0.height + 1);
            } else {
                assert(r.height == 0);
            }
        },
        None => {
            assert(r.height == 0);
        },
    }
}

/// Running the election again over the same peers changes nothing: the
/// outcome depends only on the node's own address, metric and counter,
/// which an election leaves as they are.
pub proof fn lemma_election_idempotent(s: AwdlElectionState, peers: Seq<(AwdlElectionState, bool)>)
    ensures
        spec_election_result(spec_election_result(s, peers), peers) == spec_election_result(s, peers),
{
    let r = spec_election_result(s, peers);
    assert(spec_reset_self(r) == spec_reset_self(s));
}

// ---------------------------------------------------------------------------
// Text
// ---------------------------------------------------------------------------

/// An Ethernet address as six colon-separated pairs of lowercase hex digits.
pub open spec fn spec_ether_ntoa(a: Seq<u8>) -> Seq<char> {
    hex2(a[0]) + seq![':'] + hex2(a[1]) + seq![':'] + hex2(a[2]) + seq![':'] + hex2(a[3]) + seq![':']
        + hex2(a[4]) + seq![':'] + hex2(a[5])
}

/// Format an Ethernet address as colon-separated lowercase hex pairs.
pub fn ether_ntoa(addr: &[u8; 6]) -> (s: String)
    ensures
        s@ == spec_ether_ntoa(addr@),
{
    let mut s = String::new();
    let mut i: usize = 0;
    while i < 6
        invariant
            i <= 6,
            s@ == (if i == 0 { Seq::<char>::empty() } else { ether_prefix(addr@, i as int) }),
        decreases 6 - i,
    {
        if i > 0 {
            s.append(colon());
        }
        push_hex2(&mut s, addr[i]);
        i += 1;
    }
    assert(ether_prefix(addr@, 6) =~= spec_ether_ntoa(addr@)) by {
        reveal_with_fuel(ether_prefix, 6);
    }
    s
}

/// The first `n` (at least 1) pairs of an address, colon-separated.
pub open spec fn ether_prefix(a: Seq<u8>, n: int) -> Seq<char>
    decreases n,
{
    if n <= 1 {
        hex2(a[0])
    } else {
        ether_prefix(a, n - 1) + seq![':'] + hex2(a[n - 1])
    }
}

fn colon() -> (s: &'static str)
    ensures
        s@ == seq![':'],
{
    proof {
        reveal_strlit(":");
    }
    ":"
}

/// `n` dashes.
pub open spec fn dashes(n: nat) -> Seq<char> {
    Seq::new(n, |i: int| '-')
}

/// One line describing a node's place in the sync tree: its address; the
/// sync peer when it is not its own master; a dashed arrow to the master
/// (one dash per level below the first) when the master is further away;
/// then the master metric and counter.
pub open spec fn spec_tree_print(s: AwdlElectionState) -> Seq<char> {
    let sync = if s.height > 0 { " -> "@ + spec_ether_ntoa(s.sync_addr@) } else { Seq::empty() };
    let master = if s.height > 1 {
        seq![' '] + dashes((s.height - 1) as nat) + "> "@ + spec_ether_ntoa(s.master_addr@)
    } else {
        Seq::empty()
    };
    spec_ether_ntoa(s.self_addr@) + sync + master + " (met "@ + dec_chars(s.master_metric as nat) + ", ctr "@
        + dec_chars(s.master_counter as nat) + ")"@
}

/// Describe a node's place in the sync tree.
pub fn awdl_election_tree_print(state: &AwdlElectionState) -> (r: String)
    ensures
        r@ == spec_tree_print(*state),
{
    let mut result = ether_ntoa(&state.self_addr);
    let ghost base = result@;
    if state.height > 0 {
        result.append(" -> ");
        let t = ether_ntoa(&state.sync_addr);
        result.append(t.as_str());
    }
    let ghost after_sync = result@;
    if state.height > 1 {
        result.append(" ");
        let ghost start = result@;
        let mut i: u32 = 1;
        while i < state.height
            invariant
                1 <= i <= state.height,
                result@ == start + dashes((i - 1) as nat),
            decreases state.height - i,
        {
            result.append("-");
            proof {
                reveal_strlit("-");
            }
            i += 1;
            assert(result@ =~= start + dashes((i - 1) as nat));
        }
        result.append("> ");
        let t = ether_ntoa(&state.master_addr);
        result.append(t.as_str());
    }
    let ghost after_master = result@;
    result.append(" (met ");
    push_decimal(&mut result, state.master_metric as u64);
    result.append(", ctr ");
    push_decimal(&mut result, state.master_counter as u64);
    result.append(")");
    proof {
        reveal_strlit(" -> ");
        reveal_strlit(" ");
        reveal_strlit("> ");
        reveal_strlit(" (met ");
        reveal_strlit(", ctr ");
        reveal_strlit(")");
        let sync = if state.height > 0 { " -> "@ + spec_ether_ntoa(state.sync_addr@) } else { Seq::<char>::empty() };
        let master = if state.height > 1 {
            seq![' '] + dashes((state.height - 1) as nat) + "> "@ + spec_ether_ntoa(state.master_addr@)
        } else {
            Seq::<char>::empty()
        };
        assert(after_sync =~= base + sync);
        assert(after_master =~= base + sync + master);
        assert(result@ =~= spec_tree_print(*state));
    }
    result
}

} // verus!
