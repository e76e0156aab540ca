//! Parsing received frames: radiotap header, 802.11 header, AWDL action
//! frames with their TLVs, and AWDL data frames converted to Ethernet.

use vstd::prelude::*;
use vstd::slice::slice_subrange;
use crate::awdl::channel::{AWDL_CHANSEQ_LENGTH, AwdlChan, AwdlChanEncoding, spec_encoding_size, awdl_chan_encoding_size};
use crate::awdl::election::{ElectionView, awdl_election_is_sync_master};
use crate::awdl::frame::{AwdlActionType, LlcHdr, push_bytes, push_be16, AWDL_OUI, IEEE80211_VENDOR_SPECIFIC, AWDL_TYPE, AWDL_VERSION_COMPAT, AWDL_LLC_PROTOCOL_ID, AWDL_SYNCHRONIZATON_PARAMETERS_TLV, AWDL_CHAN_SEQ_TLV, AWDL_ELECTION_PARAMETERS_TLV, AWDL_ELECTION_PARAMETERS_V2_TLV, AWDL_ARPA_TLV, AWDL_DATA_PATH_STATE_TLV, AWDL_VERSION_TLV, AWDL_DATA_PATH_FLAG_COUNTRY_CODE, AWDL_DATA_PATH_FLAG_SOCIAL_CHANNEL_MAP, AWDL_DATA_PATH_FLAG_INFRA_INFO, AWDL_DATA_PATH_FLAG_INFRA_ADDRESS, AWDL_DATA_PATH_FLAG_AWDL_ADDRESS, IEEE80211_FCTL_FTYPE, IEEE80211_FCTL_STYPE, IEEE80211_FTYPE_MGMT, IEEE80211_FTYPE_DATA, IEEE80211_STYPE_ACTION, IEEE80211_STYPE_DATA, IEEE80211_STYPE_QOS_DATA, IEEE80211_QOS_CTL_LEN, IEEE80211_QOS_CTL_A_MSDU_PRESENT};
use crate::awdl::peers::{AwdlPeer, AwdlPeerState, PeerView, PeersStatus, peers_view, find_view, find_peer, lemma_find_view, lemma_peers_view_update, lemma_unique_update, spec_peer_add_view, HOST_NAME_LENGTH_MAX};
use crate::awdl::state::{AwdlState, AwdlStats, StateView, clock_time_us};
use crate::awdl::sync::{AwdlSyncState, spec_sync_error_tu, spec_update_last, awdl_sync_error_tu, awdl_sync_update_last, sync_params_ok};
use crate::awdl::wire::{self, fits, le16_value, be16_value, le32_value, utf8_lossy, int_string_fits, int_string_bytes, tlv_fits, be16_bytes};

verus! {

/// Outcome of handling a received frame or TLV.
#[derive(Debug, Clone, Copy, PartialEq, Eq, Structural)]
pub enum RxResult {
    IgnorePeer,
    IgnoreRssi,
    IgnoreFailedCrc,
    IgnoreNoPromisc,
    IgnoreFromSelf,
    Ignore,
    /// The frame or TLV was processed.
    Processed,
    UnexpectedFormat,
    UnexpectedType,
    UnexpectedValue,
}

/// The numeric code of a result: positive for ignored frames, 0 when
/// processed, negative for malformed input.
pub open spec fn spec_rx_code(r: RxResult) -> int {
    match r {
        RxResult::IgnorePeer => 6,
        RxResult::IgnoreRssi => 5,
        RxResult::IgnoreFailedCrc => 4,
        RxResult::IgnoreNoPromisc => 3,
        RxResult::IgnoreFromSelf => 2,
        RxResult::Ignore => 1,
        RxResult::Processed => 0,
        RxResult::UnexpectedFormat => -1,
        RxResult::UnexpectedType => -2,
        RxResult::UnexpectedValue => -3,
    }
}

/// The numeric code of a result.
pub fn rx_code(r: RxResult) -> (c: i32)
    ensures
        c == spec_rx_code(r),
{
    match r {
        RxResult::IgnorePeer => 6,
        RxResult::IgnoreRssi => 5,
        RxResult::IgnoreFailedCrc => 4,
        RxResult::IgnoreNoPromisc => 3,
        RxResult::IgnoreFromSelf => 2,
        RxResult::Ignore => 1,
        RxResult::Processed => 0,
        RxResult::UnexpectedFormat => -1,
        RxResult::UnexpectedType => -2,
        RxResult::UnexpectedValue => -3,
    }
}

/// Sync errors above this many TUs are counted.
pub const AWDL_SYNC_THRESHOLD: i64 = 3;

// ---------------------------------------------------------------------------
// State updates on views
// ---------------------------------------------------------------------------

/// `s` with peer `i` replaced.
pub open spec fn with_peer(s: StateView, i: int, p: PeerView) -> StateView {
    StateView { peers: s.peers.update(i, p), ..s }
}

/// `s` with the peer of address `src`, if any, changed by `f`.
pub open spec fn update_peer(s: StateView, src: Seq<u8>, f: spec_fn(PeerView) -> PeerView) -> StateView {
    match find_view(s.peers, src) {
        Some(i) => with_peer(s, i, f(s.peers[i])),
        None => s,
    }
}

proof fn lemma_state_peer_update(old_s: AwdlState, new_s: AwdlState, i: int, p: AwdlPeer)
    requires
        old_s.wf(),
        0 <= i < old_s.peers.peers@.len(),
        p.addr@ == old_s.peers.peers@[i].addr@,
        new_s.peers.peers@ == old_s.peers.peers@.update(i, p),
        new_s == (AwdlState { peers: AwdlPeerState { peers: new_s.peers.peers, ..old_s.peers }, ..old_s }),
    ensures
        new_s.wf(),
        new_s@ == with_peer(old_s@, i, p@),
{
    lemma_unique_update(old_s.peers.peers@, i, p);
    lemma_peers_view_update(old_s.peers.peers@, i, p);
}

// ---------------------------------------------------------------------------
// TLV handlers
// ---------------------------------------------------------------------------

/// Synchronization parameters from our sync master: count the measurement,
/// count it as an error beyond the threshold, and adopt the master's timing.
pub open spec fn spec_sync_params(src: Seq<u8>, val: Seq<u8>, s: StateView, now: u64) -> (RxResult, StateView) {
    if s.election.sync_addr@ != src {
        (RxResult::Ignore, s)
    } else if !fits(1, 2, val.len() as int) || !fits(29, 2, val.len() as int) {
        (RxResult::UnexpectedFormat, s)
    } else {
        let tx_down = le16_value(val[1], val[2]) as u16;
        let aw = le16_value(val[29], val[30]) as u16;
        let sync1 = AwdlSyncState { meas_total: vstd::wrapping::u64_specs::wrapping_add(s.sync.meas_total, 1), ..s.sync };
        let err = spec_sync_error_tu(now, tx_down, aw, sync1);
        let sync2 = if err > AWDL_SYNC_THRESHOLD || err < -AWDL_SYNC_THRESHOLD {
            AwdlSyncState { meas_err: vstd::wrapping::u64_specs::wrapping_add(sync1.meas_err, 1), ..sync1 }
        } else {
            sync1
        };
        let sync3 = AwdlSyncState {
            last_update: spec_update_last(now, tx_down, sync2),
            aw_counter: aw & 0xfffc,
            ..sync2
        };
        (RxResult::Processed, StateView { sync: sync3, ..s })
    }
}

fn awdl_handle_sync_params_tlv(src: &[u8; 6], val: &[u8], state: &mut AwdlState, now: u64) -> (r: RxResult)
    requires
        old(state).wf(),
    ensures
        final(state).wf(),
        (r, final(state)@) == spec_sync_params(src@, val@, old(state)@, now),
{
    if !awdl_election_is_sync_master(&state.election, src) {
        return RxResult::Ignore;
    }
    let tx_down = match wire::read_le16(val, 1) {
        Ok(v) => v,
        Err(_) => return RxResult::UnexpectedFormat,
    };
    let aw_counter = match wire::read_le16(val, 29) {
        Ok(v) => v,
        Err(_) => return RxResult::UnexpectedFormat,
    };
    state.sync.meas_total = state.sync.meas_total.wrapping_add(1);
    let sync_err = awdl_sync_error_tu(now, tx_down, aw_counter, &state.sync);
    if sync_err > AWDL_SYNC_THRESHOLD || sync_err < -AWDL_SYNC_THRESHOLD {
        state.sync.meas_err = state.sync.meas_err.wrapping_add(1);
    }
    awdl_sync_update_last(now, tx_down, aw_counter, &mut state.sync);
    RxResult::Processed
}

/// The 16 channels of a channel sequence TLV value with values of `size`
/// bytes each, starting at byte 6; a one-byte value gets a zero second byte.
pub open spec fn chanseq_list(val: Seq<u8>, size: int) -> Seq<Seq<u8>> {
    Seq::new(
        16,
        |i: int|
            if size == 1 {
                seq![val[6 + i], 0u8]
            } else {
                seq![val[6 + 2 * i], val[6 + 2 * i + 1]]
            },
    )
}

/// The encoding a channel sequence announces, if known.
pub open spec fn spec_encoding_of(v: u8) -> Option<AwdlChanEncoding> {
    if v == 1 {
        Some(AwdlChanEncoding::Legacy)
    } else if v == 3 {
        Some(AwdlChanEncoding::Opclass)
    } else if v == 0 {
        Some(AwdlChanEncoding::Simple)
    } else {
        None
    }
}

/// A channel sequence TLV: 16 slots, no duplicates, a step count matching
/// our presence mode and fill channel 0xffff; on success the sender's
/// sequence is replaced.
pub open spec fn spec_chanseq(src: Seq<u8>, val: Seq<u8>, s: StateView) -> (RxResult, StateView) {
    let len = val.len() as int;
    if len < 1 {
        (RxResult::UnexpectedFormat, s)
    } else if val[0] as int + 1 != AWDL_CHANSEQ_LENGTH {
        (RxResult::UnexpectedValue, s)
    } else if len < 3 {
        (RxResult::UnexpectedFormat, s)
    } else if val[2] > 0 {
        (RxResult::UnexpectedValue, s)
    } else if len < 4 {
        (RxResult::UnexpectedFormat, s)
    } else if vstd::wrapping::u8_specs::wrapping_add(val[3], 1) != s.sync.presence_mode {
        (RxResult::UnexpectedValue, s)
    } else if len < 6 {
        (RxResult::UnexpectedFormat, s)
    } else if le16_value(val[4], val[5]) != 0xffff {
        (RxResult::UnexpectedValue, s)
    } else {
        match spec_encoding_of(val[1]) {
            None => (RxResult::UnexpectedValue, s),
            Some(enc) => {
                let size = spec_encoding_size(enc) as int;
                if 6 + 16 * size > len {
                    (RxResult::UnexpectedFormat, s)
                } else {
                    let list = chanseq_list(val, size);
                    (RxResult::Processed, update_peer(s, src, |p: PeerView| PeerView { sequence: list, ..p }))
                }
            },
        }
    }
}

fn encoding_of(v: u8) -> (r: Option<AwdlChanEncoding>)
    ensures
        r == spec_encoding_of(v),
{
    match v {
        1 => Some(AwdlChanEncoding::Legacy),
        3 => Some(AwdlChanEncoding::Opclass),
        0 => Some(AwdlChanEncoding::Simple),
        _ => None,
    }
}

fn awdl_handle_chanseq_tlv(src: &[u8; 6], val: &[u8], state: &mut AwdlState) -> (r: RxResult)
    requires
        old(state).wf(),
    ensures
        final(state).wf(),
        (r, final(state)@) == spec_chanseq(src@, val@, old(state)@),
{
    let count = match wire::read_u8(val, 0) {
        Ok(v) => v,
        Err(_) => return RxResult::UnexpectedFormat,
    };
    if (count as usize) + 1 != AWDL_CHANSEQ_LENGTH {
        return RxResult::UnexpectedValue;
    }
    let duplicate_count = match wire::read_u8(val, 2) {
        Ok(v) => v,
        Err(_) => return RxResult::UnexpectedFormat,
    };
    if duplicate_count > 0 {
        return RxResult::UnexpectedValue;
    }
    let step_count = match wire::read_u8(val, 3) {
        Ok(v) => v,
        Err(_) => return RxResult::UnexpectedFormat,
    };
    if step_count.wrapping_add(1) != state.sync.presence_mode {
        return RxResult::UnexpectedValue;
    }
    let fill_channel = match wire::read_le16(val, 4) {
        Ok(v) => v,
        Err(_) => return RxResult::UnexpectedFormat,
    };
    if fill_channel != 0xffff {
        return RxResult::UnexpectedValue;
    }
    let encoding = match wire::read_u8(val, 1) {
        Ok(v) => v,
        Err(_) => return RxResult::UnexpectedFormat,
    };
    let enc = match encoding_of(encoding) {
        Some(e) => e,
        None => return RxResult::UnexpectedValue,
    };
    let size = awdl_chan_encoding_size(enc);
    if 6 + 16 * size > val.len() {
        return RxResult::UnexpectedFormat;
    }
    let ghost list = chanseq_list(val@, size as int);
    let mut seq = [crate::awdl::channel::chan_null();16];
    let mut i: usize = 0;
    while i < AWDL_CHANSEQ_LENGTH
        invariant
            i <= AWDL_CHANSEQ_LENGTH,
            size == 1 || size == 2,
            6 + 16 * size <= val@.len(),
            list == chanseq_list(val@, size as int),
            seq@.len() == 16,
            forall|j: int| 0 <= j < i ==> (#[trigger] seq@[j]).val@ == list[j],
        decreases AWDL_CHANSEQ_LENGTH - i,
    {
        let c: [u8; 2] = if size == 1 {
            [val[6 + i], 0]
        } else {
            [val[6 + 2 * i], val[6 + 2 * i + 1]]
        };
        assert(c@ =~= list[i as int]);
        seq[i] = AwdlChan { val: c };
        i += 1;
    }
    let ghost old_state = *state;
    proof {
        lemma_find_view(state.peers.peers@, src@);
        crate::awdl::peers::lemma_find_peer(state.peers.peers@, src@);
    }
    if let Some(p) = state.peers.peer_get_mut(src) {
        p.sequence = seq;
    }
    proof {
        if let Some(k) = find_peer(old_state.peers.peers@, src@) {
            let np = state.peers.peers@[k];
            lemma_state_peer_update(old_state, *state, k, np);
            assert(np.sequence@.map_values(|c: AwdlChan| c.val@) =~= list);
        }
    }
    RxResult::Processed
}


/// Run `f` on the peer with address `src`: its result and the peer it
/// leaves; `missing` when there is no such peer.
pub open spec fn on_peer(
    s: StateView,
    src: Seq<u8>,
    missing: RxResult,
    f: spec_fn(PeerView) -> (RxResult, PeerView),
) -> (RxResult, StateView) {
    match find_view(s.peers, src) {
        Some(i) => (f(s.peers[i]).0, with_peer(s, i, f(s.peers[i]).1)),
        None => (missing, s),
    }
}

/// The election parameters (first version) of a peer that does not use the
/// second version: height, master address, master and own metric, each
/// stored as soon as it is read, so that a truncated value leaves the fields
/// read before it.
pub open spec fn spec_election_peer(p: PeerView, val: Seq<u8>) -> (RxResult, PeerView) {
    let len = val.len() as int;
    if p.supports_v2 {
        (RxResult::Processed, p)
    } else if len < 4 {
        (RxResult::UnexpectedFormat, p)
    } else {
        let p1 = PeerView { election: ElectionView { height: val[3] as u32, ..p.election }, ..p };
        if len < 11 {
            (RxResult::UnexpectedFormat, p1)
        } else {
            let p2 = PeerView { election: ElectionView { master_addr: val.subrange(5, 11), ..p1.election }, ..p1 };
            if len < 15 {
                (RxResult::UnexpectedFormat, p2)
            } else {
                let p3 = PeerView {
                    election: ElectionView { master_metric: le32_value(val[11], val[12], val[13], val[14]) as u32, ..p2.election },
                    ..p2
                };
                if len < 19 {
                    (RxResult::UnexpectedFormat, p3)
                } else {
                    (RxResult::Processed, PeerView {
                        election: ElectionView { self_metric: le32_value(val[15], val[16], val[17], val[18]) as u32, ..p3.election },
                        ..p3
                    })
                }
            }
        }
    }
}

/// Election parameters TLV: `Ignore` from an unknown sender.
pub open spec fn spec_election_params(src: Seq<u8>, val: Seq<u8>, s: StateView) -> (RxResult, StateView) {
    on_peer(s, src, RxResult::Ignore, |p: PeerView| spec_election_peer(p, val))
}

fn election_params_peer(p: &mut AwdlPeer, val: &[u8]) -> (r: RxResult)
    ensures
        final(p).addr == old(p).addr,
        (r, final(p)@) == spec_election_peer(old(p)@, val@),
{
    if p.supports_v2 {
        return RxResult::Processed;
    }
    let distance = match wire::read_u8(val, 3) {
        Ok(v) => v,
        Err(_) => return RxResult::UnexpectedFormat,
    };
    p.election.height = distance as u32;
    let master_addr = match wire::read_ether_addr(val, 5) {
        Ok(v) => v,
        Err(_) => return RxResult::UnexpectedFormat,
    };
    p.election.master_addr = master_addr;
    let master_metric = match wire::read_le32(val, 11) {
        Ok(v) => v,
        Err(_) => return RxResult::UnexpectedFormat,
    };
    p.election.master_metric = master_metric;
    let self_metric = match wire::read_le32(val, 15) {
        Ok(v) => v,
        Err(_) => return RxResult::UnexpectedFormat,
    };
    p.election.self_metric = self_metric;
    RxResult::Processed
}

fn awdl_handle_election_params_tlv(src: &[u8; 6], val: &[u8], state: &mut AwdlState) -> (r: RxResult)
    requires
        old(state).wf(),
    ensures
        final(state).wf(),
        (r, final(state)@) == spec_election_params(src@, val@, old(state)@),
{
    let ghost old_state = *state;
    proof {
        lemma_find_view(state.peers.peers@, src@);
        crate::awdl::peers::lemma_find_peer(state.peers.peers@, src@);
    }
    let r = match state.peers.peer_get_mut(src) {
        Some(p) => election_params_peer(p, val),
        None => RxResult::Ignore,
    };
    proof {
        if let Some(k) = find_peer(old_state.peers.peers@, src@) {
            lemma_state_peer_update(old_state, *state, k, state.peers.peers@[k]);
        }
    }
    r
}

/// Election parameters, second version: master and sync address (both read
/// before either is stored), then master counter, height, master metric,
/// own metric and own counter, each stored as soon as it is read; the peer
/// is then known to use this version.
pub open spec fn spec_election_v2_peer(p: PeerView, val: Seq<u8>) -> (RxResult, PeerView) {
    let len = val.len() as int;
    if len < 12 {
        (RxResult::UnexpectedFormat, p)
    } else {
        let e1 = ElectionView { master_addr: val.subrange(0, 6), sync_addr: val.subrange(6, 12), ..p.election };
        if len < 16 {
            (RxResult::UnexpectedFormat, PeerView { election: e1, ..p })
        } else {
            let e2 = ElectionView { master_counter: le32_value(val[12], val[13], val[14], val[15]) as u32, ..e1 };
            if len < 20 {
                (RxResult::UnexpectedFormat, PeerView { election: e2, ..p })
            } else {
                let e3 = ElectionView { height: le32_value(val[16], val[17], val[18], val[19]) as u32, ..e2 };
                if len < 24 {
                    (RxResult::UnexpectedFormat, PeerView { election: e3, ..p })
                } else {
                    let e4 = ElectionView { master_metric: le32_value(val[20], val[21], val[22], val[23]) as u32, ..e3 };
                    if len < 28 {
                        (RxResult::UnexpectedFormat, PeerView { election: e4, ..p })
                    } else {
                        let e5 = ElectionView { self_metric: le32_value(val[24], val[25], val[26], val[27]) as u32, ..e4 };
                        if len < 40 {
                            (RxResult::UnexpectedFormat, PeerView { election: e5, ..p })
                        } else {
                            let e6 = ElectionView { self_counter: le32_value(val[36], val[37], val[38], val[39]) as u32, ..e5 };
                            (RxResult::Processed, PeerView { election: e6, supports_v2: true, ..p })
                        }
                    }
                }
            }
        }
    }
}

/// Election parameters (second version) TLV: `Ignore` from an unknown sender.
pub open spec fn spec_election_params_v2(src: Seq<u8>, val: Seq<u8>, s: StateView) -> (RxResult, StateView) {
    on_peer(s, src, RxResult::Ignore, |p: PeerView| spec_election_v2_peer(p, val))
}

fn election_params_v2_peer(p: &mut AwdlPeer, val: &[u8]) -> (r: RxResult)
    ensures
        final(p).addr == old(p).addr,
        (r, final(p)@) == spec_election_v2_peer(old(p)@, val@),
{
    let master_addr = match wire::read_ether_addr(val, 0) {
        Ok(v) => v,
        Err(_) => return RxResult::UnexpectedFormat,
    };
    let sync_addr = match wire::read_ether_addr(val, 6) {
        Ok(v) => v,
        Err(_) => return RxResult::UnexpectedFormat,
    };
    p.election.master_addr = master_addr;
    p.election.sync_addr = sync_addr;
    p.election.master_counter = match wire::read_le32(val, 12) {
        Ok(v) => v,
        Err(_) => return RxResult::UnexpectedFormat,
    };
    p.election.height = match wire::read_le32(val, 16) {
        Ok(v) => v,
        Err(_) => return RxResult::UnexpectedFormat,
    };
    p.election.master_metric = match wire::read_le32(val, 20) {
        Ok(v) => v,
        Err(_) => return RxResult::UnexpectedFormat,
    };
    p.election.self_metric = match wire::read_le32(val, 24) {
        Ok(v) => v,
        Err(_) => return RxResult::UnexpectedFormat,
    };
    p.election.self_counter = match wire::read_le32(val, 36) {
        Ok(v) => v,
        Err(_) => return RxResult::UnexpectedFormat,
    };
    p.supports_v2 = true;
    RxResult::Processed
}

fn awdl_handle_election_params_v2_tlv(src: &[u8; 6], val: &[u8], state: &mut AwdlState) -> (r: RxResult)
    requires
        old(state).wf(),
    ensures
        final(state).wf(),
        (r, final(state)@) == spec_election_params_v2(src@, val@, old(state)@),
{
    let ghost old_state = *state;
    proof {
        lemma_find_view(state.peers.peers@, src@);
        crate::awdl::peers::lemma_find_peer(state.peers.peers@, src@);
    }
    let r = match state.peers.peer_get_mut(src) {
        Some(p) => election_params_v2_peer(p, val),
        None => RxResult::Ignore,
    };
    proof {
        if let Some(k) = find_peer(old_state.peers.peers@, src@) {
            lemma_state_peer_update(old_state, *state, k, state.peers.peers@[k]);
        }
    }
    r
}


/// ARPA TLV: the sender's host name, a length-prefixed string after one flag
/// byte, at most 64 bytes of it.
pub open spec fn spec_arpa(src: Seq<u8>, val: Seq<u8>, s: StateView) -> (RxResult, StateView) {
    if !int_string_fits(val, 1, HOST_NAME_LENGTH_MAX as int) {
        (RxResult::UnexpectedFormat, s)
    } else {
        let name = utf8_lossy(int_string_bytes(val, 1, HOST_NAME_LENGTH_MAX as int));
        (RxResult::Processed, update_peer(s, src, |p: PeerView| PeerView { name: name, ..p }))
    }
}

fn awdl_handle_arpa_tlv(src: &[u8; 6], val: &[u8], state: &mut AwdlState) -> (r: RxResult)
    requires
        old(state).wf(),
    ensures
        final(state).wf(),
        (r, final(state)@) == spec_arpa(src@, val@, old(state)@),
{
    let name = match wire::read_int_string(val, 1, HOST_NAME_LENGTH_MAX) {
        Ok(name) => name,
        Err(_) => return RxResult::UnexpectedFormat,
    };
    let ghost old_state = *state;
    proof {
        lemma_find_view(state.peers.peers@, src@);
        crate::awdl::peers::lemma_find_peer(state.peers.peers@, src@);
    }
    if let Some(p) = state.peers.peer_get_mut(src) {
        p.name = name;
    }
    proof {
        if let Some(k) = find_peer(old_state.peers.peers@, src@) {
            lemma_state_peer_update(old_state, *state, k, state.peers.peers@[k]);
        }
    }
    RxResult::Processed
}

/// True when `bit` is set in `flags`.
pub open spec fn has_flag(flags: u16, bit: u16) -> bool {
    flags & bit != 0
}

/// Offset of the field after the optional one of `size` bytes at `off`.
pub open spec fn skip_if(present: bool, off: int, size: int) -> int {
    if present { off + size } else { off }
}

/// Offsets in a data path state TLV value, after the two flag bytes: where
/// the country code, social channel map, infrastructure info,
/// infrastructure address and AWDL address start, and where they end; each
/// is there only when its flag is set.
pub open spec fn dps_offsets(flags: u16) -> Seq<int> {
    let o_cc = 2;
    let o_social = skip_if(has_flag(flags, AWDL_DATA_PATH_FLAG_COUNTRY_CODE), o_cc, 3);
    let o_info = skip_if(has_flag(flags, AWDL_DATA_PATH_FLAG_SOCIAL_CHANNEL_MAP), o_social, 2);
    let o_infra = skip_if(has_flag(flags, AWDL_DATA_PATH_FLAG_INFRA_INFO), o_info, 8);
    let o_awdl = skip_if(has_flag(flags, AWDL_DATA_PATH_FLAG_INFRA_ADDRESS), o_infra, 6);
    let o_end = skip_if(has_flag(flags, AWDL_DATA_PATH_FLAG_AWDL_ADDRESS), o_awdl, 6);
    seq![o_cc, o_social, o_info, o_infra, o_awdl, o_end]
}

/// Data path state TLV: the flagged fields must all be present; the country
/// code (its first two bytes, decoded) and the infrastructure address are
/// stored when flagged.
pub open spec fn spec_data_path(src: Seq<u8>, val: Seq<u8>, s: StateView) -> (RxResult, StateView) {
    if val.len() < 2 {
        (RxResult::UnexpectedFormat, s)
    } else {
        let flags = le16_value(val[0], val[1]) as u16;
        let o = dps_offsets(flags);
        if val.len() < o[5] {
            (RxResult::UnexpectedFormat, s)
        } else {
            let has_cc = has_flag(flags, AWDL_DATA_PATH_FLAG_COUNTRY_CODE);
            let has_infra = has_flag(flags, AWDL_DATA_PATH_FLAG_INFRA_ADDRESS);
            let cc = utf8_lossy(val.subrange(o[0], o[0] + 2));
            let infra = val.subrange(o[3], o[3] + 6);
            (RxResult::Processed, update_peer(s, src, |p: PeerView| PeerView {
                country_code: if has_cc { cc } else { p.country_code },
                infra_addr: if has_infra { infra } else { p.infra_addr },
                ..p
            }))
        }
    }
}

fn awdl_handle_data_path_state_tlv(src: &[u8; 6], val: &[u8], state: &mut AwdlState) -> (r: RxResult)
    requires
        old(state).wf(),
    ensures
        final(state).wf(),
        (r, final(state)@) == spec_data_path(src@, val@, old(state)@),
{
    let flags = match wire::read_le16(val, 0) {
        Ok(v) => v,
        Err(_) => return RxResult::UnexpectedFormat,
    };
    let ghost o = dps_offsets(flags);
    let mut offset: usize = 2;
    let mut country_code: Option<String> = None;
    let mut infra_addr: Option<[u8; 6]> = None;
    if flags & AWDL_DATA_PATH_FLAG_COUNTRY_CODE != 0 {
        let cc = match wire::read_bytes(val, offset, 3) {
            Ok(b) => b,
            Err(_) => return RxResult::UnexpectedFormat,
        };
        let first_two = slice_subrange(cc, 0, 2);
        assert(first_two@ =~= val@.subrange(o[0], o[0] + 2));
        country_code = Some(wire::decode_utf8_lossy(first_two));
        offset += 3;
    }
    assert(offset == o[1]);
    if flags & AWDL_DATA_PATH_FLAG_SOCIAL_CHANNEL_MAP != 0 {
        if wire::read_le16(val, offset).is_err() {
            return RxResult::UnexpectedFormat;
        }
        offset += 2;
    }
    assert(offset == o[2]);
    if flags & AWDL_DATA_PATH_FLAG_INFRA_INFO != 0 {
        if wire::read_ether_addr(val, offset).is_err() {
            return RxResult::UnexpectedFormat;
        }
        offset += 6;
        if wire::read_le16(val, offset).is_err() {
            return RxResult::UnexpectedFormat;
        }
        offset += 2;
    }
    assert(offset == o[3]);
    if flags & AWDL_DATA_PATH_FLAG_INFRA_ADDRESS != 0 {
        match wire::read_ether_addr(val, offset) {
            Ok(a) => {
                infra_addr = Some(a);
            },
            Err(_) => return RxResult::UnexpectedFormat,
        }
        offset += 6;
    }
    assert(offset == o[4]);
    if flags & AWDL_DATA_PATH_FLAG_AWDL_ADDRESS != 0 {
        if wire::read_ether_addr(val, offset).is_err() {
            return RxResult::UnexpectedFormat;
        }
        offset += 6;
    }
    assert(offset == o[5]);
    let ghost old_state = *state;
    proof {
        lemma_find_view(state.peers.peers@, src@);
        crate::awdl::peers::lemma_find_peer(state.peers.peers@, src@);
    }
    if let Some(p) = state.peers.peer_get_mut(src) {
        if let Some(cc) = country_code {
            p.country_code = cc;
        }
        if let Some(ia) = infra_addr {
            p.infra_addr = ia;
        }
    }
    proof {
        if let Some(k) = find_peer(old_state.peers.peers@, src@) {
            lemma_state_peer_update(old_state, *state, k, state.peers.peers@[k]);
        }
    }
    RxResult::Processed
}

/// Version TLV: the sender's protocol version and device class.
pub open spec fn spec_version(src: Seq<u8>, val: Seq<u8>, s: StateView) -> (RxResult, StateView) {
    if val.len() < 2 {
        (RxResult::UnexpectedFormat, s)
    } else {
        (RxResult::Processed, update_peer(s, src, |p: PeerView| PeerView { version: val[0], devclass: val[1], ..p }))
    }
}

fn awdl_handle_version_tlv(src: &[u8; 6], val: &[u8], state: &mut AwdlState) -> (r: RxResult)
    requires
        old(state).wf(),
    ensures
        final(state).wf(),
        (r, final(state)@) == spec_version(src@, val@, old(state)@),
{
    let version = match wire::read_u8(val, 0) {
        Ok(v) => v,
        Err(_) => return RxResult::UnexpectedFormat,
    };
    let devclass = match wire::read_u8(val, 1) {
        Ok(v) => v,
        Err(_) => return RxResult::UnexpectedFormat,
    };
    let ghost old_state = *state;
    proof {
        lemma_find_view(state.peers.peers@, src@);
        crate::awdl::peers::lemma_find_peer(state.peers.peers@, src@);
    }
    if let Some(p) = state.peers.peer_get_mut(src) {
        p.version = version;
        p.devclass = devclass;
    }
    proof {
        if let Some(k) = find_peer(old_state.peers.peers@, src@) {
            lemma_state_peer_update(old_state, *state, k, state.peers.peers@[k]);
        }
    }
    RxResult::Processed
}

/// One TLV of type `t` with value `val` from `src`, received at `now`; types
/// this node does not handle are ignored.
pub open spec fn spec_handle_tlv(src: Seq<u8>, t: u8, val: Seq<u8>, s: StateView, now: u64) -> (RxResult, StateView) {
    if t == AWDL_SYNCHRONIZATON_PARAMETERS_TLV {
        spec_sync_params(src, val, s, now)
    } else if t == AWDL_CHAN_SEQ_TLV {
        spec_chanseq(src, val, s)
    } else if t == AWDL_ELECTION_PARAMETERS_TLV {
        spec_election_params(src, val, s)
    } else if t == AWDL_ELECTION_PARAMETERS_V2_TLV {
        spec_election_params_v2(src, val, s)
    } else if t == AWDL_ARPA_TLV {
        spec_arpa(src, val, s)
    } else if t == AWDL_DATA_PATH_STATE_TLV {
        spec_data_path(src, val, s)
    } else if t == AWDL_VERSION_TLV {
        spec_version(src, val, s)
    } else {
        (RxResult::Ignore, s)
    }
}

fn awdl_handle_tlv(src: &[u8; 6], tlv_type: u8, val: &[u8], state: &mut AwdlState, now: u64) -> (r: RxResult)
    requires
        old(state).wf(),
    ensures
        final(state).wf(),
        (r, final(state)@) == spec_handle_tlv(src@, tlv_type, val@, old(state)@, now),
{
    if tlv_type == AWDL_SYNCHRONIZATON_PARAMETERS_TLV {
        awdl_handle_sync_params_tlv(src, val, state, now)
    } else if tlv_type == AWDL_CHAN_SEQ_TLV {
        awdl_handle_chanseq_tlv(src, val, state)
    } else if tlv_type == AWDL_ELECTION_PARAMETERS_TLV {
        awdl_handle_election_params_tlv(src, val, state)
    } else if tlv_type == AWDL_ELECTION_PARAMETERS_V2_TLV {
        awdl_handle_election_params_v2_tlv(src, val, state)
    } else if tlv_type == AWDL_ARPA_TLV {
        awdl_handle_arpa_tlv(src, val, state)
    } else if tlv_type == AWDL_DATA_PATH_STATE_TLV {
        awdl_handle_data_path_state_tlv(src, val, state)
    } else if tlv_type == AWDL_VERSION_TLV {
        awdl_handle_version_tlv(src, val, state)
    } else {
        RxResult::Ignore
    }
}


/// The subtype of an AWDL action frame header at the start of `frame`: a
/// vendor-specific action with Apple's OUI, AWDL type and compatible
/// version, and subtype PSF (0) or MIF (3).
pub open spec fn spec_parse_action_hdr(frame: Seq<u8>) -> Option<AwdlActionType> {
    if frame.len() < 16 || frame[0] != IEEE80211_VENDOR_SPECIFIC || frame.subrange(1, 4) != AWDL_OUI@
        || frame[4] != AWDL_TYPE || frame[5] != AWDL_VERSION_COMPAT {
        None
    } else if frame[6] == 0 {
        Some(AwdlActionType::PSF)
    } else if frame[6] == 3 {
        Some(AwdlActionType::MIF)
    } else {
        None
    }
}

/// Parse the AWDL action frame header at the start of `frame`.
pub fn awdl_parse_action_hdr(frame: &[u8]) -> (r: Option<AwdlActionType>)
    ensures
        r == spec_parse_action_hdr(frame@),
{
    if frame.len() < 16 {
        return None;
    }
    let oui = slice_subrange(frame, 1, 4);
    let oui_ok = oui[0] == AWDL_OUI[0] && oui[1] == AWDL_OUI[1] && oui[2] == AWDL_OUI[2];
    proof {
        assert(oui_ok == (frame@.subrange(1, 4) =~= AWDL_OUI@));
    }
    if frame[0] != IEEE80211_VENDOR_SPECIFIC || !oui_ok || frame[4] != AWDL_TYPE || frame[5] != AWDL_VERSION_COMPAT {
        return None;
    }
    if frame[6] == 0 {
        Some(AwdlActionType::PSF)
    } else if frame[6] == 3 {
        Some(AwdlActionType::MIF)
    } else {
        None
    }
}

/// The TLVs of `frame` from offset `off` on, handled one after another:
/// whether all parsed and none was malformed, and the state they leave. A
/// malformed TLV stops the walk, keeping what the TLVs before it did.
pub open spec fn spec_tlv_loop(src: Seq<u8>, frame: Seq<u8>, off: int, s: StateView, now: u64) -> (bool, StateView)
    decreases frame.len() - off,
{
    if off < 0 || off >= frame.len() {
        (true, s)
    } else if !tlv_fits(frame, off) {
        (false, s)
    } else {
        let l = le16_value(frame[off + 1], frame[off + 2]);
        let (r, s2) = spec_handle_tlv(src, frame[off], frame.subrange(off + 3, off + 3 + l), s, now);
        if spec_rx_code(r) < 0 {
            (false, s2)
        } else {
            spec_tlv_loop(src, frame, off + 3 + l, s2, now)
        }
    }
}

/// `s` with the peer table after adding or refreshing `src` at `now`.
pub open spec fn with_peer_added(s: StateView, src: Seq<u8>, now: u64) -> StateView {
    StateView { peers: spec_peer_add_view(s.peers, src, now).0, ..s }
}

/// Whether the RSSI filter drops a frame of signal `rssi` from `src`: known
/// peers get the grace allowance on top of the threshold.
pub open spec fn rssi_too_low(s: StateView, src: Seq<u8>, rssi: i8) -> bool {
    let known = find_view(s.peers, src) is Some;
    s.filter_rssi && ((known && rssi < vstd::wrapping::i8_specs::wrapping_add(s.rssi_threshold, s.rssi_grace))
        || (!known && rssi < s.rssi_threshold))
}

/// An action frame (after the 802.11 header) from `src` with signal `rssi`,
/// received at `now`: count it, add or refresh the sender, handle its TLVs,
/// note a MIF, and refresh the sender once more so its validity reflects
/// what the TLVs said.
pub open spec fn spec_rx_action(frame: Seq<u8>, rssi: i8, now: u64, src: Seq<u8>, s: StateView) -> (RxResult, StateView) {
    match spec_parse_action_hdr(frame) {
        None => (RxResult::Ignore, s),
        Some(subtype) => {
            if rssi_too_low(s, src, rssi) {
                (RxResult::IgnoreRssi, s)
            } else {
                let s1 = StateView {
                    stats: AwdlStats { rx_action: vstd::wrapping::u64_specs::wrapping_add(s.stats.rx_action, 1), ..s.stats },
                    ..s
                };
                let s2 = with_peer_added(s1, src, now);
                let (ok, s3) = spec_tlv_loop(src, frame, 16, s2, now);
                if !ok {
                    (RxResult::UnexpectedFormat, s3)
                } else {
                    let s4 = if subtype == AwdlActionType::MIF {
                        update_peer(s3, src, |p: PeerView| PeerView { sent_mif: true, ..p })
                    } else {
                        s3
                    };
                    (RxResult::Processed, with_peer_added(s4, src, now))
                }
            }
        },
    }
}

/// `peer_add` on the node's peer table, stated on views.
fn state_peer_add(state: &mut AwdlState, src: &[u8; 6], now: u64) -> (r: PeersStatus)
    requires
        old(state).wf(),
    ensures
        final(state).wf(),
        final(state)@ == with_peer_added(old(state)@, src@, now),
        r == spec_peer_add_view(old(state)@.peers, src@, now).1,
{
    let (status, _just_valid) = state.peers.peer_add(src, now);
    status
}

#[verifier::loop_isolation(false)]
fn awdl_rx_action(frame: &[u8], rssi: i8, now: u64, src: &[u8; 6], state: &mut AwdlState) -> (r: RxResult)
    requires
        old(state).wf(),
    ensures
        final(state).wf(),
        (r, final(state)@) == spec_rx_action(frame@, rssi, now, src@, old(state)@),
{
    let subtype = match awdl_parse_action_hdr(frame) {
        Some(s) => s,
        None => return RxResult::Ignore,
    };
    proof {
        lemma_find_view(state.peers.peers@, src@);
        crate::awdl::peers::lemma_find_peer(state.peers.peers@, src@);
    }
    if state.filter_rssi {
        let known = state.peers.peer_get(src).is_some();
        if (known && rssi < state.rssi_threshold.wrapping_add(state.rssi_grace)) || (!known && rssi < state.rssi_threshold) {
            return RxResult::IgnoreRssi;
        }
    }
    let ghost s0 = state@;
    state.stats.rx_action = state.stats.rx_action.wrapping_add(1);
    let status = state_peer_add(state, src, now);
    if status == PeersStatus::Internal {
        return RxResult::Ignore;
    }
    let ghost s2 = state@;
    let mut off: usize = 16;
    while off < frame.len()
        invariant
            state.wf(),
            16 <= off,
            spec_tlv_loop(src@, frame@, 16, s2, now) == spec_tlv_loop(src@, frame@, off as int, state@, now),
        decreases frame.len() - off,
    {
        let (tlv_type, _tlv_len, tlv_val, consumed) = match wire::read_tlv(frame, off) {
            Ok(v) => v,
            Err(_) => return RxResult::UnexpectedFormat,
        };
        let result = awdl_handle_tlv(src, tlv_type, tlv_val, state, now);
        if rx_code(result) < 0 {
            return RxResult::UnexpectedFormat;
        }
        off += consumed;
    }
    if subtype == AwdlActionType::MIF {
        let ghost old_state = *state;
        proof {
            lemma_find_view(state.peers.peers@, src@);
            crate::awdl::peers::lemma_find_peer(state.peers.peers@, src@);
        }
        if let Some(p) = state.peers.peer_get_mut(src) {
            p.sent_mif = true;
        }
        proof {
            if let Some(k) = find_peer(old_state.peers.peers@, src@) {
                lemma_state_peer_update(old_state, *state, k, state.peers.peers@[k]);
            }
        }
    }
    state_peer_add(state, src, now);
    RxResult::Processed
}


/// Parse the LLC/SNAP header at the start of `frame`: `None` when the frame
/// is shorter than the header.
pub fn llc_parse(frame: &[u8]) -> (r: Option<LlcHdr>)
    ensures
        r is Some <==> frame@.len() >= 8,
        r matches Some(l) ==> {
            &&& l.dsap == frame@[0]
            &&& l.ssap == frame@[1]
            &&& l.control == frame@[2]
            &&& l.oui@ == frame@.subrange(3, 6)
            &&& l.pid as int == be16_value(frame@[6], frame@[7])
        },
{
    let dsap = match wire::read_u8(frame, 0) {
        Ok(v) => v,
        Err(_) => return None,
    };
    let ssap = match wire::read_u8(frame, 1) {
        Ok(v) => v,
        Err(_) => return None,
    };
    let control = match wire::read_u8(frame, 2) {
        Ok(v) => v,
        Err(_) => return None,
    };
    let mut oui = [0u8; 3];
    if wire::read_bytes_copy(frame, 3, &mut oui).is_err() {
        return None;
    }
    let pid = match wire::read_be16(frame, 6) {
        Ok(v) => v,
        Err(_) => return None,
    };
    Some(LlcHdr { dsap, ssap, control, oui, pid })
}

/// An AWDL LLC/SNAP header: SNAP saps, unnumbered control, and the AWDL
/// protocol id.
pub open spec fn spec_valid_llc(frame: Seq<u8>) -> bool {
    &&& frame.len() >= 8
    &&& frame[0] == 0xaa
    &&& frame[1] == 0xaa
    &&& frame[2] == 0x03
    &&& be16_value(frame[6], frame[7]) == AWDL_LLC_PROTOCOL_ID
}

/// Whether `frame` starts with an AWDL LLC/SNAP header.
pub fn awdl_valid_llc_header(frame: &[u8]) -> (r: bool)
    ensures
        r == spec_valid_llc(frame@),
{
    match llc_parse(frame) {
        Some(llc) => llc.dsap == 0xaa && llc.ssap == 0xaa && llc.control == 0x03 && llc.pid == AWDL_LLC_PROTOCOL_ID,
        None => false,
    }
}

/// The view of an optional frame.
pub open spec fn opt_bytes(o: Option<Vec<u8>>) -> Option<Seq<u8>> {
    match o {
        Some(v) => Some(v@),
        None => None,
    }
}

/// A data frame (after the 802.11 header) from `src` to `dst`: counted;
/// from a known peer with an AWDL LLC header and a full AWDL data header it
/// becomes an Ethernet frame: destination, source, the LLC protocol id as
/// EtherType, and the payload after the AWDL data header.
pub open spec fn spec_rx_data(frame: Seq<u8>, src: Seq<u8>, dst: Seq<u8>, s: StateView) -> (Option<Seq<u8>>, StateView) {
    let s1 = StateView {
        stats: AwdlStats { rx_data: vstd::wrapping::u64_specs::wrapping_add(s.stats.rx_data, 1), ..s.stats },
        ..s
    };
    if find_view(s.peers, src) is None || !spec_valid_llc(frame) || frame.len() < 16 {
        (None, s1)
    } else {
        (Some(dst + src + be16_bytes(be16_value(frame[6], frame[7]) as u16) + frame.subrange(16, frame.len() as int)), s1)
    }
}

fn awdl_rx_data(frame: &[u8], src: &[u8; 6], dst: &[u8; 6], state: &mut AwdlState) -> (r: Option<Vec<u8>>)
    requires
        old(state).wf(),
    ensures
        final(state).wf(),
        (opt_bytes(r), final(state)@) == spec_rx_data(frame@, src@, dst@, old(state)@),
{
    state.stats.rx_data = state.stats.rx_data.wrapping_add(1);
    proof {
        lemma_find_view(state.peers.peers@, src@);
        crate::awdl::peers::lemma_find_peer(state.peers.peers@, src@);
    }
    if state.peers.peer_get(src).is_none() {
        return None;
    }
    if !awdl_valid_llc_header(frame) {
        return None;
    }
    let ether_type = match wire::read_be16(frame, 6) {
        Ok(v) => v,
        Err(_) => return None,
    };
    if frame.len() < 16 {
        return None;
    }
    let mut eth: Vec<u8> = Vec::new();
    push_bytes(&mut eth, dst.as_slice());
    push_bytes(&mut eth, src.as_slice());
    push_be16(&mut eth, ether_type);
    push_bytes(&mut eth, slice_subrange(frame, 16, frame.len()));
    Some(eth)
}

/// Padding after an A-MSDU subframe of `len` payload bytes, to a multiple of
/// four, but never past the `left` bytes that remain.
pub open spec fn amsdu_padding(len: int, left: int) -> int {
    let pad = (4 - ((14 + len) % 4)) % 4;
    if pad < left { pad } else { left }
}

/// The A-MSDU subframes of `frame` from `off` on, each converted as a data
/// frame with the addresses of its own header; the result is the last
/// subframe that converted (or `acc` when none did). A subframe whose header
/// or payload is cut off ends the walk.
pub open spec fn spec_amsdu(frame: Seq<u8>, off: int, s: StateView, acc: Option<Seq<u8>>) -> (Option<Seq<u8>>, StateView)
    decreases frame.len() - off,
{
    if off < 0 || frame.len() - off < 14 {
        (acc, s)
    } else {
        let la = be16_value(frame[off + 12], frame[off + 13]);
        let start = off + 14;
        if la > frame.len() - start {
            (acc, s)
        } else {
            let (e, s2) = spec_rx_data(
                frame.subrange(start, start + la),
                frame.subrange(off + 6, off + 12),
                frame.subrange(off, off + 6),
                s,
            );
            let acc2 = if e is Some { e } else { acc };
            let next = start + la;
            spec_amsdu(frame, next + amsdu_padding(la, frame.len() - next), s2, acc2)
        }
    }
}

#[verifier::loop_isolation(false)]
fn awdl_rx_data_amsdu(frame: &[u8], state: &mut AwdlState) -> (r: Option<Vec<u8>>)
    requires
        old(state).wf(),
    ensures
        final(state).wf(),
        (opt_bytes(r), final(state)@) == spec_amsdu(frame@, 0, old(state)@, None),
{
    let mut result: Option<Vec<u8>> = None;
    let mut off: usize = 0;
    while off < frame.len()
        invariant
            state.wf(),
            off <= frame@.len(),
            spec_amsdu(frame@, 0, old(state)@, None) == spec_amsdu(frame@, off as int, state@, opt_bytes(result)),
        decreases frame.len() - off,
    {
        if frame.len() - off < 14 {
            break;
        }
        let dst_a = match wire::read_ether_addr(frame, off) {
            Ok(a) => a,
            Err(_) => return None,
        };
        let src_a = match wire::read_ether_addr(frame, off + 6) {
            Ok(a) => a,
            Err(_) => return None,
        };
        let len_a = match wire::read_be16(frame, off + 12) {
            Ok(v) => v as usize,
            Err(_) => return None,
        };
        let start = off + 14;
        if len_a > frame.len() - start {
            break;
        }
        let sub = slice_subrange(frame, start, start + len_a);
        if let Some(eth) = awdl_rx_data(sub, &src_a, &dst_a, state) {
            result = Some(eth);
        }
        let next = start + len_a;
        off = if next < frame.len() {
            let padding = (4 - ((14 + len_a) % 4)) % 4;
            let left = frame.len() - next;
            next + if padding < left { padding } else { left }
        } else {
            next
        };
    }
    result
}

/// Radiotap header fields this node reads: the signal strength (dBm) and
/// the flags, each 0 when absent.
pub struct RadiotapInfo {
    pub rssi: i8,
    pub flags: u8,
}

/// The radiotap header at the start of `frame`: version 0 and a length
/// inside the frame. Of the present fields only TSFT (8 bytes), flags,
/// rate and antenna signal, in that order and without alignment padding,
/// are located; flags and signal are read when they lie inside the header.
pub open spec fn spec_radiotap(frame: Seq<u8>) -> Option<(i8, u8)> {
    if frame.len() < 8 {
        None
    } else {
        let it_len = le16_value(frame[2], frame[3]);
        if frame[0] != 0 || it_len > frame.len() {
            None
        } else {
            let present = le32_value(frame[4], frame[5], frame[6], frame[7]) as u32;
            let o_flags = if present & 1 != 0 { 16int } else { 8int };
            let flags = if present & 2 != 0 && o_flags + 1 <= it_len { frame[o_flags] } else { 0u8 };
            let o_rate = if present & 2 != 0 { o_flags + 1 } else { o_flags };
            let o_signal = if present & 4 != 0 { o_rate + 1 } else { o_rate };
            let rssi = if present & 0x20 != 0 && o_signal + 1 <= it_len { frame[o_signal] as i8 } else { 0i8 };
            Some((rssi, flags))
        }
    }
}

/// Parse the radiotap header at the start of `frame`.
pub fn radiotap_parse(frame: &[u8]) -> (r: Option<RadiotapInfo>)
    ensures
        match spec_radiotap(frame@) {
            Some((rssi, flags)) => r matches Some(i) && i.rssi == rssi && i.flags == flags,
            None => r is None,
        },
{
    if frame.len() < 8 {
        return None;
    }
    let it_len = match wire::read_le16(frame, 2) {
        Ok(v) => v as usize,
        Err(_) => return None,
    };
    if frame[0] != 0 || it_len > frame.len() {
        return None;
    }
    let present = match wire::read_le32(frame, 4) {
        Ok(v) => v,
        Err(_) => return None,
    };
    let mut rssi: i8 = 0;
    let mut flags: u8 = 0;
    let mut offset: usize = 8;
    if present & 1 != 0 {
        offset += 8;
    }
    if present & 2 != 0 {
        if offset + 1 <= it_len {
            flags = frame[offset];
        }
        offset += 1;
    }
    if present & 4 != 0 {
        offset += 1;
    }
    if present & 0x20 != 0 {
        if offset + 1 <= it_len {
            rssi = frame[offset] as i8;
        }
    }
    Some(RadiotapInfo { rssi, flags })
}

/// Radiotap flag: the frame ends with its FCS.
pub const IEEE80211_RADIOTAP_F_FCS: u8 = 0x10;

/// Radiotap flag: the FCS check failed.
pub const IEEE80211_RADIOTAP_F_BADFCS: u8 = 0x40;

/// The length of a frame of `len` bytes once its FCS is dropped, or `None`
/// when the radiotap flags mark the FCS bad.
pub open spec fn spec_check_fcs(len: int, flags: u8) -> Option<int> {
    if flags & IEEE80211_RADIOTAP_F_BADFCS != 0 {
        None
    } else if flags & IEEE80211_RADIOTAP_F_FCS != 0 && len >= 4 {
        Some(len - 4)
    } else {
        Some(len)
    }
}

/// The length of `frame` without its FCS, or `None` for a bad FCS.
pub fn check_fcs(len: usize, flags: u8) -> (r: Option<usize>)
    ensures
        match spec_check_fcs(len as int, flags) {
            Some(n) => r == Some(n as usize),
            None => r is None,
        },
{
    if flags & IEEE80211_RADIOTAP_F_BADFCS != 0 {
        return None;
    }
    if flags & IEEE80211_RADIOTAP_F_FCS != 0 && len >= 4 {
        Some(len - 4)
    } else {
        Some(len)
    }
}

/// A received radiotap frame at time `now`: the result, the Ethernet frame
/// it yields (if any) and the state it leaves.
pub open spec fn spec_rx(input: Seq<u8>, s: StateView, now: u64) -> (RxResult, Option<Seq<u8>>, StateView) {
    match spec_radiotap(input) {
        None => (RxResult::UnexpectedFormat, None, s),
        Some((rssi, flags)) => {
            let it_len = le16_value(input[2], input[3]);
            match spec_check_fcs(input.len() - it_len, flags) {
                None => (RxResult::IgnoreFailedCrc, None, s),
                Some(n) => {
                    let body = input.subrange(it_len, it_len + n);
                    if body.len() < 24 {
                        (RxResult::UnexpectedFormat, None, s)
                    } else {
                        let to = body.subrange(4, 10);
                        let from = body.subrange(10, 16);
                        let fc = le16_value(body[0], body[1]) as u16;
                        let rest = body.subrange(24, body.len() as int);
                        let ftype = fc & IEEE80211_FCTL_FTYPE;
                        let stype = fc & IEEE80211_FCTL_STYPE;
                        if from == s.self_address {
                            (RxResult::IgnoreFromSelf, None, s)
                        } else if ftype == IEEE80211_FTYPE_MGMT && stype == IEEE80211_STYPE_ACTION {
                            let (r, s2) = spec_rx_action(rest, rssi, now, from, s);
                            (r, None, s2)
                        } else if ftype == IEEE80211_FTYPE_DATA && stype == IEEE80211_STYPE_DATA {
                            let (e, s2) = spec_rx_data(rest, from, to, s);
                            (RxResult::Processed, e, s2)
                        } else if ftype == IEEE80211_FTYPE_DATA && stype == IEEE80211_STYPE_QOS_DATA {
                            if rest.len() < 2 {
                                (RxResult::UnexpectedFormat, None, s)
                            } else {
                                let qosc = le16_value(rest[0], rest[1]) as u16;
                                let payload = rest.subrange(2, rest.len() as int);
                                if qosc & IEEE80211_QOS_CTL_A_MSDU_PRESENT != 0 {
                                    let (e, s2) = spec_amsdu(payload, 0, s, None);
                                    (RxResult::Processed, e, s2)
                                } else {
                                    let (e, s2) = spec_rx_data(payload, from, to, s);
                                    (RxResult::Processed, e, s2)
                                }
                            }
                        } else {
                            (RxResult::UnexpectedType, None, s)
                        }
                    }
                },
            }
        },
    }
}

/// Handle a received radiotap frame at time `now`: returns the result and,
/// for a data frame from a known peer, the Ethernet frame it carries.
pub fn awdl_rx_frame_at(input: &[u8], state: &mut AwdlState, now: u64) -> (r: (RxResult, Option<Vec<u8>>))
    requires
        old(state).wf(),
    ensures
        final(state).wf(),
        (r.0, opt_bytes(r.1), final(state)@) == spec_rx(input@, old(state)@, now),
{
    let info = match radiotap_parse(input) {
        Some(i) => i,
        None => return (RxResult::UnexpectedFormat, None),
    };
    let it_len = match wire::read_le16(input, 2) {
        Ok(v) => v as usize,
        Err(_) => return (RxResult::UnexpectedFormat, None),
    };
    let n = match check_fcs(input.len() - it_len, info.flags) {
        Some(n) => n,
        None => return (RxResult::IgnoreFailedCrc, None),
    };
    let body = slice_subrange(input, it_len, it_len + n);
    if body.len() < 24 {
        return (RxResult::UnexpectedFormat, None);
    }
    let to = match wire::read_ether_addr(body, 4) {
        Ok(a) => a,
        Err(_) => return (RxResult::UnexpectedFormat, None),
    };
    let from = match wire::read_ether_addr(body, 10) {
        Ok(a) => a,
        Err(_) => return (RxResult::UnexpectedFormat, None),
    };
    let fc = match wire::read_le16(body, 0) {
        Ok(v) => v,
        Err(_) => return (RxResult::UnexpectedFormat, None),
    };
    proof {
        assert(state@.self_address == state.self_address@);
    }
    if crate::awdl::election::ether_addr_eq(&from, &state.self_address) {
        return (RxResult::IgnoreFromSelf, None);
    }
    let rest = slice_subrange(body, 24, body.len());
    let ftype = fc & IEEE80211_FCTL_FTYPE;
    let stype = fc & IEEE80211_FCTL_STYPE;
    if ftype == IEEE80211_FTYPE_MGMT && stype == IEEE80211_STYPE_ACTION {
        let res = awdl_rx_action(rest, info.rssi, now, &from, state);
        (res, None)
    } else if ftype == IEEE80211_FTYPE_DATA && stype == IEEE80211_STYPE_DATA {
        let eth = awdl_rx_data(rest, &from, &to, state);
        (RxResult::Processed, eth)
    } else if ftype == IEEE80211_FTYPE_DATA && stype == IEEE80211_STYPE_QOS_DATA {
        let qosc = match wire::read_le16(rest, 0) {
            Ok(v) => v,
            Err(_) => return (RxResult::UnexpectedFormat, None),
        };
        let payload = slice_subrange(rest, IEEE80211_QOS_CTL_LEN, rest.len());
        if qosc & IEEE80211_QOS_CTL_A_MSDU_PRESENT != 0 {
            let eth = awdl_rx_data_amsdu(payload, state);
            (RxResult::Processed, eth)
        } else {
            let eth = awdl_rx_data(payload, &from, &to, state);
            (RxResult::Processed, eth)
        }
    } else {
        (RxResult::UnexpectedType, None)
    }
}

/// Handle a received radiotap frame, stamped with the current time: what
/// `awdl_rx_frame_at` does at the time the clock gave.
pub fn awdl_rx_frame(frame: &[u8], state: &mut AwdlState) -> (r: (RxResult, Option<Vec<u8>>))
    requires
        old(state).wf(),
    ensures
        final(state).wf(),
        exists|now: u64| (r.0, opt_bytes(r.1), final(state)@) == spec_rx(frame@, old(state)@, now),
{
    let now = clock_time_us();
    awdl_rx_frame_at(frame, state, now)
}

// ---------------------------------------------------------------------------
// The peer table under received TLVs
// ---------------------------------------------------------------------------

/// Two peer tables list the same peers, in the same order, last heard at
/// the same times.
pub open spec fn same_peers(a: Seq<PeerView>, b: Seq<PeerView>) -> bool {
    &&& a.len() == b.len()
    &&& forall|k: int| 0 <= k < a.len() ==> (#[trigger] a[k]).addr == b[k].addr && a[k].last_update == b[k].last_update
}

proof fn lemma_find_view_same(a: Seq<PeerView>, b: Seq<PeerView>, addr: Seq<u8>, i: int)
    requires
        same_peers(a, b),
    ensures
        crate::awdl::peers::find_view_from(a, addr, i) == crate::awdl::peers::find_view_from(b, addr, i),
    decreases a.len() - i,
{
    if 0 <= i < a.len() {
        assert(a[i].addr == b[i].addr);
        lemma_find_view_same(a, b, addr, i + 1);
    }
}

proof fn lemma_find_view_from_range(a: Seq<PeerView>, addr: Seq<u8>, i: int)
    ensures
        crate::awdl::peers::find_view_from(a, addr, i) matches Some(j) ==> i <= j < a.len() && a[j].addr == addr,
    decreases a.len() - i,
{
    if 0 <= i < a.len() && a[i].addr != addr {
        lemma_find_view_from_range(a, addr, i + 1);
    }
}

proof fn lemma_update_peer_same(s: StateView, src: Seq<u8>, f: spec_fn(PeerView) -> PeerView)
    requires
        forall|p: PeerView| #[trigger] f(p).addr == p.addr && f(p).last_update == p.last_update,
    ensures
        same_peers(s.peers, update_peer(s, src, f).peers),
{
    lemma_find_view_from_range(s.peers, src, 0);
    if let Some(i) = find_view(s.peers, src) {
        let t = update_peer(s, src, f).peers;
        assert forall|k: int| 0 <= k < s.peers.len() implies (#[trigger] s.peers[k]).addr == t[k].addr
            && s.peers[k].last_update == t[k].last_update by {
            if k == i {
                assert(f(s.peers[i]).addr == s.peers[i].addr);
            }
        }
    }
}

proof fn lemma_on_peer_same(s: StateView, src: Seq<u8>, missing: RxResult, f: spec_fn(PeerView) -> (RxResult, PeerView))
    requires
        forall|p: PeerView| #[trigger] f(p).1.addr == p.addr && f(p).1.last_update == p.last_update,
    ensures
        same_peers(s.peers, on_peer(s, src, missing, f).1.peers),
{
    lemma_find_view_from_range(s.peers, src, 0);
    if let Some(i) = find_view(s.peers, src) {
        let t = on_peer(s, src, missing, f).1.peers;
        assert forall|k: int| 0 <= k < s.peers.len() implies (#[trigger] s.peers[k]).addr == t[k].addr
            && s.peers[k].last_update == t[k].last_update by {
            if k == i {
                assert(f(s.peers[i]).1.addr == s.peers[i].addr);
            }
        }
    }
}

proof fn lemma_handle_tlv_same(src: Seq<u8>, t: u8, val: Seq<u8>, s: StateView, now: u64)
    ensures
        same_peers(s.peers, spec_handle_tlv(src, t, val, s, now).1.peers),
{
    if t == AWDL_CHAN_SEQ_TLV {
        let len = val.len() as int;
        if len >= 6 {
            match spec_encoding_of(val[1]) {
                Some(enc) => {
                    let size = spec_encoding_size(enc) as int;
                    let list = chanseq_list(val, size);
                    lemma_update_peer_same(s, src, |p: PeerView| PeerView { sequence: list, ..p });
                },
                None => {},
            }
        }
    } else if t == AWDL_ELECTION_PARAMETERS_TLV {
        lemma_on_peer_same(s, src, RxResult::Ignore, |p: PeerView| spec_election_peer(p, val));
    } else if t == AWDL_ELECTION_PARAMETERS_V2_TLV {
        lemma_on_peer_same(s, src, RxResult::Ignore, |p: PeerView| spec_election_v2_peer(p, val));
    } else if t == AWDL_ARPA_TLV {
        if int_string_fits(val, 1, HOST_NAME_LENGTH_MAX as int) {
            let name = utf8_lossy(int_string_bytes(val, 1, HOST_NAME_LENGTH_MAX as int));
            lemma_update_peer_same(s, src, |p: PeerView| PeerView { name: name, ..p });
        }
    } else if t == AWDL_DATA_PATH_STATE_TLV {
        if val.len() >= 2 {
            let flags = le16_value(val[0], val[1]) as u16;
            let o = dps_offsets(flags);
            let has_cc = has_flag(flags, AWDL_DATA_PATH_FLAG_COUNTRY_CODE);
            let has_infra = has_flag(flags, AWDL_DATA_PATH_FLAG_INFRA_ADDRESS);
            let cc = utf8_lossy(val.subrange(o[0], o[0] + 2));
            let infra = val.subrange(o[3], o[3] + 6);
            lemma_update_peer_same(s, src, |p: PeerView| PeerView {
                country_code: if has_cc { cc } else { p.country_code },
                infra_addr: if has_infra { infra } else { p.infra_addr },
                ..p
            });
        }
    } else if t == AWDL_VERSION_TLV {
        if val.len() >= 2 {
            lemma_update_peer_same(s, src, |p: PeerView| PeerView { version: val[0], devclass: val[1], ..p });
        }
    }
}

proof fn lemma_tlv_loop_same(src: Seq<u8>, frame: Seq<u8>, off: int, s: StateView, now: u64)
    ensures
        same_peers(s.peers, spec_tlv_loop(src, frame, off, s, now).1.peers),
    decreases frame.len() - off,
{
    if off >= 0 && off < frame.len() && tlv_fits(frame, off) {
        let l = le16_value(frame[off + 1], frame[off + 2]);
        let (r, s2) = spec_handle_tlv(src, frame[off], frame.subrange(off + 3, off + 3 + l), s, now);
        lemma_handle_tlv_same(src, frame[off], frame.subrange(off + 3, off + 3 + l), s, now);
        if spec_rx_code(r) >= 0 {
            lemma_tlv_loop_same(src, frame, off + 3 + l, s2, now);
            let s3 = spec_tlv_loop(src, frame, off + 3 + l, s2, now).1;
            assert forall|k: int| 0 <= k < s.peers.len() implies (#[trigger] s.peers[k]).addr == s3.peers[k].addr
                && s.peers[k].last_update == s3.peers[k].last_update by {
                assert(s.peers[k].addr == s2.peers[k].addr);
                assert(s2.peers[k].addr == s3.peers[k].addr);
            }
        }
    }
}

proof fn lemma_peer_add_view_finds(ps: Seq<PeerView>, addr: Seq<u8>, now: u64)
    ensures
        find_view(spec_peer_add_view(ps, addr, now).0, addr) matches Some(j) && spec_peer_add_view(ps, addr, now).0[j].last_update
            == now,
{
    lemma_find_view_from_range(ps, addr, 0);
    let t = spec_peer_add_view(ps, addr, now).0;
    match find_view(ps, addr) {
        Some(i) => {
            let same = forall|k: int| 0 <= k < ps.len() ==> (#[trigger] ps[k]).addr == t[k].addr;
            assert(same);
            lemma_find_prefix_same(ps, t, addr, 0, i);
        },
        None => {
            lemma_find_none_push(ps, t, addr, 0);
        },
    }
}

proof fn lemma_find_prefix_same(a: Seq<PeerView>, b: Seq<PeerView>, addr: Seq<u8>, k: int, i: int)
    requires
        a.len() == b.len(),
        forall|m: int| 0 <= m < a.len() ==> (#[trigger] a[m]).addr == b[m].addr,
        0 <= k,
    ensures
        crate::awdl::peers::find_view_from(a, addr, k) == crate::awdl::peers::find_view_from(b, addr, k),
    decreases a.len() - k,
{
    if k < a.len() {
        assert(a[k].addr == b[k].addr);
        lemma_find_prefix_same(a, b, addr, k + 1, i);
    }
}

proof fn lemma_find_none_push(a: Seq<PeerView>, b: Seq<PeerView>, addr: Seq<u8>, k: int)
    requires
        crate::awdl::peers::find_view_from(a, addr, k) is None,
        b.len() == a.len() + 1,
        forall|m: int| 0 <= m < a.len() ==> (#[trigger] a[m]).addr == b[m].addr,
        b[a.len() as int].addr == addr,
        0 <= k <= a.len(),
    ensures
        crate::awdl::peers::find_view_from(b, addr, k) == Some(a.len() as int),
    decreases a.len() - k,
{
    if k < a.len() {
        assert(a[k].addr == b[k].addr);
        lemma_find_none_push(a, b, addr, k + 1);
    }
}

/// Whatever its TLVs hold, an AWDL action frame that passes the signal
/// filter leaves its sender in the peer table, last heard at the time of
/// reception.
pub proof fn lemma_action_registers_sender(frame: Seq<u8>, rssi: i8, now: u64, src: Seq<u8>, s: StateView)
    requires
        spec_parse_action_hdr(frame) is Some,
        !rssi_too_low(s, src, rssi),
    ensures
        ({
            let t = spec_rx_action(frame, rssi, now, src, s).1;
            find_view(t.peers, src) matches Some(j) && t.peers[j].last_update == now
        }),
{
    let subtype = spec_parse_action_hdr(frame).unwrap();
    let s1 = StateView {
        stats: AwdlStats { rx_action: vstd::wrapping::u64_specs::wrapping_add(s.stats.rx_action, 1), ..s.stats },
        ..s
    };
    let s2 = with_peer_added(s1, src, now);
    lemma_peer_add_view_finds(s1.peers, src, now);
    let (ok, s3) = spec_tlv_loop(src, frame, 16, s2, now);
    lemma_tlv_loop_same(src, frame, 16, s2, now);
    lemma_find_view_same(s2.peers, s3.peers, src, 0);
    if ok {
        let s4 = if subtype == AwdlActionType::MIF {
            update_peer(s3, src, |p: PeerView| PeerView { sent_mif: true, ..p })
        } else {
            s3
        };
        lemma_peer_add_view_finds(s4.peers, src, now);
    } else {
        lemma_find_view_from_range(s2.peers, src, 0);
        let j = find_view(s2.peers, src).unwrap();
        assert(s2.peers[j].last_update == s3.peers[j].last_update);
    }
}

} // verus!
