//! Building transmitted frames: radiotap and 802.11 headers, the AWDL
//! action frame with its TLVs, and AWDL data frames.

use vstd::prelude::*;
use vstd::string::StrSliceExecFns;
use crate::awdl::channel::{AWDL_CHANSEQ_LENGTH, AwdlChan, AwdlChanEncoding, AwdlChannelState, spec_encoding_value, encoding_value, spec_encoding_size, awdl_chan_encoding_size, spec_chan_num, awdl_chan_num};
use crate::awdl::crc32::{crc32, spec_crc32};
use crate::awdl::frame::{AwdlActionType, spec_action_type_value, action_type_value, AwdlAction, AwdlChanseq, AwdlSyncParamsTlv, AwdlElectionParamsTlv, AwdlElectionParamsV2Tlv, AwdlServiceParamsTlv, AwdlHtCapabilitiesTlv, AwdlDataPathStateTlv, AwdlArpaTlv, AwdlVersionTlv, Ieee80211Hdr, LlcHdr, AwdlData, push_bytes, push_le16, push_be16, push_le32, write_vec, AWDL_OUI, AWDL_TYPE, AWDL_VERSION_COMPAT, IEEE80211_VENDOR_SPECIFIC, AWDL_BSSID, AWDL_LLC_PROTOCOL_ID, AWDL_DATA_HEAD, AWDL_DATA_PAD, ETH_P_IPV6, AWDL_DNS_SHORT_LOCAL, AWDL_SOCIAL_CHANNEL_6_BIT, AWDL_SOCIAL_CHANNEL_44_BIT, AWDL_SOCIAL_CHANNEL_149_BIT, AWDL_SYNCHRONIZATON_PARAMETERS_TLV, AWDL_CHAN_SEQ_TLV, AWDL_ELECTION_PARAMETERS_TLV, AWDL_ELECTION_PARAMETERS_V2_TLV, AWDL_SERVICE_PARAMETERS_TLV, AWDL_ENHANCED_DATA_RATE_CAPABILITIES_TLV, AWDL_DATA_PATH_STATE_TLV, AWDL_ARPA_TLV, AWDL_VERSION_TLV, IEEE80211_FTYPE_MGMT, IEEE80211_STYPE_ACTION, IEEE80211_FTYPE_DATA, IEEE80211_STYPE_DATA};
use crate::awdl::state::{AwdlState, Ieee80211State, clock_time_us};
use crate::awdl::sync::{sync_params_ok, spec_next_aw_tu, spec_current_aw, awdl_sync_next_aw_tu, awdl_sync_current_aw};
use crate::awdl::wire::{fits, splice, le16_bytes, le32_bytes, be16_bytes};

verus! {

/// Result code of a successful transmission.
pub const TX_OK: i32 = 0;

/// Result code of a failed transmission.
pub const TX_FAIL: i32 = -1;

/// Size of the AWDL action frame header.
pub const AWDL_ACTION_SIZE: usize = 16;

/// Size of the fixed part of the synchronization parameters TLV.
pub const AWDL_SYNC_PARAMS_TLV_FIXED: usize = 36;

// ---------------------------------------------------------------------------
// Writing into the caller's buffer
// ---------------------------------------------------------------------------

/// What writing `bytes` at the start of `buf` does: the new buffer and the
/// count written, or the buffer unchanged and 0 when they do not fit.
pub open spec fn written(buf: Seq<u8>, bytes: Seq<u8>) -> (Seq<u8>, int) {
    if bytes.len() <= buf.len() {
        (splice(buf, 0, bytes), bytes.len() as int)
    } else {
        (buf, 0)
    }
}

/// Write `v` at the start of `buf`: its length, or 0 when it does not fit.
fn write_start(buf: &mut [u8], v: &Vec<u8>) -> (n: usize)
    ensures
        (final(buf)@, n as int) == written(old(buf)@, v@),
{
    if write_vec(buf, 0, v) {
        v.len()
    } else {
        0
    }
}

// ---------------------------------------------------------------------------
// Action frame header
// ---------------------------------------------------------------------------

/// The low 32 bits of a microsecond clock, as frames carry it.
pub open spec fn steady_time(now: u64) -> u32 {
    (now & 0xffff_ffff) as u32
}

/// The AWDL action header of `action_type` stamped with time `now`.
pub open spec fn spec_action_bytes(action_type: AwdlActionType, now: u64) -> Seq<u8> {
    AwdlAction {
        category: IEEE80211_VENDOR_SPECIFIC,
        oui: AWDL_OUI,
        type_: AWDL_TYPE,
        version: AWDL_VERSION_COMPAT,
        subtype: spec_action_type_value(action_type),
        reserved: 0,
        phy_tx: steady_time(now),
        target_tx: steady_time(now),
    }.spec_bytes()
}

fn action_bytes(action_type: AwdlActionType, now: u64) -> (v: Vec<u8>)
    ensures
        v@ == spec_action_bytes(action_type, now),
{
    let t = (now & 0xffff_ffff) as u32;
    let af = AwdlAction {
        category: IEEE80211_VENDOR_SPECIFIC,
        oui: AWDL_OUI,
        type_: AWDL_TYPE,
        version: AWDL_VERSION_COMPAT,
        subtype: action_type_value(action_type),
        reserved: 0,
        phy_tx: t,
        target_tx: t,
    };
    af.to_bytes()
}

/// Write the AWDL action header stamped with time `now`.
pub fn awdl_init_action_at(buf: &mut [u8], action_type: AwdlActionType, now: u64) -> (n: usize)
    ensures
        (final(buf)@, n as int) == written(old(buf)@, spec_action_bytes(action_type, now)),
{
    let v = action_bytes(action_type, now);
    write_start(buf, &v)
}

/// Write the AWDL action header stamped with the current time.
pub fn awdl_init_action(buf: &mut [u8], action_type: AwdlActionType) -> (n: usize)
    ensures
        exists|now: u64| (final(buf)@, n as int) == written(old(buf)@, spec_action_bytes(action_type, now)),
{
    let now = clock_time_us();
    awdl_init_action_at(buf, action_type, now)
}

// ---------------------------------------------------------------------------
// Channel sequence
// ---------------------------------------------------------------------------

/// Bytes per channel value under `enc`.
pub fn awdl_chan_encoding_length_enc(enc: AwdlChanEncoding) -> (n: usize)
    ensures
        n == spec_encoding_size(enc),
{
    awdl_chan_encoding_size(enc)
}

/// The first `n` channels of `seq`, each as its first `e` bytes.
pub open spec fn chan_values(seq: Seq<AwdlChan>, e: int, n: nat) -> Seq<u8>
    decreases n,
{
    if n == 0 {
        Seq::empty()
    } else {
        chan_values(seq, e, (n - 1) as nat) + seq[n - 1].val@.take(e)
    }
}

/// The channel sequence as sent: a descriptor (16 slots, no duplicates,
/// step count 3, fill channel 0xffff) and the 16 channel values in the
/// channel encoding.
pub open spec fn spec_chanseq_bytes(ch: AwdlChannelState) -> Seq<u8> {
    AwdlChanseq {
        count: (AWDL_CHANSEQ_LENGTH - 1) as u8,
        encoding: spec_encoding_value(ch.enc),
        duplicate_count: 0,
        step_count: 3,
        fill_channel: 0xffff,
    }.spec_bytes() + chan_values(ch.sequence@, spec_encoding_size(ch.enc) as int, 16)
}

proof fn lemma_chan_values_len(seq: Seq<AwdlChan>, e: int, n: nat)
    requires
        e == 1 || e == 2,
        n <= seq.len(),
        forall|i: int| 0 <= i < seq.len() ==> (#[trigger] seq[i]).val@.len() == 2,
    ensures
        chan_values(seq, e, n).len() == n * e,
    decreases n,
{
    if n > 0 {
        lemma_chan_values_len(seq, e, (n - 1) as nat);
    }
}

/// Byte `k` of channel `i` sits at `e * i + k` of the channel values.
pub proof fn lemma_chan_values_index(seq: Seq<AwdlChan>, e: int, n: nat, i: int, k: int)
    requires
        e == 1 || e == 2,
        n <= seq.len(),
        forall|j: int| 0 <= j < seq.len() ==> (#[trigger] seq[j]).val@.len() == 2,
        0 <= i < n,
        0 <= k < e,
    ensures
        chan_values(seq, e, n).len() == n * e,
        chan_values(seq, e, n)[e * i + k] == seq[i].val@[k],
    decreases n,
{
    lemma_chan_values_len(seq, e, n);
    lemma_chan_values_len(seq, e, (n - 1) as nat);
    if i < n - 1 {
        lemma_chan_values_index(seq, e, (n - 1) as nat, i, k);
    } else {
        assert(e * i == (n - 1) * e) by (nonlinear_arith)
            requires
                i == n - 1,
        ;
    }
}

fn chanseq_bytes(ch: &AwdlChannelState) -> (v: Vec<u8>)
    ensures
        v@ == spec_chanseq_bytes(*ch),
        v@.len() == 6 + 16 * spec_encoding_size(ch.enc),
{
    let e = awdl_chan_encoding_size(ch.enc);
    let hdr = AwdlChanseq {
        count: (AWDL_CHANSEQ_LENGTH - 1) as u8,
        encoding: encoding_value(ch.enc),
        duplicate_count: 0,
        step_count: 3,
        fill_channel: 0xffff,
    };
    let mut v = hdr.to_bytes();
    let ghost head = v@;
    let mut i: usize = 0;
    while i < AWDL_CHANSEQ_LENGTH
        invariant
            i <= AWDL_CHANSEQ_LENGTH,
            e == spec_encoding_size(ch.enc),
            ch.sequence@.len() == 16,
            v@ == head + chan_values(ch.sequence@, e as int, i as nat),
        decreases AWDL_CHANSEQ_LENGTH - i,
    {
        let c = ch.sequence[i].val;
        if e == 1 {
            v.push(c[0]);
            assert(c@.take(1) =~= seq![c@[0]]);
        } else {
            v.push(c[0]);
            v.push(c[1]);
            assert(c@.take(2) =~= seq![c@[0], c@[1]]);
        }
        i += 1;
        assert(v@ =~= head + chan_values(ch.sequence@, e as int, i as nat));
    }
    proof {
        lemma_chan_values_len(ch.sequence@, e as int, 16);
    }
    v
}

/// How many channel entries of `e` bytes fit after the 6-byte header in
/// `room` bytes, at most the whole sequence.
pub open spec fn chanseq_entries(room: int, e: int) -> int {
    if (room - 6) / e >= 16 {
        16
    } else {
        (room - 6) / e
    }
}

/// How many bytes of a channel sequence fit in `room` bytes: nothing when
/// the header does not, else the header and as many whole entries as fit.
pub open spec fn chanseq_fit(room: int, e: int) -> int {
    if room < 6 {
        0
    } else {
        6 + chanseq_entries(room, e) * e
    }
}

/// The number of channel sequence bytes that fit in `room` bytes.
fn chanseq_fit_exec(room: usize, e: usize) -> (n: usize)
    requires
        e == 1 || e == 2,
    ensures
        n as int == chanseq_fit(room as int, e as int),
        n <= room,
        n <= 6 + 16 * e,
{
    if room < 6 {
        return 0;
    }
    let k = if (room - 6) / e >= 16 {
        16
    } else {
        (room - 6) / e
    };
    assert(k * e <= room - 6) by {
        if e == 1 {
        } else {
        }
    }
    6 + k * e
}

/// Write the first `n` bytes of `v` at the start of `buf`.
fn write_prefix(buf: &mut [u8], v: &Vec<u8>, n: usize)
    requires
        n <= v@.len(),
        n <= old(buf)@.len(),
    ensures
        final(buf)@ == splice(old(buf)@, 0, v@.take(n as int)),
{
    let part = vstd::slice::slice_subrange(v.as_slice(), 0, n);
    assert(part@ =~= v@.take(n as int));
    let _ = crate::awdl::wire::write_bytes(buf, 0, part);
}

/// Write the channel sequence of `state`: the header and as many whole
/// entries as fit, or nothing when the header does not.
pub fn awdl_init_chanseq(buf: &mut [u8], state: &AwdlState) -> (n: usize)
    ensures
        n as int == chanseq_fit(old(buf)@.len() as int, spec_encoding_size(state.channel.enc) as int),
        final(buf)@ == splice(old(buf)@, 0, spec_chanseq_bytes(state.channel).take(n as int)),
{
    let v = chanseq_bytes(&state.channel);
    let e = awdl_chan_encoding_size(state.channel.enc);
    let n = chanseq_fit_exec(buf.len(), e);
    write_prefix(buf, &v, n);
    n
}

// ---------------------------------------------------------------------------
// Synchronization parameters TLV
// ---------------------------------------------------------------------------

/// AW length left in the current AW as the TLV announces it: the AW length
/// less the part of the extended AW not yet counted down, never negative.
pub open spec fn remaining_aw(aw_period: u16, presence_mode: u8, tx_down: u16) -> u16 {
    let guard = aw_period as int * presence_mode as int - tx_down as int;
    if (aw_period as int) < guard {
        0
    } else {
        (aw_period as int - guard) as u16
    }
}

/// The fixed part of the synchronization parameters TLV of `s` at time
/// `now`, with `length` in its length field: our timing and channels and
/// the master address.
pub open spec fn sync_fixed_bytes(s: AwdlState, now: u64, length: u16) -> Seq<u8> {
    let next_aw = spec_next_aw_tu(now, s.sync);
    let next_aw_seq = spec_current_aw(now, s.sync);
    let pm = s.sync.presence_mode;
    AwdlSyncParamsTlv {
        type_: AWDL_SYNCHRONIZATON_PARAMETERS_TLV,
        length,
        next_aw_channel: spec_chan_num(s.channel.current, s.channel.enc),
        tx_down_counter: next_aw,
        master_channel: spec_chan_num(s.channel.master, s.channel.enc),
        guard_time: 0,
        aw_period: s.sync.aw_period,
        af_period: s.psf_interval,
        flags: 0x1800,
        aw_ext_length: s.sync.aw_period,
        aw_com_length: s.sync.aw_period,
        remaining_aw_length: remaining_aw(s.sync.aw_period, pm, next_aw),
        min_ext: (pm - 1) as u8,
        max_ext_multicast: (pm - 1) as u8,
        max_ext_unicast: (pm - 1) as u8,
        max_ext_af: (pm - 1) as u8,
        master_addr: s.election.master_addr,
        presence_mode: pm,
        reserved: 0,
        next_aw_seq: next_aw_seq,
        ap_alignment: next_aw_seq,
    }.spec_bytes()
}

/// The synchronization parameters TLV of `s` at time `now`: the fixed
/// part, then the channel sequence and two bytes of padding.
pub open spec fn spec_sync_params_tlv_bytes(s: AwdlState, now: u64) -> Seq<u8> {
    let body = spec_chanseq_bytes(s.channel);
    sync_fixed_bytes(s, now, (AWDL_SYNC_PARAMS_TLV_FIXED + body.len() + 2 - 3) as u16) + body + seq![0u8, 0u8]
}

/// The bytes the synchronization parameters TLV writer puts into `room`
/// bytes: nothing when the fixed part does not fit; else the fixed part, as
/// much of the channel sequence as fits, the padding when it fits, and the
/// length of what was written in the length field.
pub open spec fn sync_piece(s: AwdlState, now: u64, room: int) -> Seq<u8> {
    let fixed = AWDL_SYNC_PARAMS_TLV_FIXED as int;
    if room < fixed {
        Seq::empty()
    } else {
        let c = chanseq_fit(room - fixed, spec_encoding_size(s.channel.enc) as int);
        let pad: int = if room >= fixed + c + 2 { 2 } else { 0 };
        sync_fixed_bytes(s, now, (fixed + c + pad - 3) as u16) + spec_chanseq_bytes(s.channel).take(c) + seq![0u8, 0u8].take(pad)
    }
}

/// What writing the synchronization parameters TLV of `s` at time `now`
/// into `buf` does: its piece for the room of `buf` at the start, and the
/// piece's length.
pub open spec fn sync_params_written(buf: Seq<u8>, s: AwdlState, now: u64) -> (Seq<u8>, int) {
    let piece = sync_piece(s, now, buf.len() as int);
    (splice(buf, 0, piece), piece.len() as int)
}

/// The fixed part of the synchronization parameters TLV.
fn sync_fixed(state: &AwdlState, now: u64, length: u16) -> (v: Vec<u8>)
    requires
        sync_params_ok(state.sync),
    ensures
        v@ == sync_fixed_bytes(*state, now, length),
        v@.len() == AWDL_SYNC_PARAMS_TLV_FIXED,
{
    let aw_period = state.sync.aw_period;
    let pm = state.sync.presence_mode;
    let next_aw = awdl_sync_next_aw_tu(now, &state.sync);
    let next_aw_seq = awdl_sync_current_aw(now, &state.sync);
    let aw_com = aw_period as i64;
    assert(0 <= (aw_period as i64) * (pm as i64) <= 65535 * 255) by (nonlinear_arith)
        requires
            aw_period <= 65535,
            pm <= 255,
    ;
    let guard = (aw_period as i64) * (pm as i64) - next_aw as i64;
    let remaining: u16 = if aw_com < guard {
        0
    } else {
        (aw_com - guard) as u16
    };
    let tlv = AwdlSyncParamsTlv {
        type_: AWDL_SYNCHRONIZATON_PARAMETERS_TLV,
        length,
        next_aw_channel: awdl_chan_num(state.channel.current, state.channel.enc),
        tx_down_counter: next_aw,
        master_channel: awdl_chan_num(state.channel.master, state.channel.enc),
        guard_time: 0,
        aw_period,
        af_period: state.psf_interval,
        flags: 0x1800,
        aw_ext_length: aw_period,
        aw_com_length: aw_period,
        remaining_aw_length: remaining,
        min_ext: pm - 1,
        max_ext_multicast: pm - 1,
        max_ext_unicast: pm - 1,
        max_ext_af: pm - 1,
        master_addr: state.election.master_addr,
        presence_mode: pm,
        reserved: 0,
        next_aw_seq,
        ap_alignment: next_aw_seq,
    };
    tlv.to_bytes()
}

fn sync_params_tlv_bytes(state: &AwdlState, now: u64) -> (v: Vec<u8>)
    requires
        sync_params_ok(state.sync),
    ensures
        v@ == spec_sync_params_tlv_bytes(*state, now),
{
    let body = chanseq_bytes(&state.channel);
    let mut v = sync_fixed(state, now, (AWDL_SYNC_PARAMS_TLV_FIXED + body.len() + 2 - 3) as u16);
    push_bytes(&mut v, body.as_slice());
    v.push(0);
    v.push(0);
    assert(v@ =~= spec_sync_params_tlv_bytes(*state, now));
    v
}

/// The synchronization parameters TLV bytes that fit in `room` bytes.
fn sync_piece_bytes(state: &AwdlState, now: u64, room: usize) -> (v: Vec<u8>)
    requires
        sync_params_ok(state.sync),
    ensures
        v@ == sync_piece(*state, now, room as int),
        v@.len() <= room,
{
    if room < AWDL_SYNC_PARAMS_TLV_FIXED {
        return Vec::new();
    }
    let body = chanseq_bytes(&state.channel);
    let e = awdl_chan_encoding_size(state.channel.enc);
    let c = chanseq_fit_exec(room - AWDL_SYNC_PARAMS_TLV_FIXED, e);
    let pad: usize = if room - AWDL_SYNC_PARAMS_TLV_FIXED - c >= 2 {
        2
    } else {
        0
    };
    let total = AWDL_SYNC_PARAMS_TLV_FIXED + c + pad;
    let mut v = sync_fixed(state, now, (total - 3) as u16);
    let ghost fixed = v@;
    let part = vstd::slice::slice_subrange(body.as_slice(), 0, c);
    push_bytes(&mut v, part);
    if pad == 2 {
        v.push(0);
        v.push(0);
    }
    proof {
        assert(part@ =~= spec_chanseq_bytes(state.channel).take(c as int));
        assert(v@ =~= fixed + spec_chanseq_bytes(state.channel).take(c as int) + seq![0u8, 0u8].take(pad as int));
    }
    v
}

/// Write `v`, which fits, at the start of `buf`.
fn write_fitting(buf: &mut [u8], v: &Vec<u8>) -> (n: usize)
    requires
        v@.len() <= old(buf)@.len(),
    ensures
        final(buf)@ == splice(old(buf)@, 0, v@),
        n == v@.len(),
{
    let _ = write_vec(buf, 0, v);
    v.len()
}

/// Write the synchronization parameters TLV of `state` at time `now`.
pub fn awdl_init_sync_params_tlv_at(buf: &mut [u8], state: &AwdlState, now: u64) -> (n: usize)
    requires
        sync_params_ok(state.sync),
    ensures
        (final(buf)@, n as int) == sync_params_written(old(buf)@, *state, now),
{
    let v = sync_piece_bytes(state, now, buf.len());
    write_fitting(buf, &v)
}

/// Write the synchronization parameters TLV of `state` at the current time.
pub fn awdl_init_sync_params_tlv(buf: &mut [u8], state: &AwdlState) -> (n: usize)
    requires
        sync_params_ok(state.sync),
    ensures
        exists|now: u64| (final(buf)@, n as int) == sync_params_written(old(buf)@, *state, now),
{
    let now = clock_time_us();
    awdl_init_sync_params_tlv_at(buf, state, now)
}

// ---------------------------------------------------------------------------
// Fixed TLVs
// ---------------------------------------------------------------------------

/// The channel sequence TLV: header, sequence and three bytes of padding.
pub open spec fn spec_chanseq_tlv_bytes(s: AwdlState) -> Seq<u8> {
    let body = spec_chanseq_bytes(s.channel);
    seq![AWDL_CHAN_SEQ_TLV] + le16_bytes((body.len() + 3) as u16) + body + seq![0u8, 0u8, 0u8]
}

fn chanseq_tlv_bytes(state: &AwdlState) -> (v: Vec<u8>)
    ensures
        v@ == spec_chanseq_tlv_bytes(*state),
{
    let body = chanseq_bytes(&state.channel);
    let mut v: Vec<u8> = Vec::new();
    v.push(AWDL_CHAN_SEQ_TLV);
    push_le16(&mut v, (body.len() + 3) as u16);
    push_bytes(&mut v, body.as_slice());
    v.push(0);
    v.push(0);
    v.push(0);
    assert(v@ =~= spec_chanseq_tlv_bytes(*state));
    v
}

/// The bytes the channel sequence TLV writer puts into `room` bytes (at
/// least its 3-byte header): the type, as much of the channel sequence as
/// fits after the header, the padding when it fits, and the length of what
/// follows the header.
pub open spec fn chanseq_tlv_piece(s: AwdlState, room: int) -> Seq<u8> {
    let c = chanseq_fit(room - 3, spec_encoding_size(s.channel.enc) as int);
    let pad: int = if room >= 3 + c + 3 { 3 } else { 0 };
    seq![AWDL_CHAN_SEQ_TLV] + le16_bytes((c + pad) as u16) + spec_chanseq_bytes(s.channel).take(c) + seq![0u8, 0u8, 0u8].take(pad)
}

/// What writing the channel sequence TLV of `s` into `buf` does.
pub open spec fn chanseq_tlv_written(buf: Seq<u8>, s: AwdlState) -> (Seq<u8>, int) {
    let piece = chanseq_tlv_piece(s, buf.len() as int);
    (splice(buf, 0, piece), piece.len() as int)
}

/// The channel sequence TLV bytes that fit in `room` bytes.
fn chanseq_tlv_piece_bytes(state: &AwdlState, room: usize) -> (v: Vec<u8>)
    requires
        room >= 3,
    ensures
        v@ == chanseq_tlv_piece(*state, room as int),
        v@.len() <= room,
{
    let body = chanseq_bytes(&state.channel);
    let e = awdl_chan_encoding_size(state.channel.enc);
    let c = chanseq_fit_exec(room - 3, e);
    let pad: usize = if room - 3 - c >= 3 {
        3
    } else {
        0
    };
    let mut v: Vec<u8> = Vec::new();
    v.push(AWDL_CHAN_SEQ_TLV);
    push_le16(&mut v, (c + pad) as u16);
    let part = vstd::slice::slice_subrange(body.as_slice(), 0, c);
    push_bytes(&mut v, part);
    if pad == 3 {
        v.push(0);
        v.push(0);
        v.push(0);
    }
    proof {
        assert(part@ =~= spec_chanseq_bytes(state.channel).take(c as int));
        assert(v@ =~= seq![AWDL_CHAN_SEQ_TLV] + le16_bytes((c + pad) as u16) + spec_chanseq_bytes(state.channel).take(c as int)
            + seq![0u8, 0u8, 0u8].take(pad as int));
    }
    v
}

/// Write the channel sequence TLV of `state` into `buf`, which holds at
/// least its 3-byte header.
pub fn awdl_init_chanseq_tlv(buf: &mut [u8], state: &AwdlState) -> (n: usize)
    requires
        old(buf)@.len() >= 3,
    ensures
        (final(buf)@, n as int) == chanseq_tlv_written(old(buf)@, *state),
{
    let v = chanseq_tlv_piece_bytes(state, buf.len());
    write_fitting(buf, &v)
}

/// The election parameters TLV: distance to the master (low byte of the
/// height), master address, master and own metric.
pub open spec fn spec_election_params_tlv_bytes(s: AwdlState) -> Seq<u8> {
    AwdlElectionParamsTlv {
        type_: AWDL_ELECTION_PARAMETERS_TLV,
        length: 21,
        flags: 0,
        id: 0,
        distancetop: s.election.height as u8,
        unknown: 0,
        top_master_addr: s.election.master_addr,
        top_master_metric: s.election.master_metric,
        self_metric: s.election.self_metric,
        pad: [0, 0],
    }.spec_bytes()
}

fn election_params_tlv_bytes(state: &AwdlState) -> (v: Vec<u8>)
    ensures
        v@ == spec_election_params_tlv_bytes(*state),
{
    let tlv = AwdlElectionParamsTlv {
        type_: AWDL_ELECTION_PARAMETERS_TLV,
        length: 21,
        flags: 0,
        id: 0,
        distancetop: state.election.height as u8,
        unknown: 0,
        top_master_addr: state.election.master_addr,
        top_master_metric: state.election.master_metric,
        self_metric: state.election.self_metric,
        pad: [0, 0],
    };
    tlv.to_bytes()
}

/// Write the election parameters TLV of `state`.
pub fn awdl_init_election_params_tlv(buf: &mut [u8], state: &AwdlState) -> (n: usize)
    ensures
        (final(buf)@, n as int) == written(old(buf)@, spec_election_params_tlv_bytes(*state)),
{
    let v = election_params_tlv_bytes(state);
    write_start(buf, &v)
}

/// The election parameters TLV, second version.
pub open spec fn spec_election_params_v2_tlv_bytes(s: AwdlState) -> Seq<u8> {
    AwdlElectionParamsV2Tlv {
        type_: AWDL_ELECTION_PARAMETERS_V2_TLV,
        length: 36,
        master_addr: s.election.master_addr,
        sync_addr: s.election.sync_addr,
        master_counter: s.election.master_counter,
        distance_to_master: s.election.height,
        master_metric: s.election.master_metric,
        self_metric: s.election.self_metric,
        unknown: 0,
        self_counter: s.election.self_counter,
    }.spec_bytes()
}

fn election_params_v2_tlv_bytes(state: &AwdlState) -> (v: Vec<u8>)
    ensures
        v@ == spec_election_params_v2_tlv_bytes(*state),
{
    let tlv = AwdlElectionParamsV2Tlv {
        type_: AWDL_ELECTION_PARAMETERS_V2_TLV,
        length: 36,
        master_addr: state.election.master_addr,
        sync_addr: state.election.sync_addr,
        master_counter: state.election.master_counter,
        distance_to_master: state.election.height,
        master_metric: state.election.master_metric,
        self_metric: state.election.self_metric,
        unknown: 0,
        self_counter: state.election.self_counter,
    };
    tlv.to_bytes()
}

/// Write the election parameters TLV (second version) of `state`.
pub fn awdl_init_election_params_v2_tlv(buf: &mut [u8], state: &AwdlState) -> (n: usize)
    ensures
        (final(buf)@, n as int) == written(old(buf)@, spec_election_params_v2_tlv_bytes(*state)),
{
    let v = election_params_v2_tlv_bytes(state);
    write_start(buf, &v)
}

/// The service parameters TLV: no services.
pub open spec fn spec_service_params_tlv_bytes() -> Seq<u8> {
    AwdlServiceParamsTlv { type_: AWDL_SERVICE_PARAMETERS_TLV, length: 9, unknown: [0, 0, 0], sui: 0, bitmask: 0 }.spec_bytes()
}

fn service_params_tlv_bytes() -> (v: Vec<u8>)
    ensures
        v@ == spec_service_params_tlv_bytes(),
{
    let tlv = AwdlServiceParamsTlv { type_: AWDL_SERVICE_PARAMETERS_TLV, length: 9, unknown: [0, 0, 0], sui: 0, bitmask: 0 };
    tlv.to_bytes()
}

/// Write the service parameters TLV.
pub fn awdl_init_service_params_tlv(buf: &mut [u8], _state: &AwdlState) -> (n: usize)
    ensures
        (final(buf)@, n as int) == written(old(buf)@, spec_service_params_tlv_bytes()),
{
    let v = service_params_tlv_bytes();
    write_start(buf, &v)
}

/// The HT capabilities TLV.
pub open spec fn spec_ht_capabilities_tlv_bytes() -> Seq<u8> {
    AwdlHtCapabilitiesTlv {
        type_: AWDL_ENHANCED_DATA_RATE_CAPABILITIES_TLV,
        length: 8,
        unknown: 0,
        ht_capabilities: 0x11ce,
        ampdu_params: 0x1b,
        rx_mcs: 0xff,
        unknown2: 0,
    }.spec_bytes()
}

fn ht_capabilities_tlv_bytes() -> (v: Vec<u8>)
    ensures
        v@ == spec_ht_capabilities_tlv_bytes(),
{
    let tlv = AwdlHtCapabilitiesTlv {
        type_: AWDL_ENHANCED_DATA_RATE_CAPABILITIES_TLV,
        length: 8,
        unknown: 0,
        ht_capabilities: 0x11ce,
        ampdu_params: 0x1b,
        rx_mcs: 0xff,
        unknown2: 0,
    };
    tlv.to_bytes()
}

/// Write the HT capabilities TLV.
pub fn awdl_init_ht_capabilities_tlv(buf: &mut [u8], _state: &AwdlState) -> (n: usize)
    ensures
        (final(buf)@, n as int) == written(old(buf)@, spec_ht_capabilities_tlv_bytes()),
{
    let v = ht_capabilities_tlv_bytes();
    write_start(buf, &v)
}

/// The social channel bit of a master channel: 6, 44, or otherwise 149.
pub open spec fn social_channel_bit(master_chan: u8) -> u16 {
    if master_chan == 6 {
        AWDL_SOCIAL_CHANNEL_6_BIT
    } else if master_chan == 44 {
        AWDL_SOCIAL_CHANNEL_44_BIT
    } else {
        AWDL_SOCIAL_CHANNEL_149_BIT
    }
}

/// The data path state TLV: fixed flags, country code "X0", the social
/// channel of our master channel and our address.
pub open spec fn spec_data_path_state_tlv_bytes(s: AwdlState) -> Seq<u8> {
    AwdlDataPathStateTlv {
        type_: AWDL_DATA_PATH_STATE_TLV,
        length: 15,
        flags: 0x8f24,
        country_code: [0x58, 0x30, 0],
        social_channels: social_channel_bit(spec_chan_num(s.channel.master, AwdlChanEncoding::Opclass)),
        awdl_addr: s.self_address,
        ext_flags: 0,
    }.spec_bytes()
}

fn data_path_state_tlv_bytes(state: &AwdlState) -> (v: Vec<u8>)
    ensures
        v@ == spec_data_path_state_tlv_bytes(*state),
{
    let master_chan = awdl_chan_num(state.channel.master, AwdlChanEncoding::Opclass);
    let social_channels = if master_chan == 6 {
        AWDL_SOCIAL_CHANNEL_6_BIT
    } else if master_chan == 44 {
        AWDL_SOCIAL_CHANNEL_44_BIT
    } else {
        AWDL_SOCIAL_CHANNEL_149_BIT
    };
    let tlv = AwdlDataPathStateTlv {
        type_: AWDL_DATA_PATH_STATE_TLV,
        length: 15,
        flags: 0x8f24,
        country_code: [0x58, 0x30, 0],
        social_channels,
        awdl_addr: state.self_address,
        ext_flags: 0,
    };
    tlv.to_bytes()
}

/// Write the data path state TLV of `state`.
pub fn awdl_init_data_path_state_tlv(buf: &mut [u8], state: &AwdlState) -> (n: usize)
    ensures
        (final(buf)@, n as int) == written(old(buf)@, spec_data_path_state_tlv_bytes(*state)),
{
    let v = data_path_state_tlv_bytes(state);
    write_start(buf, &v)
}

/// The ARPA TLV: our host name (UTF-8) with the short DNS suffix for
/// ".local". The length field and the name length byte keep the low bits of
/// the true values.
pub open spec fn spec_arpa_tlv_bytes(s: AwdlState) -> Seq<u8> {
    let name = vstd::utf8::encode_utf8(s.name@);
    AwdlArpaTlv {
        type_: AWDL_ARPA_TLV,
        length: ((name.len() + 4) % 0x10000) as u16,
        flags: 3,
        name_length: (name.len() % 0x100) as u8,
    }.spec_bytes() + name + be16_bytes(AWDL_DNS_SHORT_LOCAL)
}

fn arpa_tlv_bytes(state: &AwdlState) -> (v: Vec<u8>)
    ensures
        v@ == spec_arpa_tlv_bytes(*state),
{
    let name = state.name.as_str().as_bytes_vec();
    let n = name.len();
    let len16 = ((n % 0x10000) as u16).wrapping_add(4);
    proof {
        assert(len16 == ((n + 4) % 0x10000) as u16) by (nonlinear_arith)
            requires
                len16 == vstd::wrapping::u16_specs::wrapping_add((n % 0x10000) as u16, 4),
        {
        }
    }
    let tlv = AwdlArpaTlv { type_: AWDL_ARPA_TLV, length: len16, flags: 3, name_length: (n % 0x100) as u8 };
    let mut v = tlv.to_bytes();
    push_bytes(&mut v, name.as_slice());
    push_be16(&mut v, AWDL_DNS_SHORT_LOCAL);
    v
}

/// The bytes the ARPA TLV writer puts into `room` bytes: nothing when its
/// 5-byte header does not fit; else the whole TLV when it fits, or only the
/// header when it does not.
pub open spec fn arpa_piece(s: AwdlState, room: int) -> Seq<u8> {
    let full = spec_arpa_tlv_bytes(s);
    if room < 5 {
        Seq::empty()
    } else if full.len() <= room {
        full
    } else {
        full.take(5)
    }
}

/// What the ARPA TLV writer returns for `room` bytes: 0 when the header does
/// not fit, else the TLV's full length, written or not.
pub open spec fn arpa_count(s: AwdlState, room: int) -> int {
    if room < 5 {
        0
    } else {
        spec_arpa_tlv_bytes(s).len() as int
    }
}

/// What writing the ARPA TLV of `s` into `buf` does.
pub open spec fn arpa_written(buf: Seq<u8>, s: AwdlState) -> (Seq<u8>, int) {
    (splice(buf, 0, arpa_piece(s, buf.len() as int)), arpa_count(s, buf.len() as int))
}

/// The ARPA TLV bytes that fit in `room` bytes, and the count returned.
fn arpa_piece_bytes(state: &AwdlState, room: usize) -> (r: (Vec<u8>, usize))
    ensures
        r.0@ == arpa_piece(*state, room as int),
        r.1 as int == arpa_count(*state, room as int),
        r.0@.len() <= room,
{
    let v = arpa_tlv_bytes(state);
    if room < 5 {
        return (Vec::new(), 0);
    }
    let n = v.len();
    if n <= room {
        (v, n)
    } else {
        let head = vstd::slice::slice_to_vec(vstd::slice::slice_subrange(v.as_slice(), 0, 5));
        assert(head@ =~= v@.take(5));
        (head, n)
    }
}

/// Write the ARPA TLV of `state`.
pub fn awdl_init_arpa_tlv(buf: &mut [u8], state: &AwdlState) -> (n: usize)
    ensures
        (final(buf)@, n as int) == arpa_written(old(buf)@, *state),
{
    let (v, n) = arpa_piece_bytes(state, buf.len());
    let _ = write_fitting(buf, &v);
    n
}

/// The version TLV: our protocol version and device class.
pub open spec fn spec_version_tlv_bytes(s: AwdlState) -> Seq<u8> {
    AwdlVersionTlv { type_: AWDL_VERSION_TLV, length: 2, version: s.version, devclass: s.dev_class }.spec_bytes()
}

/// Write the version TLV of `state`.
fn version_tlv_bytes(state: &AwdlState) -> (v: Vec<u8>)
    ensures
        v@ == spec_version_tlv_bytes(*state),
{
    AwdlVersionTlv { type_: AWDL_VERSION_TLV, length: 2, version: state.version, devclass: state.dev_class }.to_bytes()
}

/// Write the version TLV of `state`.
pub fn awdl_init_version_tlv(buf: &mut [u8], state: &AwdlState) -> (n: usize)
    ensures
        (final(buf)@, n as int) == written(old(buf)@, spec_version_tlv_bytes(*state)),
{
    let v = version_tlv_bytes(state);
    write_start(buf, &v)
}

// ---------------------------------------------------------------------------
// Radiotap, 802.11, LLC and AWDL data headers
// ---------------------------------------------------------------------------

/// The radiotap header of transmitted frames: version 0, length 9, only the
/// rate field present, at 12 Mbit/s (24 half-Mbit units).
pub open spec fn spec_radiotap_bytes() -> Seq<u8> {
    seq![0u8, 0u8, 9u8, 0u8, 4u8, 0u8, 0u8, 0u8, 24u8]
}

fn radiotap_bytes() -> (v: Vec<u8>)
    ensures
        v@ == spec_radiotap_bytes(),
{
    let present: u32 = 1u32 << 2u32;
    let it_len: u16 = 8 + 1;
    let mut v: Vec<u8> = Vec::new();
    v.push(0);
    v.push(0);
    push_le16(&mut v, it_len);
    push_le32(&mut v, present);
    v.push(24);
    assert(present == 4) by (bit_vector)
        requires
            present == 1u32 << 2u32,
    ;
    assert(v@ =~= spec_radiotap_bytes());
    v
}

/// Write the radiotap header of a transmitted frame; returns its length.
pub fn ieee80211_init_radiotap_header(buf: &mut [u8]) -> (n: usize)
    requires
        old(buf)@.len() >= 9,
    ensures
        n == 9,
        final(buf)@ == splice(old(buf)@, 0, spec_radiotap_bytes()),
{
    let v = radiotap_bytes();
    write_start(buf, &v)
}

/// The sequence control field for sequence number `seq`.
pub open spec fn seq_ctrl(seq: u16) -> u16 {
    seq << 4u16
}

/// The 802.11 header from `src` to `dst` in the AWDL BSS.
pub open spec fn spec_hdr_bytes(src: Seq<u8>, dst: Seq<u8>, frame_control: u16, seq: u16) -> Seq<u8> {
    le16_bytes(frame_control) + le16_bytes(0) + dst + src + AWDL_BSSID@ + le16_bytes(seq_ctrl(seq))
}

fn hdr_bytes(src: &[u8; 6], dst: &[u8; 6], frame_control: u16, seq: u16) -> (v: Vec<u8>)
    ensures
        v@ == spec_hdr_bytes(src@, dst@, frame_control, seq),
{
    let hdr = Ieee80211Hdr {
        frame_control,
        duration_id: 0,
        addr1: *dst,
        addr2: *src,
        addr3: AWDL_BSSID,
        seq_ctrl: seq << 4u16,
    };
    hdr.to_bytes()
}

/// Write an 802.11 header from `src` to `dst` with frame control
/// `ftype_stype`, taking the next 802.11 sequence number.
pub fn ieee80211_init_awdl_hdr(
    buf: &mut [u8],
    src: &[u8; 6],
    dst: &[u8; 6],
    ieee_state: &mut Ieee80211State,
    ftype_stype: u16,
) -> (n: usize)
    ensures
        final(ieee_state).sequence_number == vstd::wrapping::u16_specs::wrapping_add(old(ieee_state).sequence_number, 1) & 0x0fff,
        final(ieee_state).fcs == old(ieee_state).fcs,
        (final(buf)@, n as int) == written(
            old(buf)@,
            spec_hdr_bytes(src@, dst@, ftype_stype, old(ieee_state).sequence_number),
        ),
{
    let seq = ieee_state.next_sequence_number();
    let v = hdr_bytes(src, dst, ftype_stype, seq);
    write_start(buf, &v)
}

/// Write the 802.11 header of an action frame.
pub fn ieee80211_init_awdl_action_hdr(buf: &mut [u8], src: &[u8; 6], dst: &[u8; 6], ieee_state: &mut Ieee80211State) -> (n: usize)
    ensures
        final(ieee_state).sequence_number == vstd::wrapping::u16_specs::wrapping_add(old(ieee_state).sequence_number, 1) & 0x0fff,
        final(ieee_state).fcs == old(ieee_state).fcs,
        (final(buf)@, n as int) == written(
            old(buf)@,
            spec_hdr_bytes(src@, dst@, IEEE80211_FTYPE_MGMT | IEEE80211_STYPE_ACTION, old(ieee_state).sequence_number),
        ),
{
    ieee80211_init_awdl_hdr(buf, src, dst, ieee_state, IEEE80211_FTYPE_MGMT | IEEE80211_STYPE_ACTION)
}

/// Write the 802.11 header of a data frame.
pub fn ieee80211_init_awdl_data_hdr(buf: &mut [u8], src: &[u8; 6], dst: &[u8; 6], ieee_state: &mut Ieee80211State) -> (n: usize)
    ensures
        final(ieee_state).sequence_number == vstd::wrapping::u16_specs::wrapping_add(old(ieee_state).sequence_number, 1) & 0x0fff,
        final(ieee_state).fcs == old(ieee_state).fcs,
        (final(buf)@, n as int) == written(
            old(buf)@,
            spec_hdr_bytes(src@, dst@, IEEE80211_FTYPE_DATA | IEEE80211_STYPE_DATA, old(ieee_state).sequence_number),
        ),
{
    ieee80211_init_awdl_hdr(buf, src, dst, ieee_state, IEEE80211_FTYPE_DATA | IEEE80211_STYPE_DATA)
}

/// The AWDL LLC/SNAP header: SNAP saps, unnumbered control, Apple's OUI and
/// the AWDL protocol id (big-endian).
pub open spec fn spec_llc_bytes() -> Seq<u8> {
    LlcHdr { dsap: 0xaa, ssap: 0xaa, control: 0x03, oui: AWDL_OUI, pid: AWDL_LLC_PROTOCOL_ID }.spec_bytes()
}

/// Write the AWDL LLC/SNAP header.
pub fn llc_init_awdl_hdr(buf: &mut [u8]) -> (n: usize)
    ensures
        (final(buf)@, n as int) == written(old(buf)@, spec_llc_bytes()),
{
    let hdr = LlcHdr { dsap: 0xaa, ssap: 0xaa, control: 0x03, oui: AWDL_OUI, pid: AWDL_LLC_PROTOCOL_ID };
    let v = hdr.to_bytes();
    write_start(buf, &v)
}

/// The AWDL data header with sequence number `seq`, carrying IPv6.
pub open spec fn spec_awdl_data_bytes(seq: u16) -> Seq<u8> {
    AwdlData { head: AWDL_DATA_HEAD, seq: seq, pad: AWDL_DATA_PAD, ethertype: ETH_P_IPV6 }.spec_bytes()
}

/// Write the AWDL data header, taking the node's next sequence number.
pub fn awdl_init_data(buf: &mut [u8], state: &mut AwdlState) -> (n: usize)
    ensures
        *final(state) == (AwdlState {
            sequence_number: vstd::wrapping::u16_specs::wrapping_add(old(state).sequence_number, 1),
            ..*old(state)
        }),
        (final(buf)@, n as int) == written(old(buf)@, spec_awdl_data_bytes(old(state).sequence_number)),
{
    let seq = state.next_sequence_number();
    let hdr = AwdlData { head: AWDL_DATA_HEAD, seq, pad: AWDL_DATA_PAD, ethertype: ETH_P_IPV6 };
    let v = hdr.to_bytes();
    write_start(buf, &v)
}

/// Write the frame check sequence of `start` (its CRC-32, little-endian)
/// into the four bytes of `end`; returns 4.
pub fn ieee80211_add_fcs(start: &[u8], end: &mut [u8]) -> (n: usize)
    requires
        old(end)@.len() == 4,
    ensures
        n == 4,
        final(end)@ == le32_bytes(spec_crc32(start@)),
{
    let crc = crc32(start);
    let mut v: Vec<u8> = Vec::new();
    push_le32(&mut v, crc);
    write_start(end, &v)
}

// ---------------------------------------------------------------------------
// Complete frames
// ---------------------------------------------------------------------------

/// `f` followed by its frame check sequence when `fcs` is set.
pub open spec fn with_fcs(f: Seq<u8>, fcs: bool) -> Seq<u8> {
    if fcs {
        f + le32_bytes(spec_crc32(f))
    } else {
        f
    }
}

/// A complete action frame of `action_type` from node `s` with 802.11
/// sequence number `seq` at time `now`, before any FCS: radiotap and 802.11
/// headers, the action header, then the synchronization, election, channel
/// sequence, election (second version) and service parameters TLVs, for a
/// MIF the HT capabilities and ARPA TLVs, then the data path state and
/// version TLVs.
pub open spec fn spec_action_frame_bytes(s: AwdlState, seq: u16, action_type: AwdlActionType, now: u64) -> Seq<u8> {
    let head = spec_radiotap_bytes()
        + spec_hdr_bytes(s.self_address@, s.dst@, IEEE80211_FTYPE_MGMT | IEEE80211_STYPE_ACTION, seq)
        + spec_action_bytes(action_type, now) + spec_sync_params_tlv_bytes(s, now)
        + spec_election_params_tlv_bytes(s) + spec_chanseq_tlv_bytes(s) + spec_election_params_v2_tlv_bytes(s)
        + spec_service_params_tlv_bytes();
    let mif = if action_type == AwdlActionType::MIF {
        spec_ht_capabilities_tlv_bytes() + spec_arpa_tlv_bytes(s)
    } else {
        Seq::empty()
    };
    head + mif + spec_data_path_state_tlv_bytes(s) + spec_version_tlv_bytes(s)
}

/// The FCS (CRC-32, little-endian) of the first `t.1` bytes of `t.0` put
/// after them, when `fcs` asks for it.
pub open spec fn add_fcs(t: (Seq<u8>, int), fcs: bool) -> (Seq<u8>, int) {
    if fcs {
        (splice(t.0, t.1, le32_bytes(spec_crc32(t.0.take(t.1)))), t.1 + 4)
    } else {
        t
    }
}

/// A fixed piece put at `p` of `b` when it fits, else nothing: the buffer,
/// and the position after what was put.
pub open spec fn put(b: Seq<u8>, p: int, piece: Seq<u8>) -> (Seq<u8>, int) {
    if p + piece.len() <= b.len() {
        (splice(b, p, piece), p + piece.len())
    } else {
        (b, p)
    }
}

/// An action frame being built in `buf`, up to and including the first
/// election parameters TLV: radiotap header, 802.11 header, action header
/// and the synchronization parameters TLV, each as much as the buffer
/// takes (see the single writers).
#[verifier::opaque]
pub open spec fn action_frame_head(buf: Seq<u8>, s: AwdlState, seq: u16, action_type: AwdlActionType, now: u64) -> (Seq<u8>, int) {
    let r0 = (splice(buf, 0, spec_radiotap_bytes()), 9int);
    let r1 = put(r0.0, r0.1, spec_hdr_bytes(s.self_address@, s.dst@, IEEE80211_FTYPE_MGMT | IEEE80211_STYPE_ACTION, seq));
    let r2 = put(r1.0, r1.1, spec_action_bytes(action_type, now));
    let sp = sync_piece(s, now, r2.0.len() - r2.1);
    let r3 = (splice(r2.0, r2.1, sp), r2.1 + sp.len());
    put(r3.0, r3.1, spec_election_params_tlv_bytes(s))
}

/// The action frame continued with the channel sequence, the second
/// election parameters and the service parameters TLVs, and for a MIF the
/// HT capabilities and ARPA TLVs; the position may pass the end of the
/// buffer after an ARPA TLV that did not fit.
pub open spec fn action_frame_body(buf: Seq<u8>, s: AwdlState, seq: u16, action_type: AwdlActionType, now: u64) -> (Seq<u8>, int) {
    let h = action_frame_head(buf, s, seq, action_type, now);
    action_frame_rest(h.0, h.1, s, action_type)
}

/// The channel sequence, second election parameters and service parameters
/// TLVs, and for a MIF the HT capabilities and ARPA TLVs, put into `b` from
/// `p` on.
#[verifier::opaque]
pub open spec fn action_frame_rest(b: Seq<u8>, p: int, s: AwdlState, action_type: AwdlActionType) -> (Seq<u8>, int) {
    let cp = chanseq_tlv_piece(s, b.len() - p);
    let r4 = (splice(b, p, cp), p + cp.len());
    let r5 = put(r4.0, r4.1, spec_election_params_v2_tlv_bytes(s));
    let r6 = put(r5.0, r5.1, spec_service_params_tlv_bytes());
    if action_type == AwdlActionType::MIF {
        let r7 = put(r6.0, r6.1, spec_ht_capabilities_tlv_bytes());
        (splice(r7.0, r7.1, arpa_piece(s, r7.0.len() - r7.1)), r7.1 + arpa_count(s, r7.0.len() - r7.1))
    } else {
        r6
    }
}

/// The action frame with the data path state and version TLVs, before any
/// FCS.
pub open spec fn action_frame_tail(buf: Seq<u8>, s: AwdlState, seq: u16, action_type: AwdlActionType, now: u64) -> (Seq<u8>, int) {
    let b = action_frame_body(buf, s, seq, action_type, now);
    let r8 = put(b.0, b.1, spec_data_path_state_tlv_bytes(s));
    put(r8.0, r8.1, spec_version_tlv_bytes(s))
}

/// The buffer takes an action frame without running out where the writers
/// need room: the radiotap header, the header of the channel sequence TLV,
/// what the ARPA TLV claims, and the FCS when one is added.
pub open spec fn action_frame_room(buf: Seq<u8>, s: AwdlState, seq: u16, action_type: AwdlActionType, now: u64, fcs: bool) -> bool {
    let h = action_frame_head(buf, s, seq, action_type, now);
    let b = action_frame_body(buf, s, seq, action_type, now);
    let t = action_frame_tail(buf, s, seq, action_type, now);
    &&& buf.len() >= 9
    &&& h.0.len() - h.1 >= 3
    &&& b.1 <= buf.len()
    &&& fcs ==> t.1 + 4 <= buf.len()
}

/// What building an action frame in `buf` does: the frame as far as the
/// buffer takes it, then, when asked for, the FCS of what was written.
pub open spec fn action_frame_written(buf: Seq<u8>, s: AwdlState, seq: u16, action_type: AwdlActionType, now: u64, fcs: bool) -> (Seq<u8>, int) {
    add_fcs(action_frame_tail(buf, s, seq, action_type, now), fcs)
}

/// Put `v` at `p` of `buf` when it fits.
fn put_exec(buf: &mut [u8], p: usize, v: &Vec<u8>) -> (r: usize)
    requires
        p <= old(buf)@.len(),
    ensures
        (final(buf)@, r as int) == put(old(buf)@, p as int, v@),
        final(buf)@.len() == old(buf)@.len(),
{
    if v.len() <= buf.len() - p {
        let _ = write_vec(buf, p, v);
        p + v.len()
    } else {
        p
    }
}

/// Put `v`, which fits, at `p` of `buf`.
fn put_fitting(buf: &mut [u8], p: usize, v: &Vec<u8>)
    requires
        p + v@.len() <= old(buf)@.len(),
    ensures
        final(buf)@ == splice(old(buf)@, p as int, v@),
        final(buf)@.len() == old(buf)@.len(),
{
    let _ = write_vec(buf, p, v);
}

/// The head of an action frame put into `buf`.
fn action_frame_head_exec(buf: &mut [u8], state: &AwdlState, seq: u16, action_type: AwdlActionType, now: u64) -> (p: usize)
    requires
        sync_params_ok(state.sync),
        old(buf)@.len() >= 9,
    ensures
        (final(buf)@, p as int) == action_frame_head(old(buf)@, *state, seq, action_type, now),
        p <= final(buf)@.len(),
        final(buf)@.len() == old(buf)@.len(),
{
    reveal(action_frame_head);
    let v = radiotap_bytes();
    put_fitting(buf, 0, &v);
    let mut p: usize = 9;
    let v = hdr_bytes(&state.self_address, &state.dst, IEEE80211_FTYPE_MGMT | IEEE80211_STYPE_ACTION, seq);
    p = put_exec(buf, p, &v);
    let v = action_bytes(action_type, now);
    p = put_exec(buf, p, &v);
    let v = sync_piece_bytes(state, now, buf.len() - p);
    put_fitting(buf, p, &v);
    p = p + v.len();
    let v = election_params_tlv_bytes(state);
    put_exec(buf, p, &v)
}

/// The rest of an action frame put into `buf` after its head.
fn action_frame_rest_exec(buf: &mut [u8], p: usize, state: &AwdlState, action_type: AwdlActionType) -> (q: usize)
    requires
        p + 3 <= old(buf)@.len(),
        action_frame_rest(old(buf)@, p as int, *state, action_type).1 <= old(buf)@.len(),
    ensures
        (final(buf)@, q as int) == action_frame_rest(old(buf)@, p as int, *state, action_type),
        final(buf)@.len() == old(buf)@.len(),
{
    reveal(action_frame_rest);
    let ghost b0 = buf@;
    let v = chanseq_tlv_piece_bytes(state, buf.len() - p);
    put_fitting(buf, p, &v);
    let mut p = p + v.len();
    let v = election_params_v2_tlv_bytes(state);
    p = put_exec(buf, p, &v);
    let v = service_params_tlv_bytes();
    p = put_exec(buf, p, &v);
    if action_type == AwdlActionType::MIF {
        let v = ht_capabilities_tlv_bytes();
        p = put_exec(buf, p, &v);
        let (v, count) = arpa_piece_bytes(state, buf.len() - p);
        put_fitting(buf, p, &v);
        assert(p + count <= b0.len());
        p = p + count;
    }
    p
}

/// The FCS of the first `p` bytes of `buf` put after them.
fn put_fcs(buf: &mut [u8], p: usize)
    requires
        p + 4 <= old(buf)@.len(),
    ensures
        final(buf)@ == splice(old(buf)@, p as int, le32_bytes(spec_crc32(old(buf)@.take(p as int)))),
        final(buf)@.len() == old(buf)@.len(),
{
    let head = vstd::slice::slice_subrange(buf, 0, p);
    assert(head@ =~= buf@.take(p as int));
    let crc = crc32(head);
    let mut v: Vec<u8> = Vec::new();
    push_le32(&mut v, crc);
    put_fitting(buf, p, &v);
}

/// Build an action frame of `action_type` at time `now` in `buf`, taking
/// the next 802.11 sequence number: each part as far as the buffer takes
/// it, then the FCS when the interface wants one. Returns the position
/// after the last part.
#[verifier::rlimit(40)]
pub fn awdl_init_full_action_frame_at(
    buf: &mut [u8],
    state: &mut AwdlState,
    ieee_state: &mut Ieee80211State,
    action_type: AwdlActionType,
    now: u64,
) -> (n: usize)
    requires
        sync_params_ok(old(state).sync),
        action_frame_room(old(buf)@, *old(state), old(ieee_state).sequence_number, action_type, now, old(ieee_state).fcs),
    ensures
        *final(state) == *old(state),
        final(ieee_state).sequence_number == vstd::wrapping::u16_specs::wrapping_add(old(ieee_state).sequence_number, 1) & 0x0fff,
        final(ieee_state).fcs == old(ieee_state).fcs,
        (final(buf)@, n as int) == action_frame_written(
            old(buf)@,
            *old(state),
            old(ieee_state).sequence_number,
            action_type,
            now,
            old(ieee_state).fcs,
        ),
{
    let ghost b0 = buf@;
    let ghost s0 = *state;
    let seq = ieee_state.next_sequence_number();
    let mut p = action_frame_head_exec(buf, state, seq, action_type, now);
    proof {
        let h = action_frame_head(b0, s0, seq, action_type, now);
        assert(h == (buf@, p as int));
        assert(action_frame_body(b0, s0, seq, action_type, now) == action_frame_rest(buf@, p as int, s0, action_type));
    }
    p = action_frame_rest_exec(buf, p, state, action_type);
    proof {
        assert(action_frame_body(b0, s0, seq, action_type, now) == (buf@, p as int));
    }
    let v = data_path_state_tlv_bytes(state);
    p = put_exec(buf, p, &v);
    let v = version_tlv_bytes(state);
    p = put_exec(buf, p, &v);
    if ieee_state.fcs {
        let len = buf.len();
        assert(p + 4 <= len);
        put_fcs(buf, p);
        p = p + 4;
    }
    p
}

/// Build an action frame of `action_type` stamped with the current time;
/// see `awdl_init_full_action_frame_at`.
pub fn awdl_init_full_action_frame(
    buf: &mut [u8],
    state: &mut AwdlState,
    ieee_state: &mut Ieee80211State,
    action_type: AwdlActionType,
) -> (n: usize)
    requires
        sync_params_ok(old(state).sync),
        forall|now: u64| action_frame_room(old(buf)@, *old(state), old(ieee_state).sequence_number, action_type, now, old(ieee_state).fcs),
    ensures
        *final(state) == *old(state),
        final(ieee_state).sequence_number == vstd::wrapping::u16_specs::wrapping_add(old(ieee_state).sequence_number, 1) & 0x0fff,
        final(ieee_state).fcs == old(ieee_state).fcs,
        exists|now: u64| (final(buf)@, n as int) == action_frame_written(
            old(buf)@,
            *old(state),
            old(ieee_state).sequence_number,
            action_type,
            now,
            old(ieee_state).fcs,
        ),
{
    let now = clock_time_us();
    awdl_init_full_action_frame_at(buf, state, ieee_state, action_type, now)
}

/// A complete data frame from `src` to `dst` carrying `payload`, with 802.11
/// sequence number `ieee_seq` and AWDL sequence number `awdl_seq`, before
/// any FCS.
pub open spec fn spec_data_frame_bytes(src: Seq<u8>, dst: Seq<u8>, payload: Seq<u8>, ieee_seq: u16, awdl_seq: u16) -> Seq<u8> {
    spec_radiotap_bytes() + spec_hdr_bytes(src, dst, IEEE80211_FTYPE_DATA | IEEE80211_STYPE_DATA, ieee_seq)
        + spec_llc_bytes() + spec_awdl_data_bytes(awdl_seq) + payload
}

/// A data frame being built in `buf`, before any FCS: radiotap header,
/// 802.11 header, LLC header, AWDL data header and the payload, each put
/// when it fits.
pub open spec fn data_frame_tail(buf: Seq<u8>, src: Seq<u8>, dst: Seq<u8>, payload: Seq<u8>, ieee_seq: u16, awdl_seq: u16) -> (Seq<u8>, int) {
    let r0 = (splice(buf, 0, spec_radiotap_bytes()), 9int);
    let r1 = put(r0.0, r0.1, spec_hdr_bytes(src, dst, IEEE80211_FTYPE_DATA | IEEE80211_STYPE_DATA, ieee_seq));
    let r2 = put(r1.0, r1.1, spec_llc_bytes());
    let r3 = put(r2.0, r2.1, spec_awdl_data_bytes(awdl_seq));
    put(r3.0, r3.1, payload)
}

/// What building a data frame in `buf` does: the frame as far as the buffer
/// takes it, then, when asked for, the FCS of what was written.
pub open spec fn data_frame_written(buf: Seq<u8>, src: Seq<u8>, dst: Seq<u8>, payload: Seq<u8>, ieee_seq: u16, awdl_seq: u16, fcs: bool) -> (Seq<u8>, int) {
    add_fcs(data_frame_tail(buf, src, dst, payload, ieee_seq, awdl_seq), fcs)
}

/// Build a data frame carrying `payload` in `buf`, taking the next 802.11
/// and AWDL sequence numbers: each part when it fits, then the FCS when the
/// interface wants one. Returns the position after the last part.
pub fn awdl_init_full_data_frame(
    buf: &mut [u8],
    src: &[u8; 6],
    dst: &[u8; 6],
    payload: &[u8],
    state: &mut AwdlState,
    ieee_state: &mut Ieee80211State,
) -> (n: usize)
    requires
        old(buf)@.len() >= 9,
        old(ieee_state).fcs ==> data_frame_tail(
            old(buf)@,
            src@,
            dst@,
            payload@,
            old(ieee_state).sequence_number,
            old(state).sequence_number,
        ).1 + 4 <= old(buf)@.len(),
    ensures
        *final(state) == (AwdlState {
            sequence_number: vstd::wrapping::u16_specs::wrapping_add(old(state).sequence_number, 1),
            ..*old(state)
        }),
        final(ieee_state).sequence_number == vstd::wrapping::u16_specs::wrapping_add(old(ieee_state).sequence_number, 1) & 0x0fff,
        final(ieee_state).fcs == old(ieee_state).fcs,
        (final(buf)@, n as int) == data_frame_written(
            old(buf)@,
            src@,
            dst@,
            payload@,
            old(ieee_state).sequence_number,
            old(state).sequence_number,
            old(ieee_state).fcs,
        ),
{
    let ghost b0 = buf@;
    let ghost aseq = state.sequence_number;
    let ieee_seq = ieee_state.next_sequence_number();
    let v = radiotap_bytes();
    put_fitting(buf, 0, &v);
    let mut p: usize = 9;
    let v = hdr_bytes(src, dst, IEEE80211_FTYPE_DATA | IEEE80211_STYPE_DATA, ieee_seq);
    p = put_exec(buf, p, &v);
    let v = LlcHdr { dsap: 0xaa, ssap: 0xaa, control: 0x03, oui: AWDL_OUI, pid: AWDL_LLC_PROTOCOL_ID }.to_bytes();
    p = put_exec(buf, p, &v);
    let awdl_seq = state.next_sequence_number();
    let v = AwdlData { head: AWDL_DATA_HEAD, seq: awdl_seq, pad: AWDL_DATA_PAD, ethertype: ETH_P_IPV6 }.to_bytes();
    p = put_exec(buf, p, &v);
    let v = vstd::slice::slice_to_vec(payload);
    p = put_exec(buf, p, &v);
    proof {
        assert((buf@, p as int) == data_frame_tail(b0, src@, dst@, payload@, ieee_seq, aseq));
        assert(ieee_seq == old(ieee_state).sequence_number);
        assert(aseq == old(state).sequence_number);
        assert(ieee_state.fcs == old(ieee_state).fcs);
        assert(b0 == old(buf)@);
        assert(buf@.len() == b0.len());
    }
    if ieee_state.fcs {
        let len = buf.len();
        assert(p + 4 <= len);
        put_fcs(buf, p);
        p = p + 4;
    }
    p
}

// ---------------------------------------------------------------------------
// Frames that fit
// ---------------------------------------------------------------------------

proof fn lemma_chanseq_len(ch: AwdlChannelState)
    ensures
        spec_chanseq_bytes(ch).len() == 6 + 16 * spec_encoding_size(ch.enc),
{
    lemma_chan_values_len(ch.sequence@, spec_encoding_size(ch.enc) as int, 16);
}

proof fn lemma_splice_join(b: Seq<u8>, a: Seq<u8>, c: Seq<u8>)
    requires
        a.len() + c.len() <= b.len(),
    ensures
        splice(splice(b, 0, a), a.len() as int, c) == splice(b, 0, a + c),
        splice(b, 0, a).len() == b.len(),
        splice(b, 0, a + c).len() == b.len(),
{
    assert(splice(splice(b, 0, a), a.len() as int, c) =~= splice(b, 0, a + c));
}

proof fn lemma_put_join(b: Seq<u8>, a: Seq<u8>, c: Seq<u8>)
    requires
        a.len() + c.len() <= b.len(),
    ensures
        put(splice(b, 0, a), a.len() as int, c) == (splice(b, 0, a + c), (a + c).len() as int),
{
    lemma_splice_join(b, a, c);
}

proof fn lemma_sync_piece_full(s: AwdlState, now: u64, room: int)
    requires
        room >= spec_sync_params_tlv_bytes(s, now).len(),
    ensures
        sync_piece(s, now, room) == spec_sync_params_tlv_bytes(s, now),
{
    lemma_chanseq_len(s.channel);
    let cs = spec_chanseq_bytes(s.channel);
    assert(cs.take(cs.len() as int) =~= cs);
    assert(seq![0u8, 0u8].take(2) =~= seq![0u8, 0u8]);
}

proof fn lemma_chanseq_tlv_piece_full(s: AwdlState, room: int)
    requires
        room >= spec_chanseq_tlv_bytes(s).len(),
    ensures
        chanseq_tlv_piece(s, room) == spec_chanseq_tlv_bytes(s),
{
    lemma_chanseq_len(s.channel);
    let cs = spec_chanseq_bytes(s.channel);
    assert(cs.take(cs.len() as int) =~= cs);
    assert(seq![0u8, 0u8, 0u8].take(3) =~= seq![0u8, 0u8, 0u8]);
}

/// The first part of an action frame: radiotap, 802.11 and action headers,
/// synchronization and election parameters.
pub open spec fn action_head_bytes(s: AwdlState, seq: u16, action_type: AwdlActionType, now: u64) -> Seq<u8> {
    spec_radiotap_bytes() + spec_hdr_bytes(s.self_address@, s.dst@, IEEE80211_FTYPE_MGMT | IEEE80211_STYPE_ACTION, seq)
        + spec_action_bytes(action_type, now) + spec_sync_params_tlv_bytes(s, now) + spec_election_params_tlv_bytes(s)
}

/// The action frame up to the data path state TLV.
pub open spec fn action_body_bytes(s: AwdlState, seq: u16, action_type: AwdlActionType, now: u64) -> Seq<u8> {
    let mif = if action_type == AwdlActionType::MIF {
        spec_ht_capabilities_tlv_bytes() + spec_arpa_tlv_bytes(s)
    } else {
        Seq::empty()
    };
    action_head_bytes(s, seq, action_type, now) + spec_chanseq_tlv_bytes(s) + spec_election_params_v2_tlv_bytes(s)
        + spec_service_params_tlv_bytes() + mif
}

#[verifier::rlimit(40)]
proof fn lemma_action_head_fits(buf: Seq<u8>, s: AwdlState, seq: u16, action_type: AwdlActionType, now: u64)
    requires
        action_head_bytes(s, seq, action_type, now).len() <= buf.len(),
    ensures
        action_frame_head(buf, s, seq, action_type, now) == (
            splice(buf, 0, action_head_bytes(s, seq, action_type, now)),
            action_head_bytes(s, seq, action_type, now).len() as int,
        ),
{
    reveal(action_frame_head);
    let x0 = spec_radiotap_bytes();
    let x1 = x0 + spec_hdr_bytes(s.self_address@, s.dst@, IEEE80211_FTYPE_MGMT | IEEE80211_STYPE_ACTION, seq);
    let x2 = x1 + spec_action_bytes(action_type, now);
    let x3 = x2 + spec_sync_params_tlv_bytes(s, now);
    assert(splice(buf, 0, x0).len() == buf.len());
    lemma_put_join(buf, x0, spec_hdr_bytes(s.self_address@, s.dst@, IEEE80211_FTYPE_MGMT | IEEE80211_STYPE_ACTION, seq));
    lemma_put_join(buf, x1, spec_action_bytes(action_type, now));
    lemma_sync_piece_full(s, now, buf.len() - x2.len());
    lemma_splice_join(buf, x2, spec_sync_params_tlv_bytes(s, now));
    lemma_put_join(buf, x3, spec_election_params_tlv_bytes(s));
}

#[verifier::rlimit(80)]
proof fn lemma_action_rest_fits(buf: Seq<u8>, s: AwdlState, seq: u16, action_type: AwdlActionType, now: u64)
    requires
        action_body_bytes(s, seq, action_type, now).len() <= buf.len(),
    ensures
        action_frame_rest(
            splice(buf, 0, action_head_bytes(s, seq, action_type, now)),
            action_head_bytes(s, seq, action_type, now).len() as int,
            s,
            action_type,
        ) == (splice(buf, 0, action_body_bytes(s, seq, action_type, now)), action_body_bytes(s, seq, action_type, now).len() as int),
{
    reveal(action_frame_rest);
    let x4 = action_head_bytes(s, seq, action_type, now);
    let x5 = x4 + spec_chanseq_tlv_bytes(s);
    let x6 = x5 + spec_election_params_v2_tlv_bytes(s);
    let x7 = x6 + spec_service_params_tlv_bytes();
    lemma_splice_join(buf, x4, Seq::empty());
    lemma_chanseq_tlv_piece_full(s, buf.len() - x4.len());
    lemma_splice_join(buf, x4, spec_chanseq_tlv_bytes(s));
    lemma_put_join(buf, x5, spec_election_params_v2_tlv_bytes(s));
    lemma_put_join(buf, x6, spec_service_params_tlv_bytes());
    if action_type == AwdlActionType::MIF {
        let x7h = x7 + spec_ht_capabilities_tlv_bytes();
        lemma_put_join(buf, x7, spec_ht_capabilities_tlv_bytes());
        lemma_splice_join(buf, x7h, spec_arpa_tlv_bytes(s));
        assert(x7h + spec_arpa_tlv_bytes(s) =~= action_body_bytes(s, seq, action_type, now));
    } else {
        assert(x7 =~= action_body_bytes(s, seq, action_type, now));
    }
}

/// With room for the whole frame, the action frame builder writes exactly
/// the frame (and its FCS when asked for) and returns its length.
#[verifier::rlimit(60)]
pub proof fn lemma_action_frame_fits(buf: Seq<u8>, s: AwdlState, seq: u16, action_type: AwdlActionType, now: u64, fcs: bool)
    requires
        with_fcs(spec_action_frame_bytes(s, seq, action_type, now), fcs).len() <= buf.len(),
    ensures
        action_frame_room(buf, s, seq, action_type, now, fcs),
        action_frame_written(buf, s, seq, action_type, now, fcs) == (
            splice(buf, 0, with_fcs(spec_action_frame_bytes(s, seq, action_type, now), fcs)),
            with_fcs(spec_action_frame_bytes(s, seq, action_type, now), fcs).len() as int,
        ),
{
    let full = spec_action_frame_bytes(s, seq, action_type, now);
    let x4 = action_head_bytes(s, seq, action_type, now);
    let x8 = action_body_bytes(s, seq, action_type, now);
    let x9 = x8 + spec_data_path_state_tlv_bytes(s);
    assert(x9 + spec_version_tlv_bytes(s) =~= full);
    lemma_chanseq_len(s.channel);
    lemma_action_head_fits(buf, s, seq, action_type, now);
    lemma_action_rest_fits(buf, s, seq, action_type, now);
    let h = action_frame_head(buf, s, seq, action_type, now);
    assert(h == (splice(buf, 0, x4), x4.len() as int));
    let b = action_frame_body(buf, s, seq, action_type, now);
    assert(b == action_frame_rest(h.0, h.1, s, action_type));
    assert(b == (splice(buf, 0, x8), x8.len() as int));
    lemma_put_join(buf, x8, spec_data_path_state_tlv_bytes(s));
    lemma_put_join(buf, x9, spec_version_tlv_bytes(s));
    let t = action_frame_tail(buf, s, seq, action_type, now);
    assert(t == (splice(buf, 0, full), full.len() as int));
    if fcs {
        assert(t.0.take(t.1) =~= full);
        lemma_splice_join(buf, full, le32_bytes(spec_crc32(full)));
    }
}

/// With room for the whole frame, the data frame builder writes exactly the
/// frame (and its FCS when asked for) and returns its length.
pub proof fn lemma_data_frame_fits(buf: Seq<u8>, src: Seq<u8>, dst: Seq<u8>, payload: Seq<u8>, ieee_seq: u16, awdl_seq: u16, fcs: bool)
    requires
        with_fcs(spec_data_frame_bytes(src, dst, payload, ieee_seq, awdl_seq), fcs).len() <= buf.len(),
    ensures
        data_frame_tail(buf, src, dst, payload, ieee_seq, awdl_seq).1 + (if fcs { 4int } else { 0int }) <= buf.len(),
        data_frame_written(buf, src, dst, payload, ieee_seq, awdl_seq, fcs) == (
            splice(buf, 0, with_fcs(spec_data_frame_bytes(src, dst, payload, ieee_seq, awdl_seq), fcs)),
            with_fcs(spec_data_frame_bytes(src, dst, payload, ieee_seq, awdl_seq), fcs).len() as int,
        ),
{
    let full = spec_data_frame_bytes(src, dst, payload, ieee_seq, awdl_seq);
    let x0 = spec_radiotap_bytes();
    let x1 = x0 + spec_hdr_bytes(src, dst, IEEE80211_FTYPE_DATA | IEEE80211_STYPE_DATA, ieee_seq);
    let x2 = x1 + spec_llc_bytes();
    let x3 = x2 + spec_awdl_data_bytes(awdl_seq);
    let x4 = x3 + payload;
    assert(x4 =~= full);
    lemma_put_join(buf, x0, spec_hdr_bytes(src, dst, IEEE80211_FTYPE_DATA | IEEE80211_STYPE_DATA, ieee_seq));
    lemma_put_join(buf, x1, spec_llc_bytes());
    lemma_put_join(buf, x2, spec_awdl_data_bytes(awdl_seq));
    lemma_put_join(buf, x3, payload);
    let t = data_frame_tail(buf, src, dst, payload, ieee_seq, awdl_seq);
    assert(t == (splice(buf, 0, full), full.len() as int));
    if fcs {
        assert(t.0.take(t.1) =~= full);
        lemma_splice_join(buf, full, le32_bytes(spec_crc32(full)));
    }
}

/// The length of an action frame, part by part.
pub open spec fn action_frame_size(s: AwdlState, action_type: AwdlActionType) -> int {
    let cs = spec_chanseq_bytes(s.channel).len() as int;
    let mif = if action_type == AwdlActionType::MIF {
        spec_ht_capabilities_tlv_bytes().len() + spec_arpa_tlv_bytes(s).len()
    } else {
        0
    };
    9 + 24 + 16 + (36 + cs + 2) + 24 + (3 + cs + 3) + 39 + spec_service_params_tlv_bytes().len()
        + mif + spec_data_path_state_tlv_bytes(s).len() + spec_version_tlv_bytes(s).len()
}

proof fn lemma_action_frame_size(s: AwdlState, seq: u16, action_type: AwdlActionType, now: u64)
    ensures
        spec_action_frame_bytes(s, seq, action_type, now).len() == action_frame_size(s, action_type),
{
    lemma_chanseq_len(s.channel);
    assert(spec_radiotap_bytes().len() == 9);
    assert(spec_hdr_bytes(s.self_address@, s.dst@, IEEE80211_FTYPE_MGMT | IEEE80211_STYPE_ACTION, seq).len() == 24);
    assert(spec_action_bytes(action_type, now).len() == 16);
    assert(sync_fixed_bytes(s, now, (AWDL_SYNC_PARAMS_TLV_FIXED + spec_chanseq_bytes(s.channel).len() + 2 - 3) as u16).len() == 36);
    assert(spec_election_params_tlv_bytes(s).len() == 24);
    assert(spec_election_params_v2_tlv_bytes(s).len() == 39);
}

/// The length of an action frame of `action_type` from `state` (with its
/// FCS when `fcs`), whatever its sequence number and time; `None` when it
/// exceeds the largest `usize`. A buffer at least that long takes the frame
/// whole.
#[verifier::rlimit(60)]
pub fn action_frame_len(state: &AwdlState, action_type: AwdlActionType, fcs: bool) -> (n: Option<usize>)
    ensures
        n matches Some(k) ==> forall|seq: u16, now: u64|
            k == #[trigger] with_fcs(spec_action_frame_bytes(*state, seq, action_type, now), fcs).len(),
        n matches Some(k) ==> forall|buf: Seq<u8>, seq: u16, now: u64|
            buf.len() >= k ==> #[trigger] action_frame_room(buf, *state, seq, action_type, now, fcs),
        n is None ==> action_frame_size(*state, action_type) + (if fcs { 4int } else { 0int }) > usize::MAX,
{
    proof {
        lemma_chanseq_len(state.channel);
    }
    let cs = chanseq_bytes(&state.channel).len();
    let service = service_params_tlv_bytes().len();
    let dp = data_path_state_tlv_bytes(state).len();
    let version = version_tlv_bytes(state).len();
    let fixed: usize = 9 + 24 + 16 + (36 + cs + 2) + 24 + (3 + cs + 3) + 39 + service + dp + version;
    let total = if action_type == AwdlActionType::MIF {
        let ht = ht_capabilities_tlv_bytes().len();
        let arpa = arpa_tlv_bytes(state).len();
        match (fixed + ht).checked_add(arpa) {
            Some(t) => t,
            None => return None,
        }
    } else {
        fixed
    };
    let n = if fcs {
        total.checked_add(4)
    } else {
        Some(total)
    };
    proof {
        if let Some(k) = n {
            assert forall|seq: u16, now: u64| k == #[trigger] with_fcs(spec_action_frame_bytes(*state, seq, action_type, now), fcs).len() by {
                lemma_action_frame_size(*state, seq, action_type, now);
            }
            assert forall|buf: Seq<u8>, seq: u16, now: u64| buf.len() >= k implies #[trigger] action_frame_room(buf, *state, seq, action_type, now, fcs) by {
                lemma_action_frame_size(*state, seq, action_type, now);
                lemma_action_frame_fits(buf, *state, seq, action_type, now, fcs);
            }
        }
    }
    n
}

} // verus!
