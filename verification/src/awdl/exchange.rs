//! What one node's receive path makes of the frames another node's
//! transmit path builds.

use vstd::prelude::*;
use crate::awdl::frame::{AwdlActionType, spec_action_type_value};
use crate::awdl::channel::{AwdlChan, AwdlChannelState, spec_encoding_size};
use crate::awdl::peers::{find_view, PeerView};
use crate::awdl::rx::{RxResult, spec_election_v2_peer, spec_chanseq, update_peer, spec_parse_action_hdr, spec_radiotap, spec_check_fcs, spec_rx, spec_rx_data, spec_valid_llc};
use crate::awdl::state::{AwdlState, AwdlStats, StateView};
use crate::awdl::tx::{spec_action_bytes, spec_data_frame_bytes, spec_action_frame_bytes, spec_radiotap_bytes, spec_hdr_bytes, spec_llc_bytes, spec_awdl_data_bytes, spec_chanseq_bytes, chan_values, lemma_chan_values_index, spec_election_params_v2_tlv_bytes};
use crate::awdl::wire::{le16_value, le32_value, be16_value, be16_bytes};

verus! {

/// An AWDL action header built for `action_type` is recognized as one of
/// that subtype, whatever follows it.
pub proof fn lemma_action_header_recognized(action_type: AwdlActionType, now: u64, rest: Seq<u8>)
    ensures
        spec_parse_action_hdr(spec_action_bytes(action_type, now) + rest) == Some(action_type),
{
    let f = spec_action_bytes(action_type, now) + rest;
    assert(f.subrange(1, 4) =~= seq![0x00u8, 0x17u8, 0xf2u8]);
    assert(crate::awdl::frame::AWDL_OUI@ =~= seq![0x00u8, 0x17u8, 0xf2u8]);
    assert(f[6] == spec_action_type_value(action_type));
}

/// The radiotap header this node sends parses as: no signal, no flags.
proof fn lemma_radiotap_of_tx(rest: Seq<u8>)
    ensures
        spec_radiotap(spec_radiotap_bytes() + rest) == Some((0i8, 0u8)),
        le16_value((spec_radiotap_bytes() + rest)[2], (spec_radiotap_bytes() + rest)[3]) == 9,
{
    let f = spec_radiotap_bytes() + rest;
    assert(f[0] == 0 && f[2] == 9 && f[3] == 0 && f[4] == 4 && f[5] == 0 && f[6] == 0 && f[7] == 0);
    let present = le32_value(f[4], f[5], f[6], f[7]) as u32;
    assert(present == 4);
    assert(4u32 & 1 == 0 && 4u32 & 2 == 0 && 4u32 & 4 != 0 && 4u32 & 0x20 == 0) by (bit_vector);
}

/// A data frame built without FCS by a node with address `src` for `dst`,
/// received by a node that knows `src` (and is not `src`), is delivered as
/// the Ethernet frame from `src` to `dst` carrying the payload, with the
/// AWDL LLC protocol id (IPv4's) as EtherType; the receiver only counts it.
pub proof fn lemma_data_frame_delivered(
    src: Seq<u8>,
    dst: Seq<u8>,
    payload: Seq<u8>,
    ieee_seq: u16,
    awdl_seq: u16,
    s: StateView,
    now: u64,
)
    requires
        src.len() == 6,
        dst.len() == 6,
        src != s.self_address,
        find_view(s.peers, src) is Some,
    ensures
        spec_rx(spec_data_frame_bytes(src, dst, payload, ieee_seq, awdl_seq), s, now) == (
            RxResult::Processed,
            Some(dst + src + seq![0x08u8, 0x00u8] + payload),
            StateView {
                stats: AwdlStats { rx_data: vstd::wrapping::u64_specs::wrapping_add(s.stats.rx_data, 1), ..s.stats },
                ..s
            },
        ),
{
    let hdr = spec_hdr_bytes(src, dst, 0x0008, ieee_seq);
    let rest = spec_llc_bytes() + spec_awdl_data_bytes(awdl_seq) + payload;
    let frame = spec_data_frame_bytes(src, dst, payload, ieee_seq, awdl_seq);
    assert(crate::awdl::frame::IEEE80211_FTYPE_DATA | crate::awdl::frame::IEEE80211_STYPE_DATA == 0x0008u16) by (bit_vector);
    assert(frame =~= spec_radiotap_bytes() + (hdr + rest));
    lemma_radiotap_of_tx(hdr + rest);
    let n = frame.len() - 9;
    assert(spec_check_fcs(n, 0u8) == Some(n)) by {
        assert(0u8 & 0x40 == 0 && 0u8 & 0x10 == 0) by (bit_vector);
    }
    let body = frame.subrange(9, 9 + n);
    assert(body =~= hdr + rest);
    assert(body.subrange(4, 10) =~= dst);
    assert(body.subrange(10, 16) =~= src);
    assert(le16_value(body[0], body[1]) == 8);
    assert(body.subrange(24, body.len() as int) =~= rest);
    assert(8u16 & 0x000c == 0x0008 && 8u16 & 0x00f0 == 0) by (bit_vector);
    assert(crate::awdl::frame::AWDL_OUI@ =~= seq![0x00u8, 0x17u8, 0xf2u8]);
    assert(rest[0] == 0xaa && rest[1] == 0xaa && rest[2] == 0x03 && rest[6] == 0x08 && rest[7] == 0x00);
    assert(spec_valid_llc(rest));
    assert(rest.subrange(16, rest.len() as int) =~= payload);
    assert(be16_bytes(be16_value(rest[6], rest[7]) as u16) =~= seq![0x08u8, 0x00u8]);
}

/// A frame from this node's own address is ignored and changes nothing.
proof fn lemma_from_self_ignored(tail: Seq<u8>, st: StateView, t: u64)
    requires
        tail.len() >= 24,
        tail.subrange(10, 16) == st.self_address,
    ensures
        spec_rx(spec_radiotap_bytes() + tail, st, t) == (RxResult::IgnoreFromSelf, None::<Seq<u8>>, st),
{
    let f = spec_radiotap_bytes() + tail;
    lemma_radiotap_of_tx(tail);
    let n = f.len() - 9;
    assert(spec_check_fcs(n, 0u8) == Some(n)) by {
        assert(0u8 & 0x40 == 0 && 0u8 & 0x10 == 0) by (bit_vector);
    }
    assert(f.subrange(9, 9 + n) =~= tail);
}

/// A node ignores the action frames it sent itself (built without FCS),
/// and its state stays as it was.
pub proof fn lemma_own_action_frame_ignored(s: AwdlState, seq_no: u16, action_type: AwdlActionType, now: u64, st: StateView, t: u64)
    requires
        st.self_address == s.self_address@,
    ensures
        spec_rx(spec_action_frame_bytes(s, seq_no, action_type, now), st, t) == (RxResult::IgnoreFromSelf, None::<Seq<u8>>, st),
{
    let f = spec_action_frame_bytes(s, seq_no, action_type, now);
    let hdr = spec_hdr_bytes(s.self_address@, s.dst@, crate::awdl::frame::IEEE80211_FTYPE_MGMT | crate::awdl::frame::IEEE80211_STYPE_ACTION, seq_no);
    let tail = f.subrange(9, f.len() as int);
    assert(f.len() >= 33);
    assert(f =~= spec_radiotap_bytes() + tail);
    assert(tail.subrange(10, 16) =~= s.self_address@);
    lemma_from_self_ignored(tail, st, t);
}

/// The channel sequence a receiver keeps of `seq` sent in encoding `enc`:
/// each channel as sent, and under a one-byte encoding its first byte with
/// a zero second byte.
pub open spec fn received_sequence(seq: Seq<AwdlChan>, e: int) -> Seq<Seq<u8>> {
    Seq::new(16, |i: int| if e == 1 { seq![seq[i].val@[0], 0u8] } else { seq[i].val@ })
}

/// The channel sequence a node sends is taken in by a receiver running the
/// AWDL presence mode (four AWs per extended AW): the sending peer's
/// sequence becomes the sent channels, as the encoding carries them.
pub proof fn lemma_chanseq_read_back(ch: AwdlChannelState, src: Seq<u8>, s: StateView)
    requires
        s.sync.presence_mode == 4,
    ensures
        spec_chanseq(src, spec_chanseq_bytes(ch), s) == (
            RxResult::Processed,
            update_peer(
                s,
                src,
                |p: PeerView| PeerView { sequence: received_sequence(ch.sequence@, spec_encoding_size(ch.enc) as int), ..p },
            ),
        ),
{
    let val = spec_chanseq_bytes(ch);
    let e = spec_encoding_size(ch.enc) as int;
    let sq = ch.sequence@;
    assert(sq.len() == 16);
    assert forall|j: int| 0 <= j < sq.len() implies (#[trigger] sq[j]).val@.len() == 2 by {}
    lemma_chan_values_index(sq, e, 16, 0, 0);
    let head = val.subrange(0, 6);
    assert(val.len() == 6 + 16 * e);
    assert(val[0] == 15 && val[2] == 0 && val[3] == 3);
    assert(val[4] == 0xff && val[5] == 0xff);
    assert(le16_value(val[4], val[5]) == 0xffff);
    assert(val[1] == crate::awdl::channel::spec_encoding_value(ch.enc));
    let list = crate::awdl::rx::chanseq_list(val, e);
    let want = received_sequence(sq, e);
    assert forall|i: int| 0 <= i < 16 implies #[trigger] list[i] == want[i] by {
        lemma_chan_values_index(sq, e, 16, i, 0);
        if e == 2 {
            lemma_chan_values_index(sq, e, 16, i, 1);
            assert(list[i] =~= want[i]);
        } else {
            assert(list[i] =~= want[i]);
        }
    }
    assert(list =~= want);
}

/// The second-version election TLV a node writes carries, field by field,
/// the node's election state: type and length 36, then the master and sync
/// addresses, and little-endian the master counter, the height, the master
/// metric, the node's own metric, four unused bytes and its own counter.
pub proof fn lemma_election_v2_tlv_fields(s: AwdlState)
    ensures
        ({
            let b = spec_election_params_v2_tlv_bytes(s);
            &&& b.len() == 39
            &&& b[0] == crate::awdl::frame::AWDL_ELECTION_PARAMETERS_V2_TLV
            &&& le16_value(b[1], b[2]) == 36
            &&& b.subrange(3, 9) == s.election.master_addr@
            &&& b.subrange(9, 15) == s.election.sync_addr@
            &&& le32_value(b[15], b[16], b[17], b[18]) == s.election.master_counter
            &&& le32_value(b[19], b[20], b[21], b[22]) == s.election.height
            &&& le32_value(b[23], b[24], b[25], b[26]) == s.election.master_metric
            &&& le32_value(b[27], b[28], b[29], b[30]) == s.election.self_metric
            &&& le32_value(b[31], b[32], b[33], b[34]) == 0
            &&& le32_value(b[35], b[36], b[37], b[38]) == s.election.self_counter
        }),
{
    let b = spec_election_params_v2_tlv_bytes(s);
    let e = s.election;
    lemma_election_v2_layout(s);
    lemma_le32_field(b, 15, e.master_counter);
    lemma_le32_field(b, 19, e.height);
    lemma_le32_field(b, 23, e.master_metric);
    lemma_le32_field(b, 27, e.self_metric);
    lemma_le32_field(b, 31, 0);
    lemma_le32_field(b, 35, e.self_counter);
    let h = b.subrange(0, 3);
    assert(b[1] == h[1] && b[2] == h[2]);
    assert(b[0] == h[0]);
}

/// Where the fields of the second-version election TLV sit.
proof fn lemma_election_v2_layout(s: AwdlState)
    ensures
        ({
            let b = spec_election_params_v2_tlv_bytes(s);
            let e = s.election;
            &&& b.len() == 39
            &&& b.subrange(0, 3) == seq![crate::awdl::frame::AWDL_ELECTION_PARAMETERS_V2_TLV] + crate::awdl::wire::le16_bytes(36)
            &&& b.subrange(3, 9) == e.master_addr@
            &&& b.subrange(9, 15) == e.sync_addr@
            &&& b.subrange(15, 19) == crate::awdl::wire::le32_bytes(e.master_counter)
            &&& b.subrange(19, 23) == crate::awdl::wire::le32_bytes(e.height)
            &&& b.subrange(23, 27) == crate::awdl::wire::le32_bytes(e.master_metric)
            &&& b.subrange(27, 31) == crate::awdl::wire::le32_bytes(e.self_metric)
            &&& b.subrange(31, 35) == crate::awdl::wire::le32_bytes(0)
            &&& b.subrange(35, 39) == crate::awdl::wire::le32_bytes(e.self_counter)
        }),
{
    let b = spec_election_params_v2_tlv_bytes(s);
    let e = s.election;
    let p0 = seq![crate::awdl::frame::AWDL_ELECTION_PARAMETERS_V2_TLV] + crate::awdl::wire::le16_bytes(36);
    let p1 = p0 + e.master_addr@;
    let p2 = p1 + e.sync_addr@;
    let p3 = p2 + crate::awdl::wire::le32_bytes(e.master_counter);
    let p4 = p3 + crate::awdl::wire::le32_bytes(e.height);
    let p5 = p4 + crate::awdl::wire::le32_bytes(e.master_metric);
    let p6 = p5 + crate::awdl::wire::le32_bytes(e.self_metric);
    let p7 = p6 + crate::awdl::wire::le32_bytes(0);
    assert(b == p7 + crate::awdl::wire::le32_bytes(e.self_counter));
    assert(b.subrange(0, 35) =~= p7);
    assert(b.subrange(35, 39) =~= crate::awdl::wire::le32_bytes(e.self_counter));
    assert(p7.subrange(0, 31) =~= p6);
    assert(p7.subrange(31, 35) =~= crate::awdl::wire::le32_bytes(0));
    assert(p6.subrange(0, 27) =~= p5);
    assert(p6.subrange(27, 31) =~= crate::awdl::wire::le32_bytes(e.self_metric));
    assert(p5.subrange(0, 23) =~= p4);
    assert(p5.subrange(23, 27) =~= crate::awdl::wire::le32_bytes(e.master_metric));
    assert(p4.subrange(0, 19) =~= p3);
    assert(p4.subrange(19, 23) =~= crate::awdl::wire::le32_bytes(e.height));
    assert(p3.subrange(0, 15) =~= p2);
    assert(p3.subrange(15, 19) =~= crate::awdl::wire::le32_bytes(e.master_counter));
    assert(p2.subrange(0, 9) =~= p1);
    assert(p2.subrange(9, 15) =~= e.sync_addr@);
    assert(p1.subrange(0, 3) =~= p0);
    assert(p1.subrange(3, 9) =~= e.master_addr@);
    assert(b.subrange(31, 35) =~= p7.subrange(31, 35));
    assert(b.subrange(27, 31) =~= p6.subrange(27, 31));
    assert(b.subrange(23, 27) =~= p5.subrange(23, 27));
    assert(b.subrange(19, 23) =~= p4.subrange(19, 23));
    assert(b.subrange(15, 19) =~= p3.subrange(15, 19));
    assert(b.subrange(9, 15) =~= p2.subrange(9, 15));
    assert(b.subrange(3, 9) =~= p1.subrange(3, 9));
    assert(b.subrange(0, 3) =~= p0);
}

/// Four bytes that are the little-endian encoding of `v` read back as `v`.
proof fn lemma_le32_field(b: Seq<u8>, off: int, v: u32)
    requires
        0 <= off,
        off + 4 <= b.len(),
        b.subrange(off, off + 4) == crate::awdl::wire::le32_bytes(v),
    ensures
        le32_value(b[off], b[off + 1], b[off + 2], b[off + 3]) == v,
{
    let c = crate::awdl::wire::le32_bytes(v);
    assert(b[off] == b.subrange(off, off + 4)[0]);
    assert(b[off + 1] == b.subrange(off, off + 4)[1]);
    assert(b[off + 2] == b.subrange(off, off + 4)[2]);
    assert(b[off + 3] == b.subrange(off, off + 4)[3]);
}

/// A peer reading the second-version election TLV another node wrote takes
/// over that node's master and sync address, master counter, height,
/// master metric and own metric. The value is 36 bytes long and the reader
/// looks for the own counter at bytes 36 to 40, so the reading ends there as
/// an unexpected format, with the own counter and the rest of the peer left
/// as they were.
pub proof fn lemma_election_v2_read_back(s: AwdlState, p: PeerView)
    ensures
        ({
            let val = spec_election_params_v2_tlv_bytes(s).subrange(3, 39);
            spec_election_v2_peer(p, val) == (
                RxResult::UnexpectedFormat,
                PeerView {
                    election: crate::awdl::election::ElectionView {
                        master_addr: s.election.master_addr@,
                        sync_addr: s.election.sync_addr@,
                        master_counter: s.election.master_counter,
                        height: s.election.height,
                        master_metric: s.election.master_metric,
                        self_metric: s.election.self_metric,
                        ..p.election
                    },
                    ..p
                },
            )
        }),
{
    lemma_election_v2_tlv_fields(s);
    let b = spec_election_params_v2_tlv_bytes(s);
    let val = b.subrange(3, 39);
    assert(val.subrange(0, 6) =~= b.subrange(3, 9));
    assert(val.subrange(6, 12) =~= b.subrange(9, 15));
    assert(val[12] == b[15] && val[13] == b[16] && val[14] == b[17] && val[15] == b[18]);
    assert(val[16] == b[19] && val[17] == b[20] && val[18] == b[21] && val[19] == b[22]);
    assert(val[20] == b[23] && val[21] == b[24] && val[22] == b[25] && val[23] == b[26]);
    assert(val[24] == b[27] && val[25] == b[28] && val[26] == b[29] && val[27] == b[30]);
}

} // verus!
