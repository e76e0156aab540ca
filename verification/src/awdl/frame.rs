//! AWDL and IEEE 802.11 wire format: constants, TLV types, and the fixed
//! headers with their byte layout.

use vstd::prelude::*;
use crate::awdl::wire::{self, le16_bytes, le32_bytes, be16_bytes, splice, fits};

verus! {

pub const ETH_P_IP: u16 = 0x0800;
pub const ETH_P_IPV6: u16 = 0x86DD;
pub const OUI_LEN: usize = 3;
pub const FCS_LEN: usize = 4;

pub const IEEE80211_FCTL_FTYPE: u16 = 0x000c;
pub const IEEE80211_FCTL_STYPE: u16 = 0x00f0;
pub const IEEE80211_FTYPE_MGMT: u16 = 0x0000;
pub const IEEE80211_FTYPE_DATA: u16 = 0x0008;
pub const IEEE80211_STYPE_ACTION: u16 = 0x00D0;
pub const IEEE80211_STYPE_DATA: u16 = 0x0000;
pub const IEEE80211_STYPE_QOS_DATA: u16 = 0x0080;
pub const IEEE80211_QOS_CTL_LEN: usize = 2;
pub const IEEE80211_QOS_CTL_A_MSDU_PRESENT: u16 = 0x0080;
pub const IEEE80211_QOS_CTL_ACK_POLICY_NOACK: u16 = 0x0020;
pub const IEEE80211_MAX_DATA_LEN: usize = 2304;
pub const IEEE80211_MAX_FRAME_LEN: usize = 2352;
pub const ETHER_ADDR_LEN: usize = 6;
pub const ETHER_MAX_LEN: usize = 1518;

pub const AWDL_LLC_PROTOCOL_ID: u16 = 0x0800;
/// AWDL OUI: 00:17:f2.
pub const AWDL_OUI: [u8; 3] = [0x00, 0x17, 0xf2];
/// AWDL BSSID: 00:25:00:ff:94:73.
pub const AWDL_BSSID: [u8; 6] = [0x00, 0x25, 0x00, 0xff, 0x94, 0x73];
/// Vendor-specific action category.
pub const IEEE80211_VENDOR_SPECIFIC: u8 = 127;
/// Version 1.0, the version every action frame carries.
pub const AWDL_VERSION_COMPAT: u8 = 0x10;
pub const AWDL_TYPE: u8 = 8;
/// DNS compression pointer standing for ".local".
pub const AWDL_DNS_SHORT_LOCAL: u16 = 0xc00c;
pub const AWDL_DATA_HEAD: u16 = 0x0403;
pub const AWDL_DATA_PAD: u16 = 0x0000;
pub const AWDL_SOCIAL_CHANNEL_6_BIT: u16 = 0x0001;
pub const AWDL_SOCIAL_CHANNEL_44_BIT: u16 = 0x0002;
pub const AWDL_SOCIAL_CHANNEL_149_BIT: u16 = 0x0004;

pub const AWDL_SSTH_REQUEST_TLV: u8 = 0;
pub const AWDL_SERVICE_REQUEST_TLV: u8 = 1;
pub const AWDL_SERVICE_RESPONSE_TLV: u8 = 2;
pub const AWDL_SYNCHRONIZATON_PARAMETERS_TLV: u8 = 4;
pub const AWDL_ELECTION_PARAMETERS_TLV: u8 = 5;
pub const AWDL_SERVICE_PARAMETERS_TLV: u8 = 6;
pub const AWDL_ENHANCED_DATA_RATE_CAPABILITIES_TLV: u8 = 7;
pub const AWDL_ENHANCED_DATA_RATE_OPERATION_TLV: u8 = 8;
pub const AWDL_INFRA_TLV: u8 = 9;
pub const AWDL_INVITE_TLV: u8 = 10;
pub const AWDL_DBG_STRING_TLV: u8 = 11;
pub const AWDL_DATA_PATH_STATE_TLV: u8 = 12;
pub const AWDL_ENCAPSULATED_IP_TLV: u8 = 13;
pub const AWDL_DATAPATH_DEBUG_PACKET_LIVE_TLV: u8 = 14;
pub const AWDL_DATAPATH_DEBUG_AF_LIVE_TLV: u8 = 15;
pub const AWDL_ARPA_TLV: u8 = 16;
pub const AWDL_IEEE80211_CNTNR_TLV: u8 = 17;
pub const AWDL_CHAN_SEQ_TLV: u8 = 18;
pub const AWDL_SYNCTREE_TLV: u8 = 20;
pub const AWDL_VERSION_TLV: u8 = 21;
pub const AWDL_BLOOM_FILTER_TLV: u8 = 22;
pub const AWDL_NAN_SYNC_TLV: u8 = 23;
pub const AWDL_ELECTION_PARAMETERS_V2_TLV: u8 = 24;

pub const AWDL_DATA_PATH_FLAG_COUNTRY_CODE: u16 = 0x0100;
pub const AWDL_DATA_PATH_FLAG_SOCIAL_CHANNEL_MAP: u16 = 0x0200;
pub const AWDL_DATA_PATH_FLAG_INFRA_INFO: u16 = 0x0001;
pub const AWDL_DATA_PATH_FLAG_INFRA_ADDRESS: u16 = 0x0002;
pub const AWDL_DATA_PATH_FLAG_AWDL_ADDRESS: u16 = 0x0004;
pub const AWDL_DATA_PATH_FLAG_UMI: u16 = 0x0010;

/// Subtypes of AWDL action frames.
#[derive(Debug, Clone, Copy, PartialEq, Eq, Structural)]
pub enum AwdlActionType {
    /// Periodic synchronization frame.
    PSF,
    /// Master indication frame.
    MIF,
}

/// Wire value of a subtype: PSF 0, MIF 3.
pub open spec fn spec_action_type_value(t: AwdlActionType) -> u8 {
    match t {
        AwdlActionType::PSF => 0,
        AwdlActionType::MIF => 3,
    }
}

/// Wire value of a subtype: PSF 0, MIF 3.
pub fn action_type_value(t: AwdlActionType) -> (v: u8)
    ensures
        v == spec_action_type_value(t),
{
    match t {
        AwdlActionType::PSF => 0,
        AwdlActionType::MIF => 3,
    }
}

/// Name of an action frame subtype.
pub fn awdl_frame_as_str(t: u8) -> (s: &'static str)
    ensures
        s@ == (if t == 0 {
            "PSF"@
        } else if t == 3 {
            "MIF"@
        } else {
            "Unknown"@
        }),
{
    match t {
        0 => "PSF",
        3 => "MIF",
        _ => "Unknown",
    }
}

/// Name of a TLV type.
pub open spec fn spec_tlv_name(t: u8) -> Seq<char> {
    if t == 0 {
        "SSTH Request"@
    } else if t == 1 {
        "Service Request"@
    } else if t == 2 {
        "Service Response"@
    } else if t == 4 {
        "Synchronization Parameters"@
    } else if t == 5 {
        "Election Parameters"@
    } else if t == 6 {
        "Service Parameters"@
    } else if t == 7 {
        "HT Capabilities"@
    } else if t == 8 {
        "HT Operation"@
    } else if t == 9 {
        "Infra"@
    } else if t == 10 {
        "Invite"@
    } else if t == 11 {
        "Debug String"@
    } else if t == 12 {
        "Data Path State"@
    } else if t == 13 {
        "Encapsulated IP"@
    } else if t == 14 {
        "Datapath Debug Packet Live"@
    } else if t == 15 {
        "Datapath Debug AF Live"@
    } else if t == 16 {
        "Arpa"@
    } else if t == 17 {
        "VHT Capabilities"@
    } else if t == 18 {
        "Channel Sequence"@
    } else if t == 20 {
        "Synchronization Tree"@
    } else if t == 21 {
        "Version"@
    } else if t == 22 {
        "Bloom Filter"@
    } else if t == 23 {
        "NAN Sync"@
    } else if t == 24 {
        "Election Parameters v2"@
    } else {
        "Unknown"@
    }
}

/// Name of a TLV type.
pub fn awdl_tlv_as_str(t: u8) -> (s: &'static str)
    ensures
        s@ == spec_tlv_name(t),
{
    match t {
        0 => "SSTH Request",
        1 => "Service Request",
        2 => "Service Response",
        4 => "Synchronization Parameters",
        5 => "Election Parameters",
        6 => "Service Parameters",
        7 => "HT Capabilities",
        8 => "HT Operation",
        9 => "Infra",
        10 => "Invite",
        11 => "Debug String",
        12 => "Data Path State",
        13 => "Encapsulated IP",
        14 => "Datapath Debug Packet Live",
        15 => "Datapath Debug AF Live",
        16 => "Arpa",
        17 => "VHT Capabilities",
        18 => "Channel Sequence",
        20 => "Synchronization Tree",
        21 => "Version",
        22 => "Bloom Filter",
        23 => "NAN Sync",
        24 => "Election Parameters v2",
        _ => "Unknown",
    }
}

// ---------------------------------------------------------------------------
// Byte-building helpers
// ---------------------------------------------------------------------------

/// Append a little-endian `u16`.
pub fn push_le16(v: &mut Vec<u8>, x: u16)
    ensures
        final(v)@ == old(v)@ + le16_bytes(x),
{
    v.push((x % 256) as u8);
    v.push((x / 256) as u8);
    assert(v@ =~= old(v)@ + le16_bytes(x));
}

/// Append a big-endian `u16`.
pub fn push_be16(v: &mut Vec<u8>, x: u16)
    ensures
        final(v)@ == old(v)@ + be16_bytes(x),
{
    v.push((x / 256) as u8);
    v.push((x % 256) as u8);
    assert(v@ =~= old(v)@ + be16_bytes(x));
}

/// Append a little-endian `u32`.
pub fn push_le32(v: &mut Vec<u8>, x: u32)
    ensures
        final(v)@ == old(v)@ + le32_bytes(x),
{
    v.push((x % 256) as u8);
    v.push(((x / 256) % 256) as u8);
    v.push(((x / 65536) % 256) as u8);
    v.push((x / 16777216) as u8);
    assert(v@ =~= old(v)@ + le32_bytes(x));
}

/// Append the bytes of `s`.
pub fn push_bytes(v: &mut Vec<u8>, s: &[u8])
    ensures
        final(v)@ == old(v)@ + s@,
{
    let mut i: usize = 0;
    while i < s.len()
        invariant
            i <= s@.len(),
            v@ == old(v)@ + s@.subrange(0, i as int),
        decreases s@.len() - i,
    {
        v.push(s[i]);
        i += 1;
        assert(v@ =~= old(v)@ + s@.subrange(0, i as int));
    }
    assert(s@.subrange(0, s@.len() as int) =~= s@);
}

/// Write the bytes `v` at `offset` of `buf`; false (and `buf` unchanged) when
/// they do not fit.
pub fn write_vec(buf: &mut [u8], offset: usize, v: &Vec<u8>) -> (ok: bool)
    ensures
        ok == fits(offset as int, v@.len() as int, old(buf)@.len() as int),
        ok ==> final(buf)@ == splice(old(buf)@, offset as int, v@),
        !ok ==> final(buf)@ == old(buf)@,
{
    wire::write_bytes(buf, offset, v.as_slice()).is_ok()
}

/// Types with a fixed size on the wire.
pub trait PackedSize: Sized {
    /// The wire bytes of a value.
    spec fn wire_bytes(self) -> Seq<u8>;

    /// Bytes the type occupies on the wire: the length of the wire bytes of
    /// every value.
    fn packed_size() -> (n: usize)
        ensures
            forall|v: Self| #[trigger] v.wire_bytes().len() == n,
    ;
}

/// Bytes a wire type occupies.
pub fn packed_size_of<T: PackedSize>() -> (n: usize)
    ensures
        forall|v: T| #[trigger] v.wire_bytes().len() == n,
{
    T::packed_size()
}

// ---------------------------------------------------------------------------
// Fixed headers
// ---------------------------------------------------------------------------

/// IEEE 802.11 three-address header (24 bytes).
#[derive(Debug, Clone, Copy)]
pub struct Ieee80211Hdr {
    pub frame_control: u16,
    pub duration_id: u16,
    pub addr1: [u8; 6],
    pub addr2: [u8; 6],
    pub addr3: [u8; 6],
    pub seq_ctrl: u16,
}

impl Ieee80211Hdr {
    /// Wire bytes: 16-bit fields little-endian.
    pub open spec fn spec_bytes(&self) -> Seq<u8> {
        le16_bytes(self.frame_control) + le16_bytes(self.duration_id) + self.addr1@ + self.addr2@
            + self.addr3@ + le16_bytes(self.seq_ctrl)
    }

    /// Wire bytes of the header.
    pub fn to_bytes(&self) -> (v: Vec<u8>)
        ensures
            v@ == self.spec_bytes(),
    {
        let mut v: Vec<u8> = Vec::new();
        push_le16(&mut v, self.frame_control);
        push_le16(&mut v, self.duration_id);
        push_bytes(&mut v, self.addr1.as_slice());
        push_bytes(&mut v, self.addr2.as_slice());
        push_bytes(&mut v, self.addr3.as_slice());
        push_le16(&mut v, self.seq_ctrl);
        v
    }
}

impl PackedSize for Ieee80211Hdr {
    open spec fn wire_bytes(self) -> Seq<u8> {
        self.spec_bytes()
    }

    fn packed_size() -> (n: usize) {
        24
    }
}

/// LLC/SNAP header (8 bytes).
#[derive(Debug, Clone, Copy)]
pub struct LlcHdr {
    pub dsap: u8,
    pub ssap: u8,
    pub control: u8,
    pub oui: [u8; 3],
    pub pid: u16,
}

impl LlcHdr {
    /// Wire bytes: the protocol id big-endian.
    pub open spec fn spec_bytes(&self) -> Seq<u8> {
        seq![self.dsap, self.ssap, self.control] + self.oui@ + be16_bytes(self.pid)
    }

    /// Wire bytes of the header.
    pub fn to_bytes(&self) -> (v: Vec<u8>)
        ensures
            v@ == self.spec_bytes(),
    {
        let mut v: Vec<u8> = Vec::new();
        v.push(self.dsap);
        v.push(self.ssap);
        v.push(self.control);
        push_bytes(&mut v, self.oui.as_slice());
        push_be16(&mut v, self.pid);
        assert(v@ =~= self.spec_bytes());
        v
    }
}

impl PackedSize for LlcHdr {
    open spec fn wire_bytes(self) -> Seq<u8> {
        self.spec_bytes()
    }

    fn packed_size() -> (n: usize) {
        8
    }
}

/// AWDL action frame header (16 bytes).
#[derive(Debug, Clone, Copy)]
pub struct AwdlAction {
    pub category: u8,
    pub oui: [u8; 3],
    pub type_: u8,
    pub version: u8,
    pub subtype: u8,
    pub reserved: u8,
    pub phy_tx: u32,
    pub target_tx: u32,
}

impl AwdlAction {
    /// Wire bytes: the timestamps little-endian.
    pub open spec fn spec_bytes(&self) -> Seq<u8> {
        seq![self.category] + self.oui@ + seq![self.type_, self.version, self.subtype, self.reserved]
            + le32_bytes(self.phy_tx) + le32_bytes(self.target_tx)
    }

    /// Wire bytes of the header.
    pub fn to_bytes(&self) -> (v: Vec<u8>)
        ensures
            v@ == self.spec_bytes(),
    {
        let mut v: Vec<u8> = Vec::new();
        v.push(self.category);
        push_bytes(&mut v, self.oui.as_slice());
        v.push(self.type_);
        v.push(self.version);
        v.push(self.subtype);
        v.push(self.reserved);
        push_le32(&mut v, self.phy_tx);
        push_le32(&mut v, self.target_tx);
        assert(v@ =~= self.spec_bytes());
        v
    }
}

impl PackedSize for AwdlAction {
    open spec fn wire_bytes(self) -> Seq<u8> {
        self.spec_bytes()
    }

    fn packed_size() -> (n: usize) {
        16
    }
}

/// TLV header: type and little-endian length (3 bytes).
#[derive(Debug, Clone, Copy)]
pub struct Tl {
    pub type_: u8,
    pub length: u16,
}

impl Tl {
    /// Wire bytes: type, then the length little-endian.
    pub open spec fn spec_bytes(&self) -> Seq<u8> {
        seq![self.type_] + le16_bytes(self.length)
    }
}

impl PackedSize for Tl {
    open spec fn wire_bytes(self) -> Seq<u8> {
        self.spec_bytes()
    }

    fn packed_size() -> (n: usize) {
        3
    }
}

/// AWDL data frame header (8 bytes).
#[derive(Debug, Clone, Copy)]
pub struct AwdlData {
    pub head: u16,
    pub seq: u16,
    pub pad: u16,
    pub ethertype: u16,
}

impl AwdlData {
    /// Wire bytes: head, sequence and pad little-endian, the ether type big-endian.
    pub open spec fn spec_bytes(&self) -> Seq<u8> {
        le16_bytes(self.head) + le16_bytes(self.seq) + le16_bytes(self.pad) + be16_bytes(
            self.ethertype,
        )
    }

    /// Wire bytes of the header.
    pub fn to_bytes(&self) -> (v: Vec<u8>)
        ensures
            v@ == self.spec_bytes(),
    {
        let mut v: Vec<u8> = Vec::new();
        push_le16(&mut v, self.head);
        push_le16(&mut v, self.seq);
        push_le16(&mut v, self.pad);
        push_be16(&mut v, self.ethertype);
        v
    }
}

impl PackedSize for AwdlData {
    open spec fn wire_bytes(self) -> Seq<u8> {
        self.spec_bytes()
    }

    fn packed_size() -> (n: usize) {
        8
    }
}

/// Channel sequence descriptor (6 bytes; the channel values follow).
#[derive(Debug, Clone, Copy)]
pub struct AwdlChanseq {
    pub count: u8,
    pub encoding: u8,
    pub duplicate_count: u8,
    pub step_count: u8,
    pub fill_channel: u16,
}

impl AwdlChanseq {
    /// Wire bytes: the fill channel little-endian.
    pub open spec fn spec_bytes(&self) -> Seq<u8> {
        seq![self.count, self.encoding, self.duplicate_count, self.step_count] + le16_bytes(
            self.fill_channel,
        )
    }

    /// Wire bytes of the descriptor.
    pub fn to_bytes(&self) -> (v: Vec<u8>)
        ensures
            v@ == self.spec_bytes(),
    {
        let mut v: Vec<u8> = Vec::new();
        v.push(self.count);
        v.push(self.encoding);
        v.push(self.duplicate_count);
        v.push(self.step_count);
        push_le16(&mut v, self.fill_channel);
        assert(v@ =~= self.spec_bytes());
        v
    }
}

impl PackedSize for AwdlChanseq {
    open spec fn wire_bytes(self) -> Seq<u8> {
        self.spec_bytes()
    }

    fn packed_size() -> (n: usize) {
        6
    }
}

/// Synchronization parameters TLV, fixed part (36 bytes).
#[derive(Debug, Clone, Copy)]
pub struct AwdlSyncParamsTlv {
    pub type_: u8,
    pub length: u16,
    pub next_aw_channel: u8,
    pub tx_down_counter: u16,
    pub master_channel: u8,
    pub guard_time: u8,
    pub aw_period: u16,
    pub af_period: u16,
    pub flags: u16,
    pub aw_ext_length: u16,
    pub aw_com_length: u16,
    pub remaining_aw_length: u16,
    pub min_ext: u8,
    pub max_ext_multicast: u8,
    pub max_ext_unicast: u8,
    pub max_ext_af: u8,
    pub master_addr: [u8; 6],
    pub presence_mode: u8,
    pub reserved: u8,
    pub next_aw_seq: u16,
    pub ap_alignment: u16,
}

impl AwdlSyncParamsTlv {
    /// Wire bytes: 16-bit fields little-endian.
    pub open spec fn spec_bytes(&self) -> Seq<u8> {
        seq![self.type_] + le16_bytes(self.length) + seq![self.next_aw_channel] + le16_bytes(
            self.tx_down_counter,
        ) + seq![self.master_channel, self.guard_time] + le16_bytes(self.aw_period) + le16_bytes(
            self.af_period,
        ) + le16_bytes(self.flags) + le16_bytes(self.aw_ext_length) + le16_bytes(
            self.aw_com_length,
        ) + le16_bytes(self.remaining_aw_length) + seq![
            self.min_ext,
            self.max_ext_multicast,
            self.max_ext_unicast,
            self.max_ext_af,
        ] + self.master_addr@ + seq![self.presence_mode, self.reserved] + le16_bytes(
            self.next_aw_seq,
        ) + le16_bytes(self.ap_alignment)
    }

    /// Wire bytes of the fixed part.
    pub fn to_bytes(&self) -> (v: Vec<u8>)
        ensures
            v@ == self.spec_bytes(),
    {
        let mut v: Vec<u8> = Vec::new();
        v.push(self.type_);
        push_le16(&mut v, self.length);
        v.push(self.next_aw_channel);
        push_le16(&mut v, self.tx_down_counter);
        v.push(self.master_channel);
        v.push(self.guard_time);
        push_le16(&mut v, self.aw_period);
        push_le16(&mut v, self.af_period);
        push_le16(&mut v, self.flags);
        push_le16(&mut v, self.aw_ext_length);
        push_le16(&mut v, self.aw_com_length);
        push_le16(&mut v, self.remaining_aw_length);
        v.push(self.min_ext);
        v.push(self.max_ext_multicast);
        v.push(self.max_ext_unicast);
        v.push(self.max_ext_af);
        push_bytes(&mut v, self.master_addr.as_slice());
        v.push(self.presence_mode);
        v.push(self.reserved);
        push_le16(&mut v, self.next_aw_seq);
        push_le16(&mut v, self.ap_alignment);
        assert(v@ =~= self.spec_bytes());
        v
    }
}

impl PackedSize for AwdlSyncParamsTlv {
    open spec fn wire_bytes(self) -> Seq<u8> {
        self.spec_bytes()
    }

    fn packed_size() -> (n: usize) {
        36
    }
}

/// Channel sequence TLV header (the sequence follows).
#[derive(Debug, Clone, Copy)]
pub struct AwdlChanseqTlv {
    pub type_: u8,
    pub length: u16,
}

impl AwdlChanseqTlv {
    /// Wire bytes: type, then the length little-endian.
    pub open spec fn spec_bytes(&self) -> Seq<u8> {
        seq![self.type_] + le16_bytes(self.length)
    }
}

impl PackedSize for AwdlChanseqTlv {
    open spec fn wire_bytes(self) -> Seq<u8> {
        self.spec_bytes()
    }

    fn packed_size() -> (n: usize) {
        3
    }
}

/// Election parameters TLV (24 bytes).
#[derive(Debug, Clone, Copy)]
pub struct AwdlElectionParamsTlv {
    pub type_: u8,
    pub length: u16,
    pub flags: u8,
    pub id: u16,
    pub distancetop: u8,
    pub unknown: u8,
    pub top_master_addr: [u8; 6],
    pub top_master_metric: u32,
    pub self_metric: u32,
    pub pad: [u8; 2],
}

impl AwdlElectionParamsTlv {
    /// Wire bytes: multi-byte fields little-endian.
    pub open spec fn spec_bytes(&self) -> Seq<u8> {
        seq![self.type_] + le16_bytes(self.length) + seq![self.flags] + le16_bytes(self.id) + seq![
            self.distancetop,
            self.unknown,
        ] + self.top_master_addr@ + le32_bytes(self.top_master_metric) + le32_bytes(
            self.self_metric,
        ) + self.pad@
    }

    /// Wire bytes of the TLV.
    pub fn to_bytes(&self) -> (v: Vec<u8>)
        ensures
            v@ == self.spec_bytes(),
    {
        let mut v: Vec<u8> = Vec::new();
        v.push(self.type_);
        push_le16(&mut v, self.length);
        v.push(self.flags);
        push_le16(&mut v, self.id);
        v.push(self.distancetop);
        v.push(self.unknown);
        push_bytes(&mut v, self.top_master_addr.as_slice());
        push_le32(&mut v, self.top_master_metric);
        push_le32(&mut v, self.self_metric);
        push_bytes(&mut v, self.pad.as_slice());
        assert(v@ =~= self.spec_bytes());
        v
    }
}

impl PackedSize for AwdlElectionParamsTlv {
    open spec fn wire_bytes(self) -> Seq<u8> {
        self.spec_bytes()
    }

    fn packed_size() -> (n: usize) {
        24
    }
}

/// Election parameters v2 TLV (39 bytes).
#[derive(Debug, Clone, Copy)]
pub struct AwdlElectionParamsV2Tlv {
    pub type_: u8,
    pub length: u16,
    pub master_addr: [u8; 6],
    pub sync_addr: [u8; 6],
    pub master_counter: u32,
    pub distance_to_master: u32,
    pub master_metric: u32,
    pub self_metric: u32,
    pub unknown: u32,
    pub self_counter: u32,
}

impl AwdlElectionParamsV2Tlv {
    /// Wire bytes: multi-byte fields little-endian.
    pub open spec fn spec_bytes(&self) -> Seq<u8> {
        seq![self.type_] + le16_bytes(self.length) + self.master_addr@ + self.sync_addr@
            + le32_bytes(self.master_counter) + le32_bytes(self.distance_to_master) + le32_bytes(
            self.master_metric,
        ) + le32_bytes(self.self_metric) + le32_bytes(self.unknown) + le32_bytes(self.self_counter)
    }

    /// Wire bytes of the TLV.
    pub fn to_bytes(&self) -> (v: Vec<u8>)
        ensures
            v@ == self.spec_bytes(),
    {
        let mut v: Vec<u8> = Vec::new();
        v.push(self.type_);
        push_le16(&mut v, self.length);
        push_bytes(&mut v, self.master_addr.as_slice());
        push_bytes(&mut v, self.sync_addr.as_slice());
        push_le32(&mut v, self.master_counter);
        push_le32(&mut v, self.distance_to_master);
        push_le32(&mut v, self.master_metric);
        push_le32(&mut v, self.self_metric);
        push_le32(&mut v, self.unknown);
        push_le32(&mut v, self.self_counter);
        assert(v@ =~= self.spec_bytes());
        v
    }
}

impl PackedSize for AwdlElectionParamsV2Tlv {
    open spec fn wire_bytes(self) -> Seq<u8> {
        self.spec_bytes()
    }

    fn packed_size() -> (n: usize) {
        39
    }
}

/// Service parameters TLV (12 bytes).
#[derive(Debug, Clone, Copy)]
pub struct AwdlServiceParamsTlv {
    pub type_: u8,
    pub length: u16,
    pub unknown: [u8; 3],
    pub sui: u16,
    pub bitmask: u32,
}

impl AwdlServiceParamsTlv {
    /// Wire bytes: multi-byte fields little-endian.
    pub open spec fn spec_bytes(&self) -> Seq<u8> {
        seq![self.type_] + le16_bytes(self.length) + self.unknown@ + le16_bytes(self.sui)
            + le32_bytes(self.bitmask)
    }

    /// Wire bytes of the TLV.
    pub fn to_bytes(&self) -> (v: Vec<u8>)
        ensures
            v@ == self.spec_bytes(),
    {
        let mut v: Vec<u8> = Vec::new();
        v.push(self.type_);
        push_le16(&mut v, self.length);
        push_bytes(&mut v, self.unknown.as_slice());
        push_le16(&mut v, self.sui);
        push_le32(&mut v, self.bitmask);
        assert(v@ =~= self.spec_bytes());
        v
    }
}

impl PackedSize for AwdlServiceParamsTlv {
    open spec fn wire_bytes(self) -> Seq<u8> {
        self.spec_bytes()
    }

    fn packed_size() -> (n: usize) {
        12
    }
}

/// HT capabilities TLV (11 bytes).
#[derive(Debug, Clone, Copy)]
pub struct AwdlHtCapabilitiesTlv {
    pub type_: u8,
    pub length: u16,
    pub unknown: u16,
    pub ht_capabilities: u16,
    pub ampdu_params: u8,
    pub rx_mcs: u8,
    pub unknown2: u16,
}

impl AwdlHtCapabilitiesTlv {
    /// Wire bytes: 16-bit fields little-endian.
    pub open spec fn spec_bytes(&self) -> Seq<u8> {
        seq![self.type_] + le16_bytes(self.length) + le16_bytes(self.unknown) + le16_bytes(
            self.ht_capabilities,
        ) + seq![self.ampdu_params, self.rx_mcs] + le16_bytes(self.unknown2)
    }

    /// Wire bytes of the TLV.
    pub fn to_bytes(&self) -> (v: Vec<u8>)
        ensures
            v@ == self.spec_bytes(),
    {
        let mut v: Vec<u8> = Vec::new();
        v.push(self.type_);
        push_le16(&mut v, self.length);
        push_le16(&mut v, self.unknown);
        push_le16(&mut v, self.ht_capabilities);
        v.push(self.ampdu_params);
        v.push(self.rx_mcs);
        push_le16(&mut v, self.unknown2);
        assert(v@ =~= self.spec_bytes());
        v
    }
}

impl PackedSize for AwdlHtCapabilitiesTlv {
    open spec fn wire_bytes(self) -> Seq<u8> {
        self.spec_bytes()
    }

    fn packed_size() -> (n: usize) {
        11
    }
}

/// Data path state TLV (18 bytes).
#[derive(Debug, Clone, Copy)]
pub struct AwdlDataPathStateTlv {
    pub type_: u8,
    pub length: u16,
    pub flags: u16,
    pub country_code: [u8; 3],
    pub social_channels: u16,
    pub awdl_addr: [u8; 6],
    pub ext_flags: u16,
}

impl AwdlDataPathStateTlv {
    /// Wire bytes: 16-bit fields little-endian.
    pub open spec fn spec_bytes(&self) -> Seq<u8> {
        seq![self.type_] + le16_bytes(self.length) + le16_bytes(self.flags) + self.country_code@
            + le16_bytes(self.social_channels) + self.awdl_addr@ + le16_bytes(self.ext_flags)
    }

    /// Wire bytes of the TLV.
    pub fn to_bytes(&self) -> (v: Vec<u8>)
        ensures
            v@ == self.spec_bytes(),
    {
        let mut v: Vec<u8> = Vec::new();
        v.push(self.type_);
        push_le16(&mut v, self.length);
        push_le16(&mut v, self.flags);
        push_bytes(&mut v, self.country_code.as_slice());
        push_le16(&mut v, self.social_channels);
        push_bytes(&mut v, self.awdl_addr.as_slice());
        push_le16(&mut v, self.ext_flags);
        assert(v@ =~= self.spec_bytes());
        v
    }
}

impl PackedSize for AwdlDataPathStateTlv {
    open spec fn wire_bytes(self) -> Seq<u8> {
        self.spec_bytes()
    }

    fn packed_size() -> (n: usize) {
        18
    }
}

/// ARPA TLV header (5 bytes; the name follows).
#[derive(Debug, Clone, Copy)]
pub struct AwdlArpaTlv {
    pub type_: u8,
    pub length: u16,
    pub flags: u8,
    pub name_length: u8,
}

impl AwdlArpaTlv {
    /// Wire bytes: the length little-endian.
    pub open spec fn spec_bytes(&self) -> Seq<u8> {
        seq![self.type_] + le16_bytes(self.length) + seq![self.flags, self.name_length]
    }

    /// Wire bytes of the header.
    pub fn to_bytes(&self) -> (v: Vec<u8>)
        ensures
            v@ == self.spec_bytes(),
    {
        let mut v: Vec<u8> = Vec::new();
        v.push(self.type_);
        push_le16(&mut v, self.length);
        v.push(self.flags);
        v.push(self.name_length);
        assert(v@ =~= self.spec_bytes());
        v
    }
}

impl PackedSize for AwdlArpaTlv {
    open spec fn wire_bytes(self) -> Seq<u8> {
        self.spec_bytes()
    }

    fn packed_size() -> (n: usize) {
        5
    }
}

/// Version TLV (5 bytes).
#[derive(Debug, Clone, Copy)]
pub struct AwdlVersionTlv {
    pub type_: u8,
    pub length: u16,
    pub version: u8,
    pub devclass: u8,
}

impl AwdlVersionTlv {
    /// Wire bytes: the length little-endian.
    pub open spec fn spec_bytes(&self) -> Seq<u8> {
        seq![self.type_] + le16_bytes(self.length) + seq![self.version, self.devclass]
    }

    /// Wire bytes of the TLV.
    pub fn to_bytes(&self) -> (v: Vec<u8>)
        ensures
            v@ == self.spec_bytes(),
    {
        let mut v: Vec<u8> = Vec::new();
        v.push(self.type_);
        push_le16(&mut v, self.length);
        v.push(self.version);
        v.push(self.devclass);
        assert(v@ =~= self.spec_bytes());
        v
    }
}

impl PackedSize for AwdlVersionTlv {
    open spec fn wire_bytes(self) -> Seq<u8> {
        self.spec_bytes()
    }

    fn packed_size() -> (n: usize) {
        5
    }
}

/// Write a TLV header (type, little-endian value length) at `offset`; returns
/// the TLV's total length, header included.
pub fn write_tlv_header(buf: &mut [u8], offset: usize, tlv_type: u8, len: u16) -> (total: usize)
    requires
        fits(offset as int, 3, old(buf)@.len() as int),
    ensures
        total == 3 + len,
        final(buf)@ == splice(old(buf)@, offset as int, seq![tlv_type] + le16_bytes(len)),
{
    buf[offset] = tlv_type;
    let ghost mid = buf@;
    let r = wire::write_le16(buf, offset + 1, len);
    assert(buf@ =~= splice(old(buf)@, offset as int, seq![tlv_type] + le16_bytes(len)));
    3 + len as usize
}

} // verus!
