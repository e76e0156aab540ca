//! Netlink messages of the daemon: generic netlink family lookup, nl80211
//! monitor mode and channel requests, neighbor entries for the RFC 4291
//! link-local address; and reading the kernel's replies. Netlink fields are
//! in host byte order; messages are built and read little-endian, the byte
//! order of the hosts the daemon runs on.

use vstd::prelude::*;
use vstd::string::StrSliceExecFns;
use crate::awdl::channel::{spec_channel_to_frequency, ieee80211_channel_to_frequency};
use crate::awdl::frame::{push_bytes, push_le16, push_le32};
use crate::awdl::wire::{self, le16_bytes, le32_bytes, le16_value, le32_value};

verus! {

/// Name of the virtual AWDL interface.
pub const AWDL_DEFAULT_DEVICE: &'static str = "awdl0";

/// MTU of the virtual AWDL interface.
pub const TUN_MTU: i32 = 1450;

/// The RFC 4291 (modified EUI-64) link-local IPv6 address of MAC `eth`:
/// fe80::/64 with the MAC split by ff:fe and its universal/local bit flipped.
pub fn rfc4291_addr(eth: &[u8; 6]) -> (in6: [u8; 16])
    ensures
        in6@ == seq![0xfeu8, 0x80u8, 0u8, 0u8, 0u8, 0u8, 0u8, 0u8, eth@[0] ^ 0x02u8, eth@[1], eth@[2], 0xffu8, 0xfeu8, eth@[3], eth@[4], eth@[5]],
{
    let mut in6 = [0u8; 16];
    in6[0] = 0xfe;
    in6[1] = 0x80;
    in6[8] = eth[0] ^ 0x02;
    in6[9] = eth[1];
    in6[10] = eth[2];
    in6[11] = 0xff;
    in6[12] = 0xfe;
    in6[13] = eth[3];
    in6[14] = eth[4];
    in6[15] = eth[5];
    assert(in6@ =~= seq![0xfeu8, 0x80u8, 0u8, 0u8, 0u8, 0u8, 0u8, 0u8, eth@[0] ^ 0x02u8, eth@[1], eth@[2], 0xffu8, 0xfeu8, eth@[3], eth@[4], eth@[5]]);
    in6
}

/// Netlink messages are aligned to 4 bytes.
pub const NLMSG_ALIGNTO: usize = 4;

/// `len` rounded up to the netlink alignment.
pub fn nlmsg_align(len: usize) -> (r: usize)
    requires
        len + 3 <= usize::MAX,
    ensures
        r % 4 == 0,
        len <= r < len + 4,
{
    let t = len + (NLMSG_ALIGNTO - 1);
    let r = t & !(NLMSG_ALIGNTO - 1);
    assert(r % 4 == 0 && len <= r && r < len + 4) by (bit_vector)
        requires
            t == len + 3,
            r == t & !3usize,
    ;
    r
}

/// Size of a netlink message header.
pub const NLMSGHDR_SIZE: usize = 16;

/// Size of a generic netlink header.
pub const GENLMSGHDR_SIZE: usize = 4;

/// Message type of an error or acknowledgement.
pub const NLMSG_ERROR: u16 = 2;

/// Message type ending a multipart reply.
pub const NLMSG_DONE: u16 = 3;

/// Generic netlink controller family.
pub const GENL_ID_CTRL: u16 = 0x10;

/// Request flag.
pub const NLM_F_REQUEST: u16 = 0x01;

/// Acknowledgement request flag.
pub const NLM_F_ACK: u16 = 0x04;

/// Create flag.
pub const NLM_F_CREATE: u16 = 0x0400;

/// A netlink message header.
pub open spec fn nlmsghdr_bytes(len: u32, msg_type: u16, flags: u16, seq: u32) -> Seq<u8> {
    le32_bytes(len) + le16_bytes(msg_type) + le16_bytes(flags) + le32_bytes(seq) + le32_bytes(0)
}

/// A generic netlink header for command `cmd`, version 1.
pub open spec fn genlmsghdr_bytes(cmd: u8) -> Seq<u8> {
    seq![cmd, 1u8, 0u8, 0u8]
}

/// A netlink attribute: length (header included), type, payload; no padding.
pub open spec fn nla_bytes(nla_type: u16, payload: Seq<u8>) -> Seq<u8> {
    le16_bytes((4 + payload.len()) as u16) + le16_bytes(nla_type) + payload
}

fn push_nlmsghdr(v: &mut Vec<u8>, len: u32, msg_type: u16, flags: u16, seq: u32)
    ensures
        final(v)@ == old(v)@ + nlmsghdr_bytes(len, msg_type, flags, seq),
{
    push_le32(v, len);
    push_le16(v, msg_type);
    push_le16(v, flags);
    push_le32(v, seq);
    push_le32(v, 0);
    assert(final(v)@ =~= old(v)@ + nlmsghdr_bytes(len, msg_type, flags, seq));
}

fn push_nla(v: &mut Vec<u8>, nla_type: u16, payload: &[u8])
    requires
        payload@.len() + 4 <= u16::MAX,
    ensures
        final(v)@ == old(v)@ + nla_bytes(nla_type, payload@),
{
    push_le16(v, (4 + payload.len()) as u16);
    push_le16(v, nla_type);
    push_bytes(v, payload);
    assert(final(v)@ =~= old(v)@ + nla_bytes(nla_type, payload@));
}

fn u32_payload(x: u32) -> (v: Vec<u8>)
    ensures
        v@ == le32_bytes(x),
{
    let mut v: Vec<u8> = Vec::new();
    push_le32(&mut v, x);
    v
}

/// Controller command: look a family up.
pub const CTRL_CMD_GETFAMILY: u8 = 3;

/// Controller attribute: family id.
pub const CTRL_ATTR_FAMILY_ID: u16 = 1;

/// Controller attribute: family name.
pub const CTRL_ATTR_FAMILY_NAME: u16 = 2;

/// Size of the buffer requests are built in.
pub const NL_MSG_BUF: usize = 4096;

/// The request looking up generic netlink family `name` (UTF-8, without a
/// terminating zero): the name attribute carries the name as a C string,
/// its terminating zero included, and is left out when it would not fit
/// the request buffer.
pub open spec fn spec_getfamily_request(name: Seq<u8>) -> Seq<u8> {
    let cname = name.push(0u8);
    let attr = if 20 + 4 + cname.len() + 4 <= NL_MSG_BUF { nla_bytes(CTRL_ATTR_FAMILY_NAME, cname) } else { Seq::empty() };
    nlmsghdr_bytes((20 + attr.len()) as u32, GENL_ID_CTRL, NLM_F_REQUEST, 1) + genlmsghdr_bytes(CTRL_CMD_GETFAMILY) + attr
}

/// The request looking up generic netlink family `family`; `None` when the
/// name holds a zero byte and cannot be a C string.
pub fn genl_getfamily_request(family: &str) -> (r: Option<Vec<u8>>)
    ensures
        match r {
            Some(v) => !vstd::utf8::encode_utf8(family@).contains(0u8) && v@ == spec_getfamily_request(
                vstd::utf8::encode_utf8(family@),
            ),
            None => vstd::utf8::encode_utf8(family@).contains(0u8),
        },
{
    let name = family.as_bytes_vec();
    assert(name@ == vstd::utf8::encode_utf8(family@));
    let mut i: usize = 0;
    while i < name.len()
        invariant
            i <= name@.len(),
            name@ == vstd::utf8::encode_utf8(family@),
            forall|j: int| 0 <= j < i ==> name@[j] != 0u8,
        decreases name@.len() - i,
    {
        if name[i] == 0 {
            assert(name@[i as int] == 0u8);
            assert(name@.contains(0u8));
            return None;
        }
        i += 1;
    }
    let mut cname = name.clone();
    cname.push(0u8);
    assert(cname@ =~= name@.push(0u8));
    let n = cname.len();
    let with_attr = n <= NL_MSG_BUF - 28;
    let total: u32 = if with_attr { (24 + n) as u32 } else { 20 };
    let mut v: Vec<u8> = Vec::new();
    push_nlmsghdr(&mut v, total, GENL_ID_CTRL, NLM_F_REQUEST, 1);
    v.push(CTRL_CMD_GETFAMILY);
    v.push(1);
    v.push(0);
    v.push(0);
    if with_attr {
        push_nla(&mut v, CTRL_ATTR_FAMILY_NAME, cname.as_slice());
    }
    proof {
        let attr = if with_attr { nla_bytes(CTRL_ATTR_FAMILY_NAME, cname@) } else { Seq::<u8>::empty() };
        assert(v@ =~= spec_getfamily_request(name@));
    }
    Some(v)
}

/// Interface flag: the interface is up.
pub const IFF_UP: i16 = 0x1;

/// The interface flags `flags` with the up flag set when `up`, cleared
/// otherwise; every other flag is kept.
pub fn link_updown_flags(flags: i16, up: bool) -> (r: i16)
    ensures
        (r & IFF_UP == IFF_UP) == up,
        r & !IFF_UP == flags & !IFF_UP,
{
    if up {
        let r = flags | IFF_UP;
        assert(r & 1i16 == 1i16 && r & !1i16 == flags & !1i16) by (bit_vector)
            requires
                r == flags | 1i16,
        ;
        r
    } else {
        let r = flags & !IFF_UP;
        assert(r & 1i16 != 1i16 && r & !1i16 == flags & !1i16) by (bit_vector)
            requires
                r == flags & !1i16,
        ;
        r
    }
}

/// nl80211 command: set the interface type.
pub const NL80211_CMD_SET_INTERFACE: u8 = 18;

/// nl80211 command: set the channel.
pub const NL80211_CMD_SET_CHANNEL: u8 = 32;

/// nl80211 attribute: interface index.
pub const NL80211_ATTR_IFINDEX: u16 = 3;

/// nl80211 attribute: interface type.
pub const NL80211_ATTR_IFTYPE: u16 = 10;

/// nl80211 attribute: frequency in MHz.
pub const NL80211_ATTR_WIPHY_FREQ: u16 = 38;

/// nl80211 attribute: channel type.
pub const NL80211_ATTR_WIPHY_CHANNEL_TYPE: u16 = 39;

/// nl80211 interface type: monitor.
pub const NL80211_IFTYPE_MONITOR: u8 = 6;

/// nl80211 channel type: HT40 above the control channel.
pub const NL80211_CHAN_HT40PLUS: u8 = 2;

/// The request putting interface `ifindex` into monitor mode, for the
/// nl80211 family `family_id`.
pub open spec fn spec_monitor_mode_request(family_id: u16, ifindex: i32) -> Seq<u8> {
    nlmsghdr_bytes(36, family_id, NLM_F_REQUEST | NLM_F_ACK, 2) + genlmsghdr_bytes(NL80211_CMD_SET_INTERFACE)
        + nla_bytes(NL80211_ATTR_IFINDEX, le32_bytes(ifindex as u32))
        + nla_bytes(NL80211_ATTR_IFTYPE, le32_bytes(NL80211_IFTYPE_MONITOR as u32))
}

/// Build the request putting interface `ifindex` into monitor mode.
pub fn set_monitor_mode_request(family_id: u16, ifindex: i32) -> (v: Vec<u8>)
    ensures
        v@ == spec_monitor_mode_request(family_id, ifindex),
{
    let mut v: Vec<u8> = Vec::new();
    push_nlmsghdr(&mut v, 36, family_id, NLM_F_REQUEST | NLM_F_ACK, 2);
    v.push(NL80211_CMD_SET_INTERFACE);
    v.push(1);
    v.push(0);
    v.push(0);
    let p = u32_payload(ifindex as u32);
    push_nla(&mut v, NL80211_ATTR_IFINDEX, p.as_slice());
    let p = u32_payload(NL80211_IFTYPE_MONITOR as u32);
    push_nla(&mut v, NL80211_ATTR_IFTYPE, p.as_slice());
    assert(v@ =~= spec_monitor_mode_request(family_id, ifindex));
    v
}

/// The request tuning interface `ifindex` to the frequency of `channel`
/// (HT40+), for the nl80211 family `family_id`.
pub open spec fn spec_set_channel_request(family_id: u16, ifindex: i32, freq: int) -> Seq<u8> {
    nlmsghdr_bytes(44, family_id, NLM_F_REQUEST | NLM_F_ACK, 3) + genlmsghdr_bytes(NL80211_CMD_SET_CHANNEL)
        + nla_bytes(NL80211_ATTR_IFINDEX, le32_bytes(ifindex as u32))
        + nla_bytes(NL80211_ATTR_WIPHY_FREQ, le32_bytes(freq as u32))
        + nla_bytes(NL80211_ATTR_WIPHY_CHANNEL_TYPE, le32_bytes(NL80211_CHAN_HT40PLUS as u32))
}

/// Build the request tuning interface `ifindex` to `channel`; `None` for a
/// channel number without a frequency.
pub fn set_channel_request(family_id: u16, ifindex: i32, channel: i32) -> (r: Option<Vec<u8>>)
    requires
        channel <= 429495729,
    ensures
        match r {
            Some(v) => spec_channel_to_frequency(channel as int) != 0 && v@ == spec_set_channel_request(
                family_id,
                ifindex,
                spec_channel_to_frequency(channel as int),
            ),
            None => spec_channel_to_frequency(channel as int) == 0,
        },
{
    let freq = ieee80211_channel_to_frequency(channel);
    if freq == 0 {
        return None;
    }
    let mut v: Vec<u8> = Vec::new();
    push_nlmsghdr(&mut v, 44, family_id, NLM_F_REQUEST | NLM_F_ACK, 3);
    v.push(NL80211_CMD_SET_CHANNEL);
    v.push(1);
    v.push(0);
    v.push(0);
    let p = u32_payload(ifindex as u32);
    push_nla(&mut v, NL80211_ATTR_IFINDEX, p.as_slice());
    let p = u32_payload(freq as u32);
    push_nla(&mut v, NL80211_ATTR_WIPHY_FREQ, p.as_slice());
    let p = u32_payload(NL80211_CHAN_HT40PLUS as u32);
    push_nla(&mut v, NL80211_ATTR_WIPHY_CHANNEL_TYPE, p.as_slice());
    assert(v@ =~= spec_set_channel_request(family_id, ifindex, freq as int));
    Some(v)
}

/// Route message type: new neighbor.
pub const RTM_NEWNEIGH: u16 = 28;

/// Neighbor state: permanent.
pub const NUD_PERMANENT: u16 = 0x80;

/// Neighbor attribute: destination address.
pub const NDA_DST: u16 = 1;

/// Neighbor attribute: link-layer address.
pub const NDA_LLADDR: u16 = 2;

/// Address family IPv6.
pub const AF_INET6: u8 = 10;

/// The request adding a permanent neighbor entry mapping `in6` to `eth` on
/// interface `ifindex`.
pub open spec fn spec_neighbor_add_request(ifindex: i32, eth: Seq<u8>, in6: Seq<u8>) -> Seq<u8> {
    nlmsghdr_bytes(58, RTM_NEWNEIGH, NLM_F_REQUEST | NLM_F_ACK | NLM_F_CREATE, 4)
        + seq![AF_INET6, 0u8, 0u8, 0u8] + le32_bytes(ifindex as u32) + le16_bytes(NUD_PERMANENT) + seq![0u8, 0u8]
        + nla_bytes(NDA_DST, in6) + nla_bytes(NDA_LLADDR, eth)
}

/// Build the request adding a permanent neighbor entry mapping `in6` to
/// `eth` on interface `ifindex`.
pub fn neighbor_add_request(ifindex: i32, eth: &[u8; 6], in6: &[u8; 16]) -> (v: Vec<u8>)
    ensures
        v@ == spec_neighbor_add_request(ifindex, eth@, in6@),
{
    let mut v: Vec<u8> = Vec::new();
    push_nlmsghdr(&mut v, 58, RTM_NEWNEIGH, NLM_F_REQUEST | NLM_F_ACK | NLM_F_CREATE, 4);
    v.push(AF_INET6);
    v.push(0);
    v.push(0);
    v.push(0);
    push_le32(&mut v, ifindex as u32);
    push_le16(&mut v, NUD_PERMANENT);
    v.push(0);
    v.push(0);
    push_nla(&mut v, NDA_DST, in6.as_slice());
    push_nla(&mut v, NDA_LLADDR, eth.as_slice());
    assert(v@ =~= spec_neighbor_add_request(ifindex, eth@, in6@));
    v
}

/// The request adding a permanent neighbor entry for `eth` at its RFC 4291
/// link-local address on interface `ifindex`.
pub fn neighbor_add_rfc4291_request(ifindex: i32, eth: &[u8; 6]) -> (v: Vec<u8>)
    ensures
        v@ == spec_neighbor_add_request(
            ifindex,
            eth@,
            seq![0xfeu8, 0x80u8, 0u8, 0u8, 0u8, 0u8, 0u8, 0u8, eth@[0] ^ 0x02u8, eth@[1], eth@[2], 0xffu8, 0xfeu8, eth@[3], eth@[4], eth@[5]],
        ),
{
    let in6 = rfc4291_addr(eth);
    neighbor_add_request(ifindex, eth, &in6)
}

// ---------------------------------------------------------------------------
// Replies
// ---------------------------------------------------------------------------

/// What a reply to an acknowledged request says so far.
#[derive(Debug, Clone, Copy, PartialEq, Eq, Structural)]
pub enum NlReply {
    /// Acknowledged, or the reply ended.
    Ack,
    /// The kernel refused the request with this (negative) error number.
    Error(i32),
    /// No verdict yet: read the next reply.
    Continue,
}

/// `n` rounded up to a multiple of 4.
pub open spec fn align4(n: int) -> int {
    ((n + 3) / 4) * 4
}

/// The length field of the message header at `off`.
pub open spec fn msg_len_at(buf: Seq<u8>, off: int) -> int {
    le32_value(buf[off], buf[off + 1], buf[off + 2], buf[off + 3])
}

/// The type field of the message header at `off`.
pub open spec fn msg_type_at(buf: Seq<u8>, off: int) -> int {
    le16_value(buf[off + 4], buf[off + 5])
}

/// The messages of the first `byte_len` bytes of `buf`, from `off` on, read
/// as the reply to an acknowledged request: the first error or done message
/// decides; an error message long enough to hold an error number other than
/// 0 is a refusal. A message of length 0 ends the reading.
pub open spec fn spec_nl_reply(buf: Seq<u8>, byte_len: int, off: int) -> NlReply
    decreases byte_len - off,
{
    if off < 0 || off + 16 > byte_len {
        NlReply::Continue
    } else if msg_type_at(buf, off) == NLMSG_ERROR {
        if msg_len_at(buf, off) >= 20 && off + 20 <= buf.len() {
            let err = le32_value(buf[off + 16], buf[off + 17], buf[off + 18], buf[off + 19]) as u32 as i32;
            if err != 0 { NlReply::Error(err) } else { NlReply::Ack }
        } else {
            NlReply::Ack
        }
    } else if msg_type_at(buf, off) == NLMSG_DONE {
        NlReply::Ack
    } else if align4(msg_len_at(buf, off)) <= 0 || off + align4(msg_len_at(buf, off)) > byte_len {
        NlReply::Continue
    } else {
        spec_nl_reply(buf, byte_len, off + align4(msg_len_at(buf, off)))
    }
}

/// Read the reply in the first `byte_len` bytes of `buf` to an acknowledged
/// request.
pub fn nl_reply_status(buf: &[u8], byte_len: usize) -> (r: NlReply)
    requires
        byte_len <= buf@.len(),
    ensures
        r == spec_nl_reply(buf@, byte_len as int, 0),
{
    let mut off: u128 = 0;
    while off + 16 <= byte_len as u128
        invariant
            byte_len <= buf@.len(),
            off <= byte_len,
            spec_nl_reply(buf@, byte_len as int, 0) == spec_nl_reply(buf@, byte_len as int, off as int),
        decreases byte_len - off,
    {
        let o = off as usize;
        let len = match wire::read_le32(buf, o) {
            Ok(v) => v,
            Err(_) => return NlReply::Continue,
        };
        let ty = match wire::read_le16(buf, o + 4) {
            Ok(v) => v,
            Err(_) => return NlReply::Continue,
        };
        if ty == NLMSG_ERROR {
            if len >= 20 && buf.len() - o >= 20 {
                let err = match wire::read_le32(buf, o + 16) {
                    Ok(v) => #[verifier::truncate] (v as i32),
                    Err(_) => return NlReply::Ack,
                };
                if err != 0 {
                    return NlReply::Error(err);
                }
            }
            return NlReply::Ack;
        }
        if ty == NLMSG_DONE {
            return NlReply::Ack;
        }
        let aligned = (len as u128 + 3) / 4 * 4;
        if aligned == 0 {
            return NlReply::Continue;
        }
        off = off + aligned;
        if off > byte_len as u128 {
            return NlReply::Continue;
        }
    }
    NlReply::Continue
}

/// What a reply to a family lookup says so far.
#[derive(Debug, Clone, Copy, PartialEq, Eq, Structural)]
pub enum FamilyScan {
    /// The family has this id.
    Found(u16),
    /// The kernel refused the lookup.
    Error,
    /// The reply ended without the family.
    NotFound,
    /// No verdict yet: read the next reply.
    Continue,
}

/// The family id among the attributes from `attr_off` up to `end`: the
/// first id attribute with a two-byte payload. A malformed attribute, or one
/// outside the received bytes, ends the search.
pub open spec fn spec_family_attr(buf: Seq<u8>, attr_off: int, end: int) -> Option<u16>
    decreases end - attr_off,
{
    if attr_off < 0 || attr_off + 4 > end || attr_off + 4 > buf.len() {
        None
    } else {
        let a_len = le16_value(buf[attr_off], buf[attr_off + 1]);
        let a_type = le16_value(buf[attr_off + 2], buf[attr_off + 3]);
        if a_len >= 4 && align4(a_len) + attr_off <= end {
            if a_type == CTRL_ATTR_FAMILY_ID && a_len >= 6 {
                if attr_off + 6 <= buf.len() {
                    Some(le16_value(buf[attr_off + 4], buf[attr_off + 5]) as u16)
                } else {
                    None
                }
            } else {
                proof {
                    assert(align4(a_len) >= 4);
                }
                spec_family_attr(buf, attr_off + align4(a_len), end)
            }
        } else {
            None
        }
    }
}

/// The messages of the first `byte_len` bytes of `buf`, from `off` on, read
/// as the reply to a family lookup: an error message refuses, a done
/// message ends it, a controller message may carry the family id.
pub open spec fn spec_family_scan(buf: Seq<u8>, byte_len: int, off: int) -> FamilyScan
    decreases byte_len - off,
{
    if off < 0 || off + 16 > byte_len {
        FamilyScan::Continue
    } else if msg_type_at(buf, off) == NLMSG_ERROR {
        FamilyScan::Error
    } else if msg_type_at(buf, off) == NLMSG_DONE {
        FamilyScan::NotFound
    } else {
        let found = if msg_type_at(buf, off) == GENL_ID_CTRL {
            spec_family_attr(buf, off + 20, off + msg_len_at(buf, off))
        } else {
            None
        };
        match found {
            Some(id) => FamilyScan::Found(id),
            None => if align4(msg_len_at(buf, off)) <= 0 || off + align4(msg_len_at(buf, off)) > byte_len {
                FamilyScan::Continue
            } else {
                spec_family_scan(buf, byte_len, off + align4(msg_len_at(buf, off)))
            },
        }
    }
}

fn family_attr(buf: &[u8], attr_start: u128, end: u128) -> (r: Option<u16>)
    ensures
        r == spec_family_attr(buf@, attr_start as int, end as int),
{
    let mut attr_off = attr_start;
    while attr_off <= end && end - attr_off >= 4
        invariant
            spec_family_attr(buf@, attr_start as int, end as int) == spec_family_attr(buf@, attr_off as int, end as int),
        decreases end - attr_off,
    {
        if attr_off + 4 > buf.len() as u128 {
            return None;
        }
        let o = attr_off as usize;
        let a_len = match wire::read_le16(buf, o) {
            Ok(v) => v as u128,
            Err(_) => return None,
        };
        let a_type = match wire::read_le16(buf, o + 2) {
            Ok(v) => v,
            Err(_) => return None,
        };
        let a_align = (a_len + 3) / 4 * 4;
        if a_len >= 4 && a_align <= end - attr_off {
            if a_type == CTRL_ATTR_FAMILY_ID && a_len >= 6 {
                return match wire::read_le16(buf, o + 4) {
                    Ok(id) => Some(id),
                    Err(_) => None,
                };
            }
            attr_off = attr_off + a_align;
        } else {
            return None;
        }
    }
    None
}

/// Read the reply in the first `byte_len` bytes of `buf` to a family lookup.
pub fn genl_family_scan(buf: &[u8], byte_len: usize) -> (r: FamilyScan)
    requires
        byte_len <= buf@.len(),
    ensures
        r == spec_family_scan(buf@, byte_len as int, 0),
{
    let mut off: u128 = 0;
    while off + 16 <= byte_len as u128
        invariant
            byte_len <= buf@.len(),
            off <= byte_len,
            spec_family_scan(buf@, byte_len as int, 0) == spec_family_scan(buf@, byte_len as int, off as int),
        decreases byte_len - off,
    {
        let o = off as usize;
        let len = match wire::read_le32(buf, o) {
            Ok(v) => v as u128,
            Err(_) => return FamilyScan::Continue,
        };
        let ty = match wire::read_le16(buf, o + 4) {
            Ok(v) => v,
            Err(_) => return FamilyScan::Continue,
        };
        if ty == NLMSG_ERROR {
            return FamilyScan::Error;
        }
        if ty == NLMSG_DONE {
            return FamilyScan::NotFound;
        }
        if ty == GENL_ID_CTRL {
            if let Some(id) = family_attr(buf, off + 20, off + len) {
                return FamilyScan::Found(id);
            }
        }
        let aligned = (len + 3) / 4 * 4;
        if aligned == 0 {
            return FamilyScan::Continue;
        }
        off = off + aligned;
        if off > byte_len as u128 {
            return FamilyScan::Continue;
        }
    }
    FamilyScan::Continue
}

/// The bytes of a C string buffer before its first zero byte.
pub fn cstr_prefix(buf: &[u8]) -> (r: &[u8])
    ensures
        r@.len() <= buf@.len(),
        r@ == buf@.take(r@.len() as int),
        !r@.contains(0u8),
        r@.len() < buf@.len() ==> buf@[r@.len() as int] == 0u8,
{
    let mut i: usize = 0;
    while i < buf.len() && buf[i] != 0
        invariant
            i <= buf@.len(),
            forall|j: int| 0 <= j < i ==> buf@[j] != 0u8,
        decreases buf@.len() - i,
    {
        i += 1;
    }
    let r = vstd::slice::slice_subrange(buf, 0, i);
    assert(r@ =~= buf@.take(i as int));
    r
}

} // verus!
