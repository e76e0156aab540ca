use cosmicdrop::awdl::channel::{chan_opclass_149, chan_opclass_44, chan_opclass_6, AWDL_CHANSEQ_LENGTH};
use cosmicdrop::awdl::daemon::{channel_from_num, daemon_tick, Scheduler};
use cosmicdrop::awdl::frame::AwdlActionType;
use cosmicdrop::awdl::netlink::{
    cstr_prefix, genl_family_scan, genl_getfamily_request, link_updown_flags, neighbor_add_rfc4291_request, nl_reply_status,
    nlmsg_align, rfc4291_addr, set_channel_request, set_monitor_mode_request, FamilyScan, NlReply,
};
use cosmicdrop::awdl::rx::{
    awdl_parse_action_hdr, awdl_rx_frame_at, awdl_valid_llc_header, check_fcs, radiotap_parse, rx_code,
    RxResult,
};
use cosmicdrop::awdl::state::{AwdlState, Ieee80211State};
use cosmicdrop::awdl::tx::{
    awdl_init_action_at, awdl_init_arpa_tlv, awdl_init_chanseq, awdl_init_chanseq_tlv,
    awdl_init_election_params_v2_tlv, awdl_init_sync_params_tlv_at,
    awdl_init_full_action_frame_at, awdl_init_full_data_frame, awdl_init_version_tlv,
    ieee80211_add_fcs, ieee80211_init_radiotap_header, llc_init_awdl_hdr,
};

const ME: [u8; 6] = [0x02, 0, 0, 0, 0, 0x01];
const PEER: [u8; 6] = [0x02, 0, 0, 0, 0, 0x02];

fn node(addr: [u8; 6]) -> AwdlState {
    AwdlState::new("node", addr, chan_opclass_6(), 1_000_000)
}

#[test]
fn channel_from_num_accepts_social_channels_only() {
    assert_eq!(channel_from_num(6).unwrap().val, [6, 0x51]);
    assert_eq!(channel_from_num(44).unwrap().val, [44, 0x80]);
    assert_eq!(channel_from_num(149).unwrap().val, [149, 0x80]);
    assert_eq!(channel_from_num(11).unwrap_err().chan, 11);
}

#[test]
fn action_header_roundtrip() {
    let mut buf = [0u8; 16];
    assert_eq!(awdl_init_action_at(&mut buf, AwdlActionType::MIF, 0x1_2345_6789), 16);
    assert_eq!(buf[0], 127);
    assert_eq!(&buf[1..4], &[0x00, 0x17, 0xf2]);
    assert_eq!(buf[6], 3);
    assert_eq!(&buf[8..12], &[0x89, 0x67, 0x45, 0x23]);
    assert_eq!(awdl_parse_action_hdr(&buf), Some(AwdlActionType::MIF));
    let mut small = [0u8; 10];
    assert_eq!(awdl_init_action_at(&mut small, AwdlActionType::PSF, 0), 0);
    assert_eq!(small, [0u8; 10]);
}

#[test]
fn radiotap_and_fcs() {
    let mut buf = [0u8; 9];
    assert_eq!(ieee80211_init_radiotap_header(&mut buf), 9);
    assert_eq!(buf, [0, 0, 9, 0, 4, 0, 0, 0, 24]);
    let info = radiotap_parse(&buf).unwrap();
    assert_eq!((info.rssi, info.flags), (0, 0));
    // TSFT, flags and antenna signal present
    let rt = [0u8, 0, 18, 0, 0x23, 0, 0, 0, 1, 2, 3, 4, 5, 6, 7, 8, 0x10, 0xc4];
    let info = radiotap_parse(&rt).unwrap();
    assert_eq!(info.flags, 0x10);
    assert_eq!(info.rssi, -60);
    assert!(radiotap_parse(&[1, 0, 8, 0, 0, 0, 0, 0]).is_none());
    assert_eq!(check_fcs(100, 0x10), Some(96));
    assert_eq!(check_fcs(100, 0), Some(100));
    assert_eq!(check_fcs(100, 0x40), None);
    let mut end = [0u8; 4];
    assert_eq!(ieee80211_add_fcs(b"123456789", &mut end), 4);
    assert_eq!(end, 0xCBF43926u32.to_le_bytes());
}

#[test]
fn llc_header_built_is_valid() {
    let mut buf = [0u8; 8];
    assert_eq!(llc_init_awdl_hdr(&mut buf), 8);
    assert_eq!(buf, [0xaa, 0xaa, 0x03, 0x00, 0x17, 0xf2, 0x08, 0x00]);
    assert!(awdl_valid_llc_header(&buf));
    assert!(!awdl_valid_llc_header(&buf[..7]));
}

#[test]
fn tlv_sizes() {
    let st = node(ME);
    let mut buf = vec![0u8; 200];
    assert_eq!(awdl_init_chanseq_tlv(&mut buf, &st), 3 + 6 + 32 + 3);
    assert_eq!(buf[0], 18);
    assert_eq!(u16::from_le_bytes([buf[1], buf[2]]), 41);
    assert_eq!(awdl_init_election_params_v2_tlv(&mut buf, &st), 39);
    assert_eq!(awdl_init_version_tlv(&mut buf, &st), 5);
    assert_eq!(&buf[..5], &[21, 2, 0, 0x34, 1]);
    assert_eq!(awdl_init_arpa_tlv(&mut buf, &st), 5 + 4 + 2);
    assert_eq!(&buf[..11], &[16, 8, 0, 3, 4, b'n', b'o', b'd', b'e', 0xc0, 0x0c]);
    let mut tiny = [0u8; 4];
    assert_eq!(awdl_init_version_tlv(&mut tiny, &st), 0);
}

#[test]
fn tlvs_in_short_buffers() {
    let st = node(ME);
    // A channel sequence keeps its header and the whole entries that fit.
    let mut buf = [0xffu8; 11];
    assert_eq!(awdl_init_chanseq(&mut buf, &st), 6 + 4);
    assert_eq!(buf[10], 0xff);
    let mut buf = [0xffu8; 5];
    assert_eq!(awdl_init_chanseq(&mut buf, &st), 0);
    assert_eq!(buf, [0xff; 5]);
    // The channel sequence TLV: no room for its padding.
    let mut buf = [0xffu8; 3 + 6 + 32 + 2];
    assert_eq!(awdl_init_chanseq_tlv(&mut buf, &st), 3 + 6 + 32);
    assert_eq!(u16::from_le_bytes([buf[1], buf[2]]), 38);
    assert_eq!(buf[41], 0xff);
    // The ARPA TLV: only its header fits, its full length is returned.
    let mut buf = [0xffu8; 8];
    assert_eq!(awdl_init_arpa_tlv(&mut buf, &st), 11);
    assert_eq!(&buf[..5], &[16, 8, 0, 3, 4]);
    assert_eq!(&buf[5..], &[0xff, 0xff, 0xff]);
    let mut buf = [0xffu8; 4];
    assert_eq!(awdl_init_arpa_tlv(&mut buf, &st), 0);
    // The synchronization parameters TLV: fixed part and part of the sequence.
    let mut buf = vec![0u8; 36 + 6 + 2 * 5];
    assert_eq!(awdl_init_sync_params_tlv_at(&mut buf, &st, 1_000_000), 36 + 6 + 10);
    assert_eq!(buf[0], 4);
    assert_eq!(u16::from_le_bytes([buf[1], buf[2]]), 36 + 6 + 10 - 3);
    let mut buf = vec![0u8; 35];
    assert_eq!(awdl_init_sync_params_tlv_at(&mut buf, &st, 1_000_000), 0);
    let mut buf = vec![0u8; 200];
    assert_eq!(awdl_init_sync_params_tlv_at(&mut buf, &st, 1_000_000), 36 + 6 + 32 + 2);
}

#[test]
fn data_frame_is_delivered_to_a_peer_that_knows_the_sender() {
    let mut sender = node(PEER);
    let mut ieee = Ieee80211State::new();
    let mut buf = vec![0u8; 2000];
    let payload = [1u8, 2, 3, 4, 5];
    let n = awdl_init_full_data_frame(&mut buf, &PEER, &ME, &payload, &mut sender, &mut ieee);
    assert_eq!(n, 9 + 24 + 8 + 8 + 5);
    assert_eq!(sender.sequence_number, 1);
    assert_eq!(ieee.sequence_number, 1);

    let mut receiver = node(ME);
    // Unknown sender: counted, not delivered.
    let (r, eth) = awdl_rx_frame_at(&buf[..n], &mut receiver, 5);
    assert_eq!(r, RxResult::Processed);
    assert!(eth.is_none());
    assert_eq!(receiver.stats.rx_data, 1);

    receiver.peers.peer_add(&PEER, 5);
    let (r, eth) = awdl_rx_frame_at(&buf[..n], &mut receiver, 6);
    assert_eq!(r, RxResult::Processed);
    let mut expected = ME.to_vec();
    expected.extend_from_slice(&PEER);
    expected.extend_from_slice(&[0x08, 0x00]);
    expected.extend_from_slice(&payload);
    assert_eq!(eth.unwrap(), expected);
    assert_eq!(receiver.stats.rx_data, 2);
}

#[test]
fn frames_in_short_buffers() {
    // The payload does not fit: the headers are written, the payload not.
    let mut sender = node(PEER);
    let mut ieee = Ieee80211State::new();
    let mut buf = vec![0xffu8; 9 + 24 + 8 + 8 + 2];
    let n = awdl_init_full_data_frame(&mut buf, &PEER, &ME, &[1, 2, 3, 4, 5], &mut sender, &mut ieee);
    assert_eq!(n, 9 + 24 + 8 + 8);
    assert_eq!(&buf[n..], &[0xff, 0xff]);
    assert_eq!(sender.sequence_number, 1);
    // An action frame in 60 bytes: headers, then only the part of the
    // channel sequence TLV that fits.
    let mut st = node(ME);
    let mut ieee = Ieee80211State::new();
    let mut buf = vec![0u8; 60];
    let n = awdl_init_full_action_frame_at(&mut buf, &mut st, &mut ieee, AwdlActionType::PSF, 2_000_000);
    assert_eq!(n, 60);
    assert_eq!(buf[49], 18);
    assert_eq!(u16::from_le_bytes([buf[50], buf[51]]), 8);
    assert_eq!(ieee.sequence_number, 1);
}

#[test]
fn own_frames_are_ignored() {
    let mut st = node(ME);
    let mut ieee = Ieee80211State::new();
    let mut buf = vec![0u8; 2000];
    let n = awdl_init_full_action_frame_at(&mut buf, &mut st, &mut ieee, AwdlActionType::PSF, 2_000_000);
    assert!(n > 0);
    let (r, eth) = awdl_rx_frame_at(&buf[..n], &mut st, 2_000_100);
    assert_eq!(r, RxResult::IgnoreFromSelf);
    assert!(eth.is_none());
    assert_eq!(rx_code(r), 2);
}

#[test]
fn action_frame_from_a_peer_registers_it() {
    let mut peer = node(PEER);
    let mut ieee = Ieee80211State::new();
    let mut buf = vec![0u8; 2000];
    let n = awdl_init_full_action_frame_at(&mut buf, &mut peer, &mut ieee, AwdlActionType::MIF, 3_000_000);
    let mut me = node(ME);
    let (r, _) = awdl_rx_frame_at(&buf[..n], &mut me, 3_000_500);
    // The second-version election TLV sent is shorter than the receiver
    // reads, so the TLVs after it are not looked at.
    assert_eq!(r, RxResult::UnexpectedFormat);
    assert_eq!(me.stats.rx_action, 1);
    let p = me.peers.peer_get(&PEER).unwrap();
    assert_eq!(p.last_update, 3_000_500);
    assert_eq!(p.name, "");
    assert_eq!(p.election.height, 0);
    assert_eq!(p.election.master_addr, PEER);
    assert_eq!(p.sequence[0].val, [6, 0x51]);
    // The whole channel sequence is read back as it was sent.
    for i in 0..16 {
        assert_eq!(p.sequence[i].val, peer.channel.sequence[i].val);
    }
}

#[test]
fn bad_frames() {
    let mut st = node(ME);
    assert_eq!(awdl_rx_frame_at(&[0u8; 4], &mut st, 0).0, RxResult::UnexpectedFormat);
    // radiotap with bad FCS flag
    let rt = [0u8, 0, 9, 0, 2, 0, 0, 0, 0x40, 0, 0];
    assert_eq!(awdl_rx_frame_at(&rt, &mut st, 0).0, RxResult::IgnoreFailedCrc);
    // control frame type
    let mut f = vec![0u8, 0, 8, 0, 0, 0, 0, 0];
    let mut hdr = vec![0u8; 24];
    hdr[0] = 0x04;
    hdr[10..16].copy_from_slice(&PEER);
    f.extend_from_slice(&hdr);
    assert_eq!(awdl_rx_frame_at(&f, &mut st, 0).0, RxResult::UnexpectedType);
    assert_eq!(rx_code(RxResult::UnexpectedValue), -3);
}

#[test]
fn netlink_messages() {
    assert_eq!(nlmsg_align(0), 0);
    assert_eq!(nlmsg_align(5), 8);
    assert_eq!(nlmsg_align(16), 16);
    assert_eq!(
        rfc4291_addr(&[0x00, 0x11, 0x22, 0x33, 0x44, 0x55]),
        [0xfe, 0x80, 0, 0, 0, 0, 0, 0, 0x02, 0x11, 0x22, 0xff, 0xfe, 0x33, 0x44, 0x55]
    );
    let m = genl_getfamily_request("nl80211").unwrap();
    assert_eq!(m.len(), 20 + 4 + 8);
    assert_eq!(u32::from_le_bytes([m[0], m[1], m[2], m[3]]), 32);
    assert_eq!(&m[4..6], &[0x10, 0]);
    assert_eq!(&m[20..24], &[12, 0, 2, 0]);
    assert_eq!(&m[24..32], b"nl80211\0");
    assert!(genl_getfamily_request("a\0b").is_none());
    let m = set_monitor_mode_request(28, 3);
    assert_eq!(m.len(), 36);
    assert_eq!(&m[28..36], &[8, 0, 10, 0, 6, 0, 0, 0]);
    let m = set_channel_request(28, 3, 6).unwrap();
    assert_eq!(m.len(), 44);
    assert_eq!(&m[28..36], &[8, 0, 38, 0, 0x85, 0x09, 0, 0]);
    assert!(set_channel_request(28, 3, 20).is_none());
    let m = neighbor_add_rfc4291_request(2, &[0, 1, 2, 3, 4, 5]);
    assert_eq!(m.len(), 58);
    assert_eq!(u32::from_le_bytes([m[0], m[1], m[2], m[3]]), 58);
}

#[test]
fn netlink_replies() {
    let mut ack = vec![0u8; 36];
    ack[0] = 36;
    ack[4] = 2;
    assert_eq!(nl_reply_status(&ack, 36), NlReply::Ack);
    ack[16..20].copy_from_slice(&(-19i32).to_le_bytes());
    assert_eq!(nl_reply_status(&ack, 36), NlReply::Error(-19));
    assert_eq!(nl_reply_status(&ack, 10), NlReply::Continue);
    let mut fam = vec![0u8; 28];
    fam[0] = 28;
    fam[4] = 0x10;
    fam[20] = 6;
    fam[22] = 1;
    fam[24] = 0x1c;
    assert_eq!(genl_family_scan(&fam, 28), FamilyScan::Found(0x1c));
    let mut done = vec![0u8; 16];
    done[0] = 16;
    done[4] = 3;
    assert_eq!(genl_family_scan(&done, 16), FamilyScan::NotFound);
    assert_eq!(cstr_prefix(b"wlan0\0\0\0"), b"wlan0");
    assert_eq!(cstr_prefix(b"abc"), b"abc");
}

#[test]
fn daemon_tick_fires_due_timers() {
    let mut st = AwdlState::new("n", ME, chan_opclass_149(), 0);
    let mut sched = Scheduler::new(0);
    assert_eq!(sched.next_mif, 0);
    assert_eq!(sched.sleep_until(0), 1000);
    // No channel yet: the MIF is due but not sent.
    let a = daemon_tick(&mut sched, &mut st, 0, 0);
    assert!(!a.send_mif);
    assert!(!a.send_psf);
    assert_eq!(a.set_channel, None);
    assert_eq!(sched.next_mif, 65536 + 32768);
    // The channel check switches to the sequence's channel.
    let a = daemon_tick(&mut sched, &mut st, 10_000, 10_000);
    assert_eq!(a.set_channel, Some(149));
    assert_eq!(st.channel.current.val, [149, 0x80]);
    assert_eq!(sched.next_chan, 20_000);
    let a = daemon_tick(&mut sched, &mut st, 120_000, 120_000);
    assert!(a.send_psf);
    assert!(a.send_mif);
    assert_eq!(a.set_channel, None);
    assert_eq!(sched.next_psf, 120_000 + 112_640);
    assert_eq!(sched.next_chan, 130_000);
    let _ = chan_opclass_44();
    assert_eq!(AWDL_CHANSEQ_LENGTH, 16);
}

#[test]
fn link_flags_set_and_clear_only_up() {
    assert_eq!(link_updown_flags(0x1040, true), 0x1041);
    assert_eq!(link_updown_flags(0x1041, true), 0x1041);
    assert_eq!(link_updown_flags(0x1041, false), 0x1040);
    assert_eq!(link_updown_flags(-1, false), -2);
    assert_eq!(link_updown_flags(0, false), 0);
}
