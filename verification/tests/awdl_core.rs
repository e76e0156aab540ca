use cosmicdrop::awdl::channel::{
    awdl_chanseq_init_static, chan_null, chan_opclass_6, ieee80211_channel_to_frequency,
    ieee80211_frequency_to_channel, AwdlChan, AWDL_CHANSEQ_LENGTH,
};
use cosmicdrop::awdl::crc32::crc32;
use cosmicdrop::awdl::election::{
    awdl_election_is_sync_master, awdl_election_run, awdl_election_tree_print, compare_ether_addr,
    ether_ntoa, AwdlElectionState,
};
use cosmicdrop::awdl::frame::{
    packed_size_of, AwdlAction, AwdlChanseq, AwdlData, AwdlElectionParamsV2Tlv, AwdlVersionTlv,
    Ieee80211Hdr, LlcHdr, Tl,
};
use cosmicdrop::awdl::peers::{awdl_peer_print, AwdlPeerState, PeersStatus};
use cosmicdrop::awdl::siphash::siphash24;
use cosmicdrop::awdl::state::{
    ieee80211_tu_to_usec, ieee80211_usec_to_tu, Ieee80211State, AWDL_VERSION_3_4,
};
use cosmicdrop::awdl::sync::{awdl_sync_current_aw, awdl_sync_error_tu, awdl_sync_next_aw_tu, awdl_sync_update_last, AwdlSyncState};
use cosmicdrop::awdl::wire::{
    read_be32, read_ether_addr, read_le16, read_le32, read_u8, write_be32, write_ether_addr,
    write_le16, write_u8,
};

#[test]
fn test_chanseq_init_static() {
    let mut seq = [chan_null(); AWDL_CHANSEQ_LENGTH];
    awdl_chanseq_init_static(&mut seq, &chan_opclass_6());
    for s in &seq {
        assert_eq!(s.chan_num_opclass(), 6);
    }
}

#[test]
fn test_channel_to_freq() {
    assert_eq!(ieee80211_channel_to_frequency(6), 2437);
    assert_eq!(ieee80211_channel_to_frequency(36), 5180);
    assert_eq!(ieee80211_channel_to_frequency(149), 5745);
}

#[test]
fn test_freq_to_channel() {
    assert_eq!(ieee80211_frequency_to_channel(2437), 6);
    assert_eq!(ieee80211_frequency_to_channel(5180), 36);
    assert_eq!(ieee80211_frequency_to_channel(5745), 149);
}

#[test]
fn test_compare_ether_addr() {
    let a = [0, 0, 0, 0, 0, 1];
    let b = [0, 0, 0, 0, 0, 2];
    assert_eq!(compare_ether_addr(&a, &b), -1);
    assert_eq!(compare_ether_addr(&b, &a), 1);
    assert_eq!(compare_ether_addr(&a, &a), 0);
}

#[test]
fn test_election_self_is_master() {
    let self_addr = [1, 2, 3, 4, 5, 6];
    let state = AwdlElectionState::new(self_addr);
    assert_eq!(state.master_addr, self_addr);
    assert_eq!(state.sync_addr, self_addr);
    assert!(awdl_election_is_sync_master(&state, &self_addr));
}

#[test]
fn test_election_chooses_higher_counter() {
    let self_addr = [1, 2, 3, 4, 5, 6];
    let mut state = AwdlElectionState::new(self_addr);

    let peer_addr = [0, 0, 0, 0, 0, 2];
    let mut peer_election = AwdlElectionState::new(peer_addr);
    peer_election.self_counter = 10;
    peer_election.self_metric = 60;
    peer_election.master_addr = peer_addr;
    peer_election.master_counter = 10;
    peer_election.master_metric = 60;

    awdl_election_run(&mut state, &[(peer_election, true)]);
    assert_eq!(state.sync_addr, peer_addr);
    assert_eq!(state.height, 1);
}

#[test]
fn test_struct_sizes() {
    assert_eq!(packed_size_of::<Ieee80211Hdr>(), 24);
    assert_eq!(packed_size_of::<LlcHdr>(), 8);
    assert_eq!(packed_size_of::<AwdlAction>(), 16);
    assert_eq!(packed_size_of::<Tl>(), 3);
    assert_eq!(packed_size_of::<AwdlData>(), 8);
    assert_eq!(packed_size_of::<AwdlChanseq>(), 6);
    assert_eq!(packed_size_of::<AwdlElectionParamsV2Tlv>(), 39);
    assert_eq!(packed_size_of::<AwdlVersionTlv>(), 5);
}

#[test]
fn test_peer_add_and_get() {
    let mut state = AwdlPeerState::new();
    let addr = [1, 2, 3, 4, 5, 6];
    let (status, _valid) = state.peer_add(&addr, 100);
    assert_eq!(status, PeersStatus::Added);
    assert!(state.peer_get(&addr).is_some());

    let (status, _valid) = state.peer_add(&addr, 200);
    assert_eq!(status, PeersStatus::Update);
    assert_eq!(state.peer_get(&addr).unwrap().last_update, 200);
}

#[test]
fn test_peer_remove_before() {
    let mut state = AwdlPeerState::new();
    state.peer_add(&[1, 2, 3, 4, 5, 6], 100);
    state.peer_add(&[7, 8, 9, 10, 11, 12], 300);
    let removed = state.peers_remove_before(200);
    assert_eq!(removed.len(), 1);
    assert_eq!(removed[0].addr, [1, 2, 3, 4, 5, 6]);
    assert_eq!(state.len(), 1);
}

#[test]
fn test_siphash_empty() {
    let key = [0u8; 16];
    let hash = siphash24(&[], &key);
    assert_eq!(hash, [0xd7, 0x00, 0x77, 0x73, 0x9d, 0x4b, 0x92, 0x1e]);
}

#[test]
fn test_siphash_single_byte() {
    let key = [0u8; 16];
    let hash = siphash24(&[0x00], &key);
    assert_eq!(hash, [0x8d, 0xc5, 0xfb, 0x49, 0xaa, 0x0b, 0x5a, 0x8b]);
}

#[test]
fn test_version_encoding() {
    assert_eq!(AWDL_VERSION_3_4, 0x34);
}

#[test]
fn test_sequence_number_wrap() {
    let mut ieee = Ieee80211State::new();
    ieee.sequence_number = 0x0fff;
    let seq = ieee.next_sequence_number();
    assert_eq!(seq, 0x0fff);
    assert_eq!(ieee.sequence_number, 0);
}

#[test]
fn test_tu_conversion() {
    assert_eq!(ieee80211_tu_to_usec(1), 1024);
    assert_eq!(ieee80211_usec_to_tu(1024), 1);
}

#[test]
fn test_sync_next_aw_tu() {
    let state = AwdlSyncState {
        aw_counter: 0,
        last_update: 0,
        aw_period: 16,
        presence_mode: 4,
        meas_err: 0,
        meas_total: 0,
    };
    assert_eq!(awdl_sync_next_aw_tu(0, &state), 64);
}

#[test]
fn test_sync_current_aw() {
    let state = AwdlSyncState {
        aw_counter: 0,
        last_update: 0,
        aw_period: 16,
        presence_mode: 4,
        meas_err: 0,
        meas_total: 0,
    };
    assert_eq!(awdl_sync_current_aw(0, &state), 0);
    let now = ieee80211_tu_to_usec(16);
    assert_eq!(awdl_sync_current_aw(now, &state), 1);
}

#[test]
fn test_read_write_roundtrip() {
    let mut buf = [0u8; 16];
    write_u8(&mut buf, 0, 0xAB).unwrap();
    write_le16(&mut buf, 1, 0x1234).unwrap();
    write_be32(&mut buf, 3, 0xDEADBEEF).unwrap();
    write_ether_addr(&mut buf, 7, &[1, 2, 3, 4, 5, 6]).unwrap();

    assert_eq!(read_u8(&buf, 0).unwrap(), 0xAB);
    assert_eq!(read_le16(&buf, 1).unwrap(), 0x1234);
    assert_eq!(read_be32(&buf, 3).unwrap(), 0xDEADBEEF);
    assert_eq!(read_ether_addr(&buf, 7).unwrap(), [1, 2, 3, 4, 5, 6]);
}

#[test]
fn test_oob_returns_error() {
    let buf = [0u8; 4];
    assert!(read_u8(&buf, 4).is_err());
    assert!(read_le16(&buf, 3).is_err());
    assert!(read_le32(&buf, 1).is_err());
    assert!(write_u8(&mut [], 0, 0).is_err());
}

#[test]
fn crc32_check_value() {
    assert_eq!(crc32(b"123456789"), 0xCBF43926);
    assert_eq!(crc32(&[]), 0);
}

#[test]
fn ether_ntoa_formats_pairs() {
    assert_eq!(ether_ntoa(&[0x00, 0x1a, 0xff, 0x0b, 0x10, 0xab]), "00:1a:ff:0b:10:ab");
}

#[test]
fn tree_print_of_self_master_and_of_follower() {
    let me = AwdlElectionState::new([1, 2, 3, 4, 5, 6]);
    assert_eq!(awdl_election_tree_print(&me), "01:02:03:04:05:06 (met 60, ctr 0)");
    let mut f = me;
    f.height = 3;
    f.sync_addr = [0, 0, 0, 0, 0, 2];
    f.master_addr = [0, 0, 0, 0, 0, 9];
    f.master_metric = 500;
    f.master_counter = 12;
    assert_eq!(
        awdl_election_tree_print(&f),
        "01:02:03:04:05:06 -> 00:00:00:00:00:02 --> 00:00:00:00:00:09 (met 500, ctr 12)"
    );
}

#[test]
fn peer_print_unnamed_and_named() {
    let mut table = AwdlPeerState::new();
    table.peer_add(&[1, 1, 1, 1, 1, 1], 5);
    let p = table.peer_get(&[1, 1, 1, 1, 1, 1]).unwrap();
    assert_eq!(awdl_peer_print(p), "<UNNAMED>: 01:01:01:01:01:01 (met 60, ctr 0)");
    let pm = table.peer_get_mut(&[1, 1, 1, 1, 1, 1]).unwrap();
    pm.name = "mac".to_string();
    assert_eq!(awdl_peer_print(table.peer_get(&[1, 1, 1, 1, 1, 1]).unwrap()), "mac: 01:01:01:01:01:01 (met 60, ctr 0)");
}

#[test]
fn chan_helpers() {
    let c = AwdlChan::new(44, 0x80);
    assert_eq!(c.chan_num_opclass(), 44);
    assert_eq!(c.chan_num_legacy(), 0x80);
}

#[test]
fn peer_remove_returns_the_peer() {
    let mut t = AwdlPeerState::new();
    t.peer_add(&[9, 9, 9, 9, 9, 9], 1);
    assert!(t.peer_remove(&[9, 9, 9, 9, 9, 9]).is_some());
    assert!(t.peer_remove(&[9, 9, 9, 9, 9, 9]).is_none());
    assert!(t.is_empty());
}

#[test]
fn sync_error_is_zero_after_resync() {
    for &(t, c) in &[(1u16, 0u16), (10, 1235), (64, 65535), (33, 4000)] {
        let mut state = AwdlSyncState {
            aw_counter: 7,
            last_update: 123_456_789,
            aw_period: 16,
            presence_mode: 4,
            meas_err: 0,
            meas_total: 0,
        };
        let now = 987_654_321u64;
        awdl_sync_update_last(now, t, c, &mut state);
        assert_eq!(state.aw_counter, c & 0xfffc);
        assert_eq!(awdl_sync_next_aw_tu(now, &state), t);
        assert_eq!(awdl_sync_error_tu(now, t, c, &state), 0);
    }
}

#[test]
fn election_follows_the_best_eligible_master() {
    let self_addr = [1, 2, 3, 4, 5, 6];
    let mut state = AwdlElectionState::new(self_addr);
    let mut a = AwdlElectionState::new([0, 0, 0, 0, 0, 2]);
    a.master_counter = 10;
    a.master_metric = 60;
    let mut b = AwdlElectionState::new([0, 0, 0, 0, 0, 3]);
    b.master_counter = 10;
    b.master_metric = 70;
    let mut too_deep = AwdlElectionState::new([0, 0, 0, 0, 0, 4]);
    too_deep.master_counter = 50;
    too_deep.height = 10;
    let mut invalid = AwdlElectionState::new([0, 0, 0, 0, 0, 5]);
    invalid.master_counter = 90;
    awdl_election_run(&mut state, &[(a, true), (b, true), (too_deep, true), (invalid, false)]);
    assert_eq!(state.sync_addr, [0, 0, 0, 0, 0, 3]);
    assert_eq!((state.master_counter, state.master_metric), (10, 70));
    assert_eq!(state.height, 1);
}
