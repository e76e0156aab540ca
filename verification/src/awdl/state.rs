//! The complete state of an AWDL node and the 802.11 sequence counter.

use vstd::prelude::*;
use vstd::wrapping::u16_specs::wrapping_add;
use crate::awdl::channel::{AwdlChan, AwdlChannelState, AwdlChanEncoding, seq_is_static};
use crate::awdl::election::{AwdlElectionState, awdl_election_state_init, is_self_master, AWDL_ELECTION_METRIC_INIT, AWDL_ELECTION_COUNTER_INIT};
use crate::awdl::peers::{AwdlPeerState, PeerView, peers_view, PEERS_DEFAULT_TIMEOUT, PEERS_DEFAULT_CLEAN_INTERVAL};
use crate::awdl::sync::{AwdlSyncState, sync_params_ok};

verus! {

/// Frames below this signal strength (dBm) come from peers too far away.
pub const RSSI_THRESHOLD_DEFAULT: i8 = -65;

/// Extra allowance (dBm) for peers already known.
pub const RSSI_GRACE_DEFAULT: i8 = -5;

/// PSF interval of a master, in TUs.
pub const PSF_INTERVAL_MASTER_TU: u16 = 110;

/// PSF interval of a slave, in TUs.
pub const PSF_INTERVAL_SLAVE_TU: u16 = 440;

/// The broadcast Ethernet address.
pub const ETHER_BROADCAST: [u8; 6] = [0xff, 0xff, 0xff, 0xff, 0xff, 0xff];

/// Protocol version 3.4: major in the high nibble, minor in the low one.
pub const AWDL_VERSION_3_4: u8 = 0x34;

/// Device class of a macOS machine.
pub const AWDL_DEVCLASS_MACOS: u8 = 1;

/// 1 TU = 1024 microseconds.
pub fn ieee80211_tu_to_usec(tu: u64) -> (us: u64)
    requires
        tu <= u64::MAX / 1024,
    ensures
        us == 1024 * tu,
{
    1024 * tu
}

/// Whole time units in `usec` microseconds.
pub fn ieee80211_usec_to_tu(usec: u64) -> (tu: u64)
    ensures
        tu == usec / 1024,
{
    usec / 1024
}

/// Microseconds since the Unix epoch by the system clock (0 when the clock is
/// before the epoch). Nothing is stated of the value: it is the time.
#[verifier::external_body]
pub fn clock_time_us() -> u64 {
    std::time::SystemTime::now().duration_since(std::time::UNIX_EPOCH).map(|d| d.as_micros() as u64).unwrap_or(0)
}

/// Traffic counters.
#[derive(Debug, Clone)]
pub struct AwdlStats {
    pub tx_action: u64,
    pub tx_data: u64,
    pub tx_data_unicast: u64,
    pub tx_data_multicast: u64,
    pub rx_action: u64,
    pub rx_data: u64,
    pub rx_unknown: u64,
}

impl Default for AwdlStats {
    fn default() -> (s: Self)
        ensures
            s.tx_action == 0 && s.tx_data == 0 && s.tx_data_unicast == 0 && s.tx_data_multicast
                == 0 && s.rx_action == 0 && s.rx_data == 0 && s.rx_unknown == 0,
    {
        AwdlStats {
            tx_action: 0,
            tx_data: 0,
            tx_data_unicast: 0,
            tx_data_multicast: 0,
            rx_action: 0,
            rx_data: 0,
            rx_unknown: 0,
        }
    }
}

/// Complete AWDL node state.
#[derive(Debug)]
pub struct AwdlState {
    pub self_address: [u8; 6],
    pub name: String,
    pub version: u8,
    pub dev_class: u8,
    pub sequence_number: u16,
    pub psf_interval: u16,
    pub dst: [u8; 6],
    pub filter_rssi: bool,
    pub rssi_threshold: i8,
    pub rssi_grace: i8,
    pub election: AwdlElectionState,
    pub sync: AwdlSyncState,
    pub channel: AwdlChannelState,
    pub peers: AwdlPeerState,
    pub stats: AwdlStats,
}

/// A node's state with arrays, strings and the peer table as sequences.
pub struct StateView {
    pub self_address: Seq<u8>,
    pub name: Seq<char>,
    pub version: u8,
    pub dev_class: u8,
    pub sequence_number: u16,
    pub psf_interval: u16,
    pub dst: Seq<u8>,
    pub filter_rssi: bool,
    pub rssi_threshold: i8,
    pub rssi_grace: i8,
    pub election: AwdlElectionState,
    pub sync: AwdlSyncState,
    pub channel: AwdlChannelState,
    pub peers: Seq<PeerView>,
    pub peers_timeout: u64,
    pub peers_clean_interval: u64,
    pub stats: AwdlStats,
}

impl View for AwdlState {
    type V = StateView;

    open spec fn view(&self) -> StateView {
        StateView {
            self_address: self.self_address@,
            name: self.name@,
            version: self.version,
            dev_class: self.dev_class,
            sequence_number: self.sequence_number,
            psf_interval: self.psf_interval,
            dst: self.dst@,
            filter_rssi: self.filter_rssi,
            rssi_threshold: self.rssi_threshold,
            rssi_grace: self.rssi_grace,
            election: self.election,
            sync: self.sync,
            channel: self.channel,
            peers: peers_view(self.peers.peers@),
            peers_timeout: self.peers.timeout,
            peers_clean_interval: self.peers.clean_interval,
            stats: self.stats,
        }
    }
}

impl AwdlState {
    /// The state is usable: the peer table has no duplicates and the timing
    /// periods are not zero.
    pub open spec fn wf(&self) -> bool {
        self.peers.wf() && sync_params_ok(self.sync)
    }

    /// A node named `hostname` with address `self_addr` on master channel
    /// `chan`, its own master, synchronized at time `now`, without peers.
    pub fn new(hostname: &str, self_addr: [u8; 6], chan: AwdlChan, now: u64) -> (s: Self)
        ensures
            s.wf(),
            s.self_address == self_addr,
            s.name@ == hostname@,
            s.version == AWDL_VERSION_3_4,
            s.dev_class == AWDL_DEVCLASS_MACOS,
            s.sequence_number == 0,
            s.psf_interval == PSF_INTERVAL_MASTER_TU,
            s.dst@ == seq![0xffu8, 0xffu8, 0xffu8, 0xffu8, 0xffu8, 0xffu8],
            s.filter_rssi,
            s.rssi_threshold == RSSI_THRESHOLD_DEFAULT,
            s.rssi_grace == RSSI_GRACE_DEFAULT,
            s.election.self_addr == self_addr,
            s.election.self_metric == AWDL_ELECTION_METRIC_INIT,
            s.election.self_counter == AWDL_ELECTION_COUNTER_INIT,
            is_self_master(s.election),
            s.sync.aw_counter == 0,
            s.sync.last_update == now,
            s.sync.aw_period == 16,
            s.sync.presence_mode == 4,
            s.sync.meas_err == 0,
            s.sync.meas_total == 0,
            s.channel.enc == AwdlChanEncoding::Opclass,
            seq_is_static(s.channel.sequence@, chan),
            s.channel.master == chan,
            s.channel.current.val@ == seq![0u8, 0u8],
            s.peers.peers@.len() == 0,
            s.peers.timeout == PEERS_DEFAULT_TIMEOUT,
            s.peers.clean_interval == PEERS_DEFAULT_CLEAN_INTERVAL,
            s.stats.tx_action == 0 && s.stats.tx_data == 0 && s.stats.tx_data_unicast == 0
                && s.stats.tx_data_multicast == 0 && s.stats.rx_action == 0 && s.stats.rx_data == 0
                && s.stats.rx_unknown == 0,
    {
        let mut election = AwdlElectionState::new(self_addr);
        awdl_election_state_init(&mut election, &self_addr);
        let channel = AwdlChannelState::new(chan);
        let s = Self {
            self_address: self_addr,
            name: String::from_str(hostname),
            version: AWDL_VERSION_3_4,
            dev_class: AWDL_DEVCLASS_MACOS,
            sequence_number: 0,
            psf_interval: PSF_INTERVAL_MASTER_TU,
            dst: ETHER_BROADCAST,
            filter_rssi: true,
            rssi_threshold: RSSI_THRESHOLD_DEFAULT,
            rssi_grace: RSSI_GRACE_DEFAULT,
            election,
            sync: AwdlSyncState::new(now),
            channel,
            peers: AwdlPeerState::new(),
            stats: AwdlStats::default(),
        };
        assert(s.dst@ =~= seq![0xffu8, 0xffu8, 0xffu8, 0xffu8, 0xffu8, 0xffu8]);
        s
    }

    /// Return the sequence number and advance it (wrapping at 2^16).
    pub fn next_sequence_number(&mut self) -> (seq: u16)
        ensures
            seq == old(self).sequence_number,
            *final(self) == (AwdlState { sequence_number: wrapping_add(old(self).sequence_number, 1), ..*old(self) }),
    {
        let seq = self.sequence_number;
        self.sequence_number = self.sequence_number.wrapping_add(1);
        seq
    }
}

/// State of the 802.11 layer: sequence counter and whether frames carry an FCS.
#[derive(Debug)]
pub struct Ieee80211State {
    pub sequence_number: u16,
    pub fcs: bool,
}

impl Ieee80211State {
    /// Counter 0, no FCS.
    pub fn new() -> (s: Self)
        ensures
            s.sequence_number == 0,
            !s.fcs,
    {
        Self { sequence_number: 0, fcs: false }
    }

    /// Return the sequence number and advance it modulo 2^12.
    pub fn next_sequence_number(&mut self) -> (seq: u16)
        ensures
            seq == old(self).sequence_number,
            final(self).sequence_number == wrapping_add(old(self).sequence_number, 1) & 0x0fff,
            final(self).fcs == old(self).fcs,
    {
        let seq = self.sequence_number;
        self.sequence_number = self.sequence_number.wrapping_add(1) & 0x0fff;
        seq
    }
}

} // verus!
