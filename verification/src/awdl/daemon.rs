//! The daemon's decisions: which AWDL channel to start on, and on each tick
//! of its loop which timers fire, what they change in the node's state and
//! what the loop must do (switch channel, send a PSF or a MIF).

use vstd::prelude::*;
use crate::awdl::channel::{AwdlChan, AWDL_CHANSEQ_LENGTH, spec_chan_num, awdl_chan_num, chan_opclass_6, chan_opclass_44, chan_opclass_149};
use crate::awdl::election::{AwdlElectionState, spec_election_result, awdl_election_run};
use crate::awdl::peers::AwdlPeer;
use crate::awdl::state::{AwdlState, PSF_INTERVAL_MASTER_TU, ieee80211_tu_to_usec};
use crate::awdl::sync::{sync_params_ok, spec_current_eaw, spec_next_aw_us, awdl_sync_current_eaw, awdl_sync_next_aw_us};

verus! {

/// Guard time before a unicast slot, in TUs.
pub const AWDL_UNICAST_GUARD_TU: i32 = 3;

/// Guard time before a multicast slot, in TUs.
pub const AWDL_MULTICAST_GUARD_TU: i32 = 16;

/// A channel this daemon cannot run on.
#[derive(Debug, Clone, Copy, PartialEq, Eq, Structural)]
pub struct UnsupportedChannel {
    pub chan: u8,
}

/// The AWDL channel for channel number `chan`: only 6, 44 and 149 are
/// supported.
pub fn channel_from_num(chan: u8) -> (r: Result<AwdlChan, UnsupportedChannel>)
    ensures
        match r {
            Ok(c) => (chan == 6 && c.val@ == seq![6u8, 0x51u8]) || (chan == 44 && c.val@ == seq![44u8, 0x80u8])
                || (chan == 149 && c.val@ == seq![149u8, 0x80u8]),
            Err(e) => chan != 6 && chan != 44 && chan != 149 && e.chan == chan,
        },
{
    match chan {
        6 => Ok(chan_opclass_6()),
        44 => Ok(chan_opclass_44()),
        149 => Ok(chan_opclass_149()),
        other => Err(UnsupportedChannel { chan: other }),
    }
}

/// Counters the running daemon reports.
#[derive(Debug, Clone)]
pub struct AwdlStatsSnapshot {
    pub tx_action: u64,
    pub tx_data: u64,
    pub rx_action: u64,
    pub rx_data: u64,
    pub rx_unknown: u64,
}

impl Default for AwdlStatsSnapshot {
    fn default() -> (s: Self)
        ensures
            s.tx_action == 0 && s.tx_data == 0 && s.rx_action == 0 && s.rx_data == 0 && s.rx_unknown == 0,
    {
        AwdlStatsSnapshot { tx_action: 0, tx_data: 0, rx_action: 0, rx_data: 0, rx_unknown: 0 }
    }
}

/// Interval between channel switch checks, in microseconds.
pub const CHANNEL_CHECK_US: u64 = 10_000;

/// Interval between election runs, in microseconds.
pub const ELECTION_INTERVAL_US: u64 = 500_000;

/// Delay before the first transmit check, in microseconds.
pub const TX_DELAY_US: u64 = 5_000;

/// First peer table cleanup, in microseconds after start.
pub const FIRST_PEER_CLEANUP_US: u64 = 1_000_000;

/// Shortest sleep of the loop, in microseconds.
pub const MIN_SLEEP_US: u64 = 1_000;

/// When each periodic task of the daemon fires next, in microseconds of the
/// loop's monotonic clock.
#[derive(Debug, Clone, Copy)]
pub struct Scheduler {
    pub next_psf: u64,
    pub next_mif: u64,
    pub next_chan: u64,
    pub next_peer: u64,
    pub next_election: u64,
    pub next_tx: u64,
}

/// The smallest of the scheduled times.
pub open spec fn earliest(s: Scheduler) -> u64 {
    let a = if s.next_psf < s.next_mif { s.next_psf } else { s.next_mif };
    let b = if a < s.next_chan { a } else { s.next_chan };
    let c = if b < s.next_peer { b } else { s.next_peer };
    let d = if c < s.next_election { c } else { s.next_election };
    if d < s.next_tx { d } else { s.next_tx }
}

impl Scheduler {
    /// Timers of a daemon started at `now`: the first PSF one master PSF
    /// interval later, a MIF at once, channel check after 10 ms, peer
    /// cleanup after 1 s, election after 500 ms, transmit after 5 ms.
    pub fn new(now: u64) -> (s: Self)
        requires
            now + FIRST_PEER_CLEANUP_US <= u64::MAX,
        ensures
            s.next_psf == now + 1024 * PSF_INTERVAL_MASTER_TU,
            s.next_mif == now,
            s.next_chan == now + CHANNEL_CHECK_US,
            s.next_peer == now + FIRST_PEER_CLEANUP_US,
            s.next_election == now + ELECTION_INTERVAL_US,
            s.next_tx == now + TX_DELAY_US,
    {
        let psf_interval = ieee80211_tu_to_usec(PSF_INTERVAL_MASTER_TU as u64);
        Scheduler {
            next_psf: now + psf_interval,
            next_mif: now,
            next_chan: now + CHANNEL_CHECK_US,
            next_peer: now + FIRST_PEER_CLEANUP_US,
            next_election: now + ELECTION_INTERVAL_US,
            next_tx: now + TX_DELAY_US,
        }
    }

    /// How long to sleep at `now` until the next task fires: never less than
    /// one millisecond.
    pub fn sleep_until(&self, now: u64) -> (d: u64)
        ensures
            d == (if earliest(*self) > now + MIN_SLEEP_US { earliest(*self) - now } else { MIN_SLEEP_US as int }),
    {
        let mut next = self.next_psf;
        if self.next_mif < next {
            next = self.next_mif;
        }
        if self.next_chan < next {
            next = self.next_chan;
        }
        if self.next_peer < next {
            next = self.next_peer;
        }
        if self.next_election < next {
            next = self.next_election;
        }
        if self.next_tx < next {
            next = self.next_tx;
        }
        let wait = next.saturating_sub(now);
        if wait > MIN_SLEEP_US {
            wait
        } else {
            MIN_SLEEP_US
        }
    }
}

/// What the loop must do after a tick.
#[derive(Debug, Clone, Copy, PartialEq, Eq, Structural)]
pub struct DaemonActions {
    /// Switch the radio to this channel number.
    pub set_channel: Option<u8>,
    /// Send a periodic synchronization frame.
    pub send_psf: bool,
    /// Send a master indication frame.
    pub send_mif: bool,
}

/// Election input from a peer table: each peer's election state and validity.
pub open spec fn peer_snapshot(ps: Seq<AwdlPeer>) -> Seq<(AwdlElectionState, bool)> {
    ps.map_values(|p: AwdlPeer| (p.election, p.is_valid))
}

/// The slot of the channel sequence for the extended AW at clock `clock`.
pub open spec fn current_slot(s: AwdlState, clock: u64) -> int {
    spec_current_eaw(clock, s.sync) as int % AWDL_CHANSEQ_LENGTH as int
}

/// The channel a channel check at clock `clock` switches to, if any: the
/// channel of the current slot, when it has a number and differs from the
/// current one.
pub open spec fn channel_switch(s: AwdlState, clock: u64) -> Option<AwdlChan> {
    let chan = s.channel.sequence@[current_slot(s, clock)];
    let new_num = spec_chan_num(chan, s.channel.enc);
    if new_num != 0 && new_num != spec_chan_num(s.channel.current, s.channel.enc) {
        Some(chan)
    } else {
        None
    }
}

/// Microseconds from a MIF to the next: to the next extended AW boundary
/// and half an extended AW more, at least 1.
pub open spec fn mif_delay(s: AwdlState, clock: u64) -> int {
    let eaw_len = s.sync.presence_mode as int * s.sync.aw_period as int;
    let d = spec_next_aw_us(clock, s.sync) + 1024 * (eaw_len / 2);
    if d > 1 { d } else { 1 }
}

/// The scheduler times stay far enough from the end of the clock for every
/// interval to be added to `now`.
pub open spec fn tick_fits(now: u64, s: AwdlState) -> bool {
    now + s.peers.clean_interval <= u64::MAX && now + 0x10_0000_0000 <= u64::MAX
}

/// One tick of the daemon at loop time `now` and protocol clock `clock`:
/// each due timer is rescheduled and does its work, in this order: channel
/// check (switch to the channel of the current slot), peer cleanup (drop
/// peers silent for longer than the timeout, then run the election),
/// election, PSF, MIF (only on a channel with a number).
pub fn daemon_tick(sched: &mut Scheduler, awdl: &mut AwdlState, now: u64, clock: u64) -> (r: DaemonActions)
    requires
        old(awdl).wf(),
        tick_fits(now, *old(awdl)),
    ensures
        final(awdl).wf(),
        ({
            let o = *old(awdl);
            let s = *final(awdl);
            let os = *old(sched);
            let ns = *final(sched);
            let chan_due = now >= os.next_chan;
            let peer_due = now >= os.next_peer;
            let election_due = now >= os.next_election;
            let psf_due = now >= os.next_psf;
            let mif_due = now >= os.next_mif;
            let switch = if chan_due { channel_switch(o, clock) } else { None };
            let cutoff = clock.saturating_sub(o.peers.timeout);
            let kept = if peer_due {
                o.peers.peers@.filter(|p: AwdlPeer| p.last_update >= cutoff)
            } else {
                o.peers.peers@
            };
            let e1 = if peer_due { spec_election_result(o.election, peer_snapshot(kept)) } else { o.election };
            let e2 = if election_due { spec_election_result(e1, peer_snapshot(kept)) } else { e1 };
            let current = match switch {
                Some(c) => c,
                None => o.channel.current,
            };
            &&& r.set_channel == (match switch {
                Some(c) => Some(spec_chan_num(c, o.channel.enc)),
                None => None,
            })
            &&& r.send_psf == psf_due
            &&& r.send_mif == (mif_due && spec_chan_num(current, o.channel.enc) > 0)
            &&& s.peers.peers@ == kept
            &&& s == (AwdlState {
                channel: crate::awdl::channel::AwdlChannelState { current, ..o.channel },
                election: e2,
                peers: s.peers,
                ..o
            })
            &&& s.peers.timeout == o.peers.timeout
            &&& s.peers.clean_interval == o.peers.clean_interval
            &&& ns.next_chan == (if chan_due { now + CHANNEL_CHECK_US } else { os.next_chan as int })
            &&& ns.next_peer == (if peer_due { now + o.peers.clean_interval } else { os.next_peer as int })
            &&& ns.next_election == (if election_due { now + ELECTION_INTERVAL_US } else { os.next_election as int })
            &&& ns.next_psf == (if psf_due { now + 1024 * o.psf_interval } else { os.next_psf as int })
            &&& ns.next_mif == (if mif_due { now + mif_delay(o, clock) } else { os.next_mif as int })
            &&& ns.next_tx == os.next_tx
        }),
{
    let mut actions = DaemonActions { set_channel: None, send_psf: false, send_mif: false };

    if now >= sched.next_chan {
        sched.next_chan = now + CHANNEL_CHECK_US;
        let eaw = awdl_sync_current_eaw(clock, &awdl.sync);
        let slot = (eaw as usize) % AWDL_CHANSEQ_LENGTH;
        let chan = awdl.channel.sequence[slot];
        let new_num = awdl_chan_num(chan, awdl.channel.enc);
        let old_num = awdl_chan_num(awdl.channel.current, awdl.channel.enc);
        if new_num != 0 && new_num != old_num {
            actions.set_channel = Some(new_num);
            awdl.channel.current = chan;
        }
    }

    if now >= sched.next_peer {
        sched.next_peer = now + awdl.peers.clean_interval;
        let cutoff = clock.saturating_sub(awdl.peers.timeout);
        awdl.peers.peers_remove_before(cutoff);
        let snapshot = awdl.peers.peers_iter();
        proof {
            assert(snapshot@ =~= peer_snapshot(awdl.peers.peers@));
        }
        awdl_election_run(&mut awdl.election, snapshot.as_slice());
    }

    if now >= sched.next_election {
        sched.next_election = now + ELECTION_INTERVAL_US;
        let snapshot = awdl.peers.peers_iter();
        proof {
            assert(snapshot@ =~= peer_snapshot(awdl.peers.peers@));
        }
        awdl_election_run(&mut awdl.election, snapshot.as_slice());
    }

    if now >= sched.next_psf {
        let psf_interval = ieee80211_tu_to_usec(awdl.psf_interval as u64);
        sched.next_psf = now + psf_interval;
        actions.send_psf = true;
    }

    if now >= sched.next_mif {
        let next_aw = awdl_sync_next_aw_us(clock, &awdl.sync);
        let pm = awdl.sync.presence_mode as u64;
        let aw = awdl.sync.aw_period as u64;
        assert(pm * aw <= 255 * 65535) by (nonlinear_arith)
            requires
                pm <= 255,
                aw <= 65535,
        ;
        let eaw_len = pm * aw;
        proof {
            crate::awdl::sync::lemma_next_aw_us_bound(clock, awdl.sync);
        }
        let in_us = next_aw + ieee80211_tu_to_usec(eaw_len / 2);
        assert(in_us <= 1024 * 255 * 65535 + 1024 * (255 * 65535 / 2));
        sched.next_mif = now + if in_us > 1 { in_us } else { 1 };
        let current = awdl_chan_num(awdl.channel.current, awdl.channel.enc);
        if current > 0 {
            actions.send_mif = true;
        }
    }
    actions
}

} // verus!
