//! Availability-window (AW) timing: where in the extended AW period a node
//! is, and how it resynchronizes to its master.

use vstd::prelude::*;
use vstd::wrapping::u64_specs::{wrapping_sub, wrapping_mul};
use crate::awdl::state::{ieee80211_tu_to_usec, ieee80211_usec_to_tu};

verus! {

/// Synchronization state of a node.
#[derive(Debug, Clone)]
pub struct AwdlSyncState {
    pub aw_counter: u16,
    /// Time of the last AW boundary, in microseconds.
    pub last_update: u64,
    /// AW length in TUs.
    pub aw_period: u16,
    /// AWs per extended AW.
    pub presence_mode: u8,
    pub meas_err: u64,
    pub meas_total: u64,
}

impl AwdlSyncState {
    /// Counter 0, last update `now`, 16-TU periods, presence mode 4.
    pub fn new(now: u64) -> (s: Self)
        ensures
            s.aw_counter == 0,
            s.last_update == now,
            s.aw_period == 16,
            s.presence_mode == 4,
            s.meas_err == 0,
            s.meas_total == 0,
    {
        Self {
            aw_counter: 0,
            last_update: now,
            aw_period: 16,
            presence_mode: 4,
            meas_err: 0,
            meas_total: 0,
        }
    }
}

/// The timing parameters are usable: periods are not zero.
pub open spec fn sync_params_ok(s: AwdlSyncState) -> bool {
    s.presence_mode > 0 && s.aw_period > 0
}

/// Reset `state` to its initial values at time `now`.
pub fn awdl_sync_state_init(state: &mut AwdlSyncState, now: u64)
    ensures
        final(state).last_update == now,
        final(state).aw_counter == 0,
        final(state).aw_period == 16,
        final(state).presence_mode == 4,
        final(state).meas_err == 0,
        final(state).meas_total == 0,
{
    state.last_update = now;
    state.aw_counter = 0;
    state.aw_period = 16;
    state.presence_mode = 4;
    state.meas_err = 0;
    state.meas_total = 0;
}

/// Extended AW period in TUs.
pub open spec fn eaw_period(s: AwdlSyncState) -> int {
    s.presence_mode as int * s.aw_period as int
}

/// Whole TUs since the last AW boundary (the clock difference wraps).
pub open spec fn tu_since(now: u64, s: AwdlSyncState) -> int {
    wrapping_sub(now, s.last_update) as int / 1024
}

/// TUs until the next extended AW boundary, truncated to 16 bits.
pub open spec fn spec_next_aw_tu(now: u64, s: AwdlSyncState) -> u16 {
    (eaw_period(s) - tu_since(now, s) % eaw_period(s)) as u16
}

proof fn lemma_eaw_bounds(s: AwdlSyncState)
    requires
        sync_params_ok(s),
    ensures
        1 <= eaw_period(s) <= 255 * 65535,
        eaw_period(s) >= s.presence_mode,
        eaw_period(s) >= s.aw_period,
{
    let p = s.presence_mode as int;
    let a = s.aw_period as int;
    assert(1 <= p * a <= 255 * 65535 && p * a >= p && p * a >= a) by (nonlinear_arith)
        requires
            1 <= p <= 255,
            1 <= a <= 65535,
    ;
}

/// TUs until the next extended AW boundary.
pub fn awdl_sync_next_aw_tu(now_usec: u64, state: &AwdlSyncState) -> (r: u16)
    requires
        sync_params_ok(*state),
    ensures
        r == spec_next_aw_tu(now_usec, *state),
{
    proof {
        lemma_eaw_bounds(*state);
    }
    let eaw_period = (state.presence_mode as u64) * (state.aw_period as u64);
    let time_since = ieee80211_usec_to_tu(now_usec.wrapping_sub(state.last_update));
    let next_aw_tu = eaw_period - (time_since % eaw_period);
    next_aw_tu as u16
}

/// Microseconds until the next extended AW boundary.
pub open spec fn spec_next_aw_us(now: u64, s: AwdlSyncState) -> int {
    1024 * eaw_period(s) - wrapping_sub(now, s.last_update) as int % (1024 * eaw_period(s))
}

/// The time to the next extended AW boundary is at most one extended AW.
pub proof fn lemma_next_aw_us_bound(now: u64, s: AwdlSyncState)
    requires
        sync_params_ok(s),
    ensures
        0 < spec_next_aw_us(now, s) <= 1024 * eaw_period(s) <= 1024 * 255 * 65535,
{
    lemma_eaw_bounds(s);
}

/// Microseconds until the next extended AW boundary.
pub fn awdl_sync_next_aw_us(now_usec: u64, state: &AwdlSyncState) -> (r: u64)
    requires
        sync_params_ok(*state),
    ensures
        r == spec_next_aw_us(now_usec, *state),
{
    proof {
        lemma_eaw_bounds(*state);
    }
    let eaw_period = ieee80211_tu_to_usec((state.presence_mode as u64) * (state.aw_period as u64));
    let time_since = now_usec.wrapping_sub(state.last_update);
    eaw_period - (time_since % eaw_period)
}

/// The current AW counter: the counter at the last boundary plus the AWs
/// elapsed since, truncated to 16 bits.
pub open spec fn spec_current_aw(now: u64, s: AwdlSyncState) -> u16 {
    let t = tu_since(now, s);
    let e = eaw_period(s);
    (s.aw_counter as int + (t % e) / (s.aw_period as int) + (s.presence_mode as int) * (t / e)) as u16
}

proof fn lemma_current_aw_bound(t: int, p: int, a: int)
    requires
        0 <= t <= u64::MAX / 1024,
        1 <= p <= 255,
        1 <= a <= 65535,
    ensures
        0 <= (t % (p * a)) / a <= t,
        0 <= p * (t / (p * a)) <= t,
{
    assert(0 <= (t % (p * a)) / a <= t && 0 <= p * (t / (p * a)) <= t) by (nonlinear_arith)
        requires
            0 <= t,
            1 <= p,
            1 <= a,
    {
        assert(p * a >= 1);
        assert(t % (p * a) <= t);
        assert((t % (p * a)) / a <= t % (p * a));
        assert(t / (p * a) <= t / p) by {
            vstd::arithmetic::div_mod::lemma_div_is_ordered_by_denominator(t, p, p * a);
        }
        assert(p * (t / p) <= t) by {
            vstd::arithmetic::div_mod::lemma_mul_hoist_inequality(p, t, p);
        }
    }
}

/// The current AW counter.
pub fn awdl_sync_current_aw(now_usec: u64, state: &AwdlSyncState) -> (r: u16)
    requires
        sync_params_ok(*state),
    ensures
        r == spec_current_aw(now_usec, *state),
{
    proof {
        lemma_eaw_bounds(*state);
    }
    let eaw_period = (state.presence_mode as u64) * (state.aw_period as u64);
    let time_since = ieee80211_usec_to_tu(now_usec.wrapping_sub(state.last_update));
    proof {
        lemma_current_aw_bound(
            time_since as int,
            state.presence_mode as int,
            state.aw_period as int,
        );
    }
    let current_aw = (state.aw_counter as u64) + (time_since % eaw_period) / (
    state.aw_period as u64) + (state.presence_mode as u64) * (time_since / eaw_period);
    current_aw as u16
}

/// The current extended AW counter.
pub open spec fn spec_current_eaw(now: u64, s: AwdlSyncState) -> u16 {
    (spec_current_aw(now, s) as int / s.presence_mode as int) as u16
}

/// The current extended AW counter.
pub fn awdl_sync_current_eaw(now_usec: u64, state: &AwdlSyncState) -> (r: u16)
    requires
        sync_params_ok(*state),
    ensures
        r == spec_current_eaw(now_usec, *state),
{
    awdl_sync_current_aw(now_usec, state) / (state.presence_mode as u16)
}

/// Synchronization error in TUs between a master's announced timing and ours.
pub open spec fn spec_sync_error_tu(
    now: u64,
    time_to_next_aw: u16,
    aw_counter: u16,
    s: AwdlSyncState,
) -> int {
    let remote_eaw = aw_counter as int / s.presence_mode as int;
    let local_eaw = spec_current_eaw(now, s) as int;
    let eaw_diff = (remote_eaw - local_eaw) * eaw_period(s);
    let aw_diff = time_to_next_aw as int - spec_next_aw_tu(now, s) as int;
    eaw_diff - aw_diff
}

/// Synchronization error in TUs between a master's announced timing and ours.
pub fn awdl_sync_error_tu(now_usec: u64, time_to_next_aw: u16, aw_counter: u16, state: &AwdlSyncState) -> (r: i64)
    requires
        sync_params_ok(*state),
    ensures
        r == spec_sync_error_tu(now_usec, time_to_next_aw, aw_counter, *state),
{
    proof {
        lemma_eaw_bounds(*state);
    }
    let remote_eaw = (aw_counter / state.presence_mode as u16) as i64;
    let local_eaw = awdl_sync_current_eaw(now_usec, state) as i64;
    let eaw_period = (state.presence_mode as i64) * (state.aw_period as i64);
    let d = remote_eaw - local_eaw;
    proof {
        assert(-65535 <= d <= 65535);
        assert(-65535 * (255 * 65535) <= d * eaw_period <= 65535 * (255 * 65535)) by (nonlinear_arith)
            requires
                -65535 <= d <= 65535,
                1 <= eaw_period <= 255 * 65535,
        ;
    }
    let eaw_diff = d * eaw_period;
    let aw_diff = (time_to_next_aw as i64) - (awdl_sync_next_aw_tu(now_usec, state) as i64);
    eaw_diff - aw_diff
}

/// The AW boundary implied by a master's "TUs to next AW", and its counter
/// with the low two bits cleared. Arithmetic wraps modulo 2^64.
pub open spec fn spec_update_last(now: u64, time_to_next_aw: u16, s: AwdlSyncState) -> u64 {
    wrapping_sub(
        now,
        wrapping_mul(1024, wrapping_sub(eaw_period(s) as u64, time_to_next_aw as u64)),
    )
}

/// Adopt the timing announced by the sync master.
pub fn awdl_sync_update_last(now_usec: u64, time_to_next_aw: u16, aw_counter: u16, state: &mut AwdlSyncState)
    requires
        sync_params_ok(*old(state)),
    ensures
        final(state).last_update == spec_update_last(now_usec, time_to_next_aw, *old(state)),
        final(state).aw_counter == aw_counter & 0xfffc,
        final(state).aw_period == old(state).aw_period,
        final(state).presence_mode == old(state).presence_mode,
        final(state).meas_err == old(state).meas_err,
        final(state).meas_total == old(state).meas_total,
{
    proof {
        lemma_eaw_bounds(*state);
    }
    let eaw_period = (state.presence_mode as u64) * (state.aw_period as u64);
    let back = 1024u64.wrapping_mul(eaw_period.wrapping_sub(time_to_next_aw as u64));
    state.last_update = now_usec.wrapping_sub(back);
    state.aw_counter = aw_counter & 0xfffc;
}


/// Resynchronization law: right after adopting a master's timing, the time to
/// the next AW boundary equals what the master announced (for announcements
/// between 1 and the extended AW period).
pub proof fn lemma_update_last_then_next_aw(now: u64, time_to_next_aw: u16, aw_counter: u16, s: AwdlSyncState)
    requires
        sync_params_ok(s),
        1 <= time_to_next_aw <= eaw_period(s),
    ensures
        ({
            let s2 = AwdlSyncState {
                last_update: spec_update_last(now, time_to_next_aw, s),
                aw_counter: aw_counter & 0xfffc,
                ..s
            };
            spec_next_aw_tu(now, s2) == time_to_next_aw
        }),
{
    lemma_eaw_bounds(s);
    let e = eaw_period(s);
    let d = e - time_to_next_aw as int;
    assert(0 <= d < e);
    let back = wrapping_mul(1024, wrapping_sub(e as u64, time_to_next_aw as u64));
    assert(wrapping_sub(e as u64, time_to_next_aw as u64) == d);
    assert(1024 * d <= u64::MAX) by (nonlinear_arith)
        requires
            0 <= d <= 255 * 65535,
    ;
    assert(back == 1024 * d) by {
        assert((1024 * d) % 0x10000000000000000 == 1024 * d);
    }
    let last = wrapping_sub(now, back);
    assert(wrapping_sub(now, last) == back);
    assert((1024 * d) / 1024 == d);
    assert(d % e == d) by {
        vstd::arithmetic::div_mod::lemma_small_mod(d as nat, e as nat);
    }
}

/// Resynchronization law: right after adopting a master's timing (for an
/// announced time to the next AW between 1 and the extended AW period, with
/// the AWDL presence mode of four AWs per extended AW), the error measured
/// against that same announcement is zero.
pub proof fn lemma_update_last_then_no_error(now: u64, time_to_next_aw: u16, aw_counter: u16, s: AwdlSyncState)
    requires
        sync_params_ok(s),
        s.presence_mode == 4,
        1 <= time_to_next_aw <= eaw_period(s),
    ensures
        ({
            let s2 = AwdlSyncState {
                last_update: spec_update_last(now, time_to_next_aw, s),
                aw_counter: aw_counter & 0xfffc,
                ..s
            };
            spec_sync_error_tu(now, time_to_next_aw, aw_counter, s2) == 0
        }),
{
    lemma_update_last_then_next_aw(now, time_to_next_aw, aw_counter, s);
    lemma_eaw_bounds(s);
    let s2 = AwdlSyncState {
        last_update: spec_update_last(now, time_to_next_aw, s),
        aw_counter: aw_counter & 0xfffc,
        ..s
    };
    let e = eaw_period(s);
    let a = s.aw_period as int;
    let d = e - time_to_next_aw as int;
    let back = wrapping_mul(1024, wrapping_sub(e as u64, time_to_next_aw as u64));
    assert(wrapping_sub(e as u64, time_to_next_aw as u64) == d);
    assert(1024 * d <= u64::MAX) by (nonlinear_arith)
        requires
            0 <= d <= 255 * 65535,
    ;
    assert(back == 1024 * d) by {
        assert((1024 * d) % 0x10000000000000000 == 1024 * d);
    }
    assert(wrapping_sub(now, s2.last_update) == back);
    assert((1024 * d) / 1024 == d);
    assert(tu_since(now, s2) == d);
    assert(eaw_period(s2) == e);
    assert(e == 4 * a);
    assert(d % e == d && d / e == 0) by {
        vstd::arithmetic::div_mod::lemma_small_mod(d as nat, e as nat);
        vstd::arithmetic::div_mod::lemma_basic_div(d, e);
    }
    let k = d / a;
    assert(0 <= k < 4) by (nonlinear_arith)
        requires
            k == d / a,
            0 <= d < 4 * a,
            a >= 1,
    ;
    let c = aw_counter;
    let q = c as int / 4;
    assert(c & 0xfffc == c - c % 4) by (bit_vector);
    assert(c as int == 4 * q + c as int % 4);
    let cur = (s2.aw_counter as int + k) as int;
    assert(cur == 4 * q + k);
    assert(cur <= 65535);
    assert(spec_current_aw(now, s2) as int == cur);
    assert(cur / 4 == q) by (nonlinear_arith)
        requires
            cur == 4 * q + k,
            0 <= k < 4,
    ;
    assert(spec_current_eaw(now, s2) as int == q);
}

/// The AW counter counts availability windows: with `t` whole TUs elapsed
/// since the last update, the current counter is the counter at that update
/// plus one per AW period elapsed, truncated to 16 bits; it does not start
/// over at extended-AW boundaries.
pub proof fn lemma_current_aw_counts_windows(now: u64, s: AwdlSyncState)
    requires
        sync_params_ok(s),
    ensures
        spec_current_aw(now, s) == (s.aw_counter as int + tu_since(now, s) / (s.aw_period as int)) as u16,
{
    lemma_eaw_bounds(s);
    let t = tu_since(now, s);
    let a = s.aw_period as int;
    let p = s.presence_mode as int;
    let e = eaw_period(s);
    assert(t >= 0);
    assert(e == p * a);
    let q = t / e;
    let r = t % e;
    vstd::arithmetic::div_mod::lemma_fundamental_div_mod(t, e);
    assert(0 <= r < e);
    let w = r / a;
    let rr = r % a;
    vstd::arithmetic::div_mod::lemma_fundamental_div_mod(r, a);
    assert(0 <= rr < a);
    assert(t == (p * q + w) * a + rr) by (nonlinear_arith)
        requires
            t == e * q + r,
            e == p * a,
            r == a * w + rr,
    ;
    vstd::arithmetic::div_mod::lemma_fundamental_div_mod_converse(t, a, p * q + w, rr);
    assert(t / a == w + p * q);
}

} // verus!
