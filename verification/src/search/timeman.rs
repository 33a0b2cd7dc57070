//! Time management: how long to think. Limits are kept in milliseconds.
use vstd::prelude::*;

verus! {

/// The wall-clock time in milliseconds since the Unix epoch, from `SystemTime::now`
/// (0 should the clock read earlier than the epoch). Nothing is stated of the value: it
/// is whatever the clock reads.
#[verifier::external_body]
fn now_ms() -> u64 {
    match std::time::SystemTime::now().duration_since(std::time::UNIX_EPOCH) {
        Ok(d) => d.as_millis() as u64,
        Err(_) => 0,
    }
}

#[derive(Debug, Clone)]
pub struct TimeManager {
    /// Wall-clock start time in milliseconds.
    pub start_ms: u64,
    /// Absolute stop, in milliseconds after the start — never exceed this.
    pub hard_limit: u64,
    /// Preferred stop, in milliseconds after the start.
    pub soft_limit: u64,
    /// Depth cap (0 = unlimited).
    pub max_depth: u32,
    /// Node cap (0 = unlimited).
    pub nodes_limit: u64,
    pub stopped: bool,
}

/// `a - b`, or 0 when `b` is larger.
pub open spec fn sat_sub(a: u64, b: u64) -> u64 {
    if a >= b { (a - b) as u64 } else { 0 }
}

/// The time to allot under a tournament control: a share of the remaining time plus
/// four fifths of the increment, at most half the remaining time.
pub open spec fn tournament_alloc(time_left: u64, increment: u64, mtg: u64) -> int {
    let a = time_left / mtg + increment * 4 / 5;
    if a < time_left / 2 { a } else { (time_left / 2) as int }
}

impl TimeManager {
    /// Whether the search was told to stop.
    pub closed spec fn is_stopped(&self) -> bool {
        self.stopped
    }

    /// A time manager started now with the given limits and no stop signal.
    pub fn with_limits(hard_limit: u64, soft_limit: u64, max_depth: u32, nodes_limit: u64) -> (t: Self)
        ensures
            t.hard_limit == hard_limit,
            t.soft_limit == soft_limit,
            t.max_depth == max_depth,
            t.nodes_limit == nodes_limit,
            !t.is_stopped(),
    {
        TimeManager { start_ms: now_ms(), hard_limit, soft_limit, max_depth, nodes_limit, stopped: false }
    }

    /// Create a time manager for tournament time controls.
    /// time_left: remaining time in ms, increment: per-move increment in ms.
    pub fn tournament(time_left: u64, increment: u64, moves_to_go: Option<u32>) -> (t: Self)
        requires
            moves_to_go != Some(0u32),
            increment * 4 <= u64::MAX,
            time_left / 40 + increment * 4 / 5 <= u64::MAX,
            time_left * 5 / 2 <= u64::MAX,
        ensures
            ({
                let mtg = match moves_to_go { Some(m) => m as u64, None => 40u64 };
                let alloc = tournament_alloc(time_left, increment, mtg);
                &&& t.soft_limit == alloc
                &&& t.hard_limit == (if alloc * 5 < sat_sub(time_left, 100) { alloc * 5 } else { sat_sub(time_left, 100) as int })
            }),
            t.max_depth == 0,
            t.nodes_limit == 0,
            !t.is_stopped(),
    {
        let mtg: u64 = match moves_to_go {
            Some(m) => m as u64,
            None => 40,
        };
        assert(time_left / mtg <= time_left / 1) by (nonlinear_arith)
            requires mtg >= 1;
        assert(time_left / mtg + increment * 4 / 5 <= u64::MAX) by (nonlinear_arith)
            requires mtg >= 1, time_left / 40 + increment * 4 / 5 <= u64::MAX || mtg < 40,
                time_left / mtg <= time_left, increment * 4 <= u64::MAX, time_left * 5 / 2 <= u64::MAX;
        let a = time_left / mtg + increment * 4 / 5;
        let alloc = if a < time_left / 2 { a } else { time_left / 2 };
        let budget = if time_left >= 100 { time_left - 100 } else { 0 };
        let hard = if alloc * 5 < budget { alloc * 5 } else { budget };
        TimeManager::with_limits(hard, alloc, 0, 0)
    }

    /// Create a time manager for fixed depth search; five minutes is a safety net.
    pub fn fixed_depth(depth: u32) -> (t: Self)
        ensures
            t.hard_limit == 300000,
            t.soft_limit == 300000,
            t.max_depth == depth,
            t.nodes_limit == 0,
            !t.is_stopped(),
    {
        TimeManager::with_limits(300000, 300000, depth, 0)
    }

    /// Create a time manager for infinite search (a day).
    pub fn infinite() -> (t: Self)
        ensures
            t.hard_limit == 86400000,
            t.soft_limit == 86400000,
            t.max_depth == 0,
            t.nodes_limit == 0,
            !t.is_stopped(),
    {
        TimeManager::with_limits(86400000, 86400000, 0, 0)
    }

    /// Elapsed milliseconds at clock reading `now`.
    pub fn elapsed_ms_at(&self, now: u64) -> (ms: u64)
        ensures
            ms == sat_sub(now, self.start_ms),
    {
        if now >= self.start_ms { now - self.start_ms } else { 0 }
    }

    /// Elapsed time since search started, in milliseconds.
    pub fn elapsed(&self) -> (ms: u64) {
        self.elapsed_ms()
    }

    /// Elapsed time in milliseconds.
    pub fn elapsed_ms(&self) -> (ms: u64) {
        let now = now_ms();
        self.elapsed_ms_at(now)
    }

    /// Past the hard limit at clock reading `now`, or stopped.
    pub fn is_hard_expired_at(&self, now: u64) -> (b: bool)
        ensures
            b == (self.is_stopped() || sat_sub(now, self.start_ms) >= self.hard_limit),
    {
        self.stopped || self.elapsed_ms_at(now) >= self.hard_limit
    }

    /// Past the soft limit at clock reading `now`, or stopped.
    pub fn is_soft_expired_at(&self, now: u64) -> (b: bool)
        ensures
            b == (self.is_stopped() || sat_sub(now, self.start_ms) >= self.soft_limit),
    {
        self.stopped || self.elapsed_ms_at(now) >= self.soft_limit
    }

    /// True if we've exceeded the hard time limit (must stop immediately).
    pub fn is_hard_expired(&self) -> (b: bool)
        ensures
            self.is_stopped() ==> b,
    {
        if self.stopped {
            return true;
        }
        let now = now_ms();
        self.is_hard_expired_at(now)
    }

    /// True if we've exceeded the soft time limit (should stop between iterations).
    pub fn is_soft_expired(&self) -> (b: bool)
        ensures
            self.is_stopped() ==> b,
    {
        if self.stopped {
            return true;
        }
        let now = now_ms();
        self.is_soft_expired_at(now)
    }

    /// True if we've hit the depth limit.
    pub fn depth_limit_reached(&self, depth: u32) -> (b: bool)
        ensures
            b == (self.max_depth > 0 && depth > self.max_depth),
    {
        self.max_depth > 0 && depth > self.max_depth
    }

    /// True if we've hit the node limit.
    pub fn nodes_limit_reached(&self, nodes: u64) -> (b: bool)
        ensures
            b == (self.nodes_limit > 0 && nodes >= self.nodes_limit),
    {
        self.nodes_limit > 0 && nodes >= self.nodes_limit
    }

    /// Signal the search to stop immediately (e.g., UCI "stop" command).
    pub fn stop(&mut self)
        ensures
            final(self).is_stopped(),
            final(self).start_ms == old(self).start_ms,
            final(self).hard_limit == old(self).hard_limit,
            final(self).soft_limit == old(self).soft_limit,
            final(self).max_depth == old(self).max_depth,
            final(self).nodes_limit == old(self).nodes_limit,
    {
        self.stopped = true;
    }

    /// Whether to look at the clock: every 4096 nodes.
    pub fn should_check(&self, nodes: u64) -> (b: bool)
        ensures
            b == (nodes % 4096 == 0),
    {
        proof {
            assert(nodes & 4095 == nodes % 4096) by (bit_vector);
        }
        nodes & 4095 == 0
    }
}

} // verus!
