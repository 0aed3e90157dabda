//! Duty-cycle throttling for CPU-bound work.
//!
//! A unit of compute that took `active` milliseconds of wall-clock time is
//! followed by an idle period sized so that the active share of the total
//! wall-clock time hits a configured duty-cycle target. The target is held
//! in permille (parts per thousand) so the computation stays in integers.

use vstd::prelude::*;

verus! {

/// Lowest duty-cycle target the controller will honour (1%).
pub const DUTY_MIN_PERMILLE: u32 = 10;

/// Highest duty-cycle target the controller will honour (50%).
pub const DUTY_MAX_PERMILLE: u32 = 500;

/// Minimum idle period, in milliseconds. Tiny active bursts would otherwise
/// produce near-zero sleeps that degenerate into busy-looping.
pub const MIN_IDLE_MS: u64 = 5;

/// Configuration of the throttled decode loop: how many prompt tokens are
/// fed per prefill step, the pauses injected between prefill chunks and
/// between generated tokens, the hard cap on generated tokens, and the
/// duty-cycle target for the throttle controller.
#[derive(Clone, Copy, Debug, PartialEq, Eq, Structural)]
pub struct ThrottleConfig {
    /// Prompt tokens fed per prefill step; at least 1.
    pub chunk_size: usize,
    /// Pause injected between prefill chunks, in milliseconds.
    pub chunk_delay: u64,
    /// Pause injected between generated tokens, in milliseconds.
    pub gen_delay: u64,
    /// Hard cap on the number of generated tokens.
    pub max_tokens: usize,
    /// Fraction of wall-clock time allowed to be active compute, in permille.
    pub target_duty: u32,
}

impl ThrottleConfig {
    /// A configuration is well formed when at least one token is fed per
    /// prefill step.
    pub open spec fn wf(&self) -> bool {
        self.chunk_size >= 1
    }
}

impl Default for ThrottleConfig {
    /// One token per chunk keeps CPU spikes minimal; the delays spread a
    /// short decode over minutes; twenty tokens are plenty for a one-word
    /// verdict.
    fn default() -> (c: ThrottleConfig)
        ensures
            c.chunk_size == 1,
            c.chunk_delay == 1250,
            c.gen_delay == 30000,
            c.max_tokens == 20,
            c.target_duty == 250,
            c.wf(),
    {
        ThrottleConfig {
            chunk_size: 1,
            chunk_delay: 1250,
            gen_delay: 30000,
            max_tokens: 20,
            target_duty: 250,
        }
    }
}

/// The duty-cycle target actually used: the caller's wish clamped to the
/// safe band, so a misconfigured value can neither starve a stage nor let
/// it monopolize a CPU.
pub open spec fn spec_clamp_duty(d: int) -> int {
    if d < DUTY_MIN_PERMILLE as int {
        DUTY_MIN_PERMILLE as int
    } else if d > DUTY_MAX_PERMILLE as int {
        DUTY_MAX_PERMILLE as int
    } else {
        d
    }
}

/// Idle period owed for `active` milliseconds of compute at a clamped
/// target of `d` permille, before the floor and the saturation cap:
/// `active * (1000 - d) / d`.
pub open spec fn spec_raw_idle(active: int, d: int) -> int
    recommends 0 < d,
{
    active * (1000 - d) / d
}

/// Idle period the controller actually injects: the raw idle, saturated
/// to `u64::MAX` and raised to the minimum floor.
pub open spec fn spec_idle(active: int, d: int) -> int
    recommends 0 < d,
{
    let raw = spec_raw_idle(active, d);
    let capped = if raw > u64::MAX as int { u64::MAX as int } else { raw };
    if capped < MIN_IDLE_MS as int { MIN_IDLE_MS as int } else { capped }
}

/// Clamp a requested duty-cycle target to the safe band.
pub fn clamp_duty(d: u32) -> (r: u32)
    ensures
        r as int == spec_clamp_duty(d as int),
        DUTY_MIN_PERMILLE <= r <= DUTY_MAX_PERMILLE,
{
    if d < DUTY_MIN_PERMILLE {
        DUTY_MIN_PERMILLE
    } else if d > DUTY_MAX_PERMILLE {
        DUTY_MAX_PERMILLE
    } else {
        d
    }
}

/// Compute the idle period, in milliseconds, owed for `active_ms`
/// milliseconds of compute at a duty-cycle target of `duty` permille
/// (clamped to the safe band before use).
pub fn idle_for(active_ms: u64, duty: u32) -> (r: u64)
    ensures
        r as int == spec_idle(active_ms as int, spec_clamp_duty(duty as int)),
{
    let d = clamp_duty(duty);
    let a128: u128 = active_ms as u128;
    let fac: u128 = (1000 - d) as u128;
    assert(a128 * fac <= u64::MAX as u128 * 1000) by (nonlinear_arith)
        requires a128 <= u64::MAX as u128 && fac <= 1000,
    {}
    let raw: u128 = a128 * fac / (d as u128);
    let capped: u64 = if raw > u64::MAX as u128 {
        u64::MAX
    } else {
        raw as u64
    };
    if capped < MIN_IDLE_MS {
        MIN_IDLE_MS
    } else {
        capped
    }
}

/// Duty-cycle law: for an active duration `a` and a clamped target of `d`
/// permille, the injected idle period realizes the target up to the
/// rounding of one integer division. The realized duty cycle
/// `a / (a + idle)` never exceeds the target (second clause, rearranged to
/// avoid division), and it meets the target exactly within rounding
/// whenever neither the minimum-idle floor nor the saturation cap is
/// binding (first clause).
pub proof fn law_duty_cycle(a: int, d: int)
    requires
        DUTY_MIN_PERMILLE as int <= d <= DUTY_MAX_PERMILLE as int,
        0 <= a,
        spec_raw_idle(a, d) <= u64::MAX as int,
    ensures
        MIN_IDLE_MS as int <= spec_raw_idle(a, d) ==> d * (a + spec_idle(a, d)) <= 1000 * a,
        1000 * a < d * (a + spec_idle(a, d)) + d,
{
    let raw = spec_raw_idle(a, d);
    let prod = a * (1000 - d);
    assert(0 <= prod) by (nonlinear_arith)
        requires 0 <= a && d <= 1000 && prod == a * (1000 - d),
    {}
    vstd::arithmetic::div_mod::lemma_fundamental_div_mod(prod, d);
    vstd::arithmetic::div_mod::lemma_mod_bound(prod, d);
    assert(d * raw <= prod < d * raw + d);
    assert(d * a + prod == 1000 * a) by (nonlinear_arith)
        requires prod == a * (1000 - d),
    {}
    let idle = spec_idle(a, d);
    if MIN_IDLE_MS as int <= raw {
        assert(idle == raw);
        assert(d * (a + raw) == d * a + d * raw) by (nonlinear_arith) {}
    } else {
        assert(idle >= raw);
        assert(d * (a + idle) >= d * (a + raw)) by (nonlinear_arith)
            requires 0 < d && idle >= raw,
        {}
        assert(d * (a + raw) == d * a + d * raw) by (nonlinear_arith) {}
    }
}

} // verus!
