use cruft_crawler::throttle::{
    clamp_duty, idle_for, ThrottleConfig, DUTY_MAX_PERMILLE, DUTY_MIN_PERMILLE, MIN_IDLE_MS,
};

#[test]
fn default_config() {
    let c = ThrottleConfig::default();
    assert_eq!(c.chunk_size, 1);
    assert_eq!(c.chunk_delay, 1250);
    assert_eq!(c.gen_delay, 30000);
    assert_eq!(c.max_tokens, 20);
    assert_eq!(c.target_duty, 250);
}

#[test]
fn duty_is_clamped_to_the_safe_band() {
    assert_eq!(clamp_duty(0), DUTY_MIN_PERMILLE);
    assert_eq!(clamp_duty(9), DUTY_MIN_PERMILLE);
    assert_eq!(clamp_duty(10), 10);
    assert_eq!(clamp_duty(250), 250);
    assert_eq!(clamp_duty(500), 500);
    assert_eq!(clamp_duty(501), DUTY_MAX_PERMILLE);
    assert_eq!(clamp_duty(1000), DUTY_MAX_PERMILLE);
}

#[test]
fn idle_formula_exact() {
    // active * (1000 - d) / d
    assert_eq!(idle_for(1000, 250), 3000);
    assert_eq!(idle_for(1000, 300), 2333);
    assert_eq!(idle_for(250, 500), 250);
    // a misconfigured target is clamped before use
    assert_eq!(idle_for(100, 1), 100 * 990 / 10);
}

#[test]
fn realized_duty_cycle_matches_target() {
    for (active, duty) in [(1000u64, 250u32), (1000, 300), (777, 123), (5000, 500), (60000, 10)] {
        let idle = idle_for(active, duty);
        let realized = active as f64 / (active + idle) as f64;
        let target = duty as f64 / 1000.0;
        // within the rounding of one integer division
        assert!(
            (realized - target).abs() < 0.001,
            "active {active} duty {duty} realized {realized}"
        );
        // and never above the target
        assert!(realized <= target + 0.001);
    }
}

#[test]
fn minimum_idle_floor() {
    // a tiny active burst must not produce a near-zero sleep
    assert_eq!(idle_for(0, 250), MIN_IDLE_MS);
    assert_eq!(idle_for(1, 500), MIN_IDLE_MS);
    // when the floor binds, the realized duty cycle is below the target
    let active = 1u64;
    let idle = idle_for(active, 500);
    let realized = active as f64 / (active + idle) as f64;
    assert!(realized < 0.5);
}
