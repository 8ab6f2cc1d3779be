use minewars::abuse::limiter::{PerActionRateLimiter, SimpleRateLimiter};
use minewars::abuse::severity::DenyPastSeverity;
use minewars::abuse::{AbuseMultiDetector, AbusePunishment, AbuseVerdict, AlwaysAcceptAbuse, UserId};
use std::cmp::Ordering;

const MS: u64 = 1_000_000;

fn severity(v: &AbuseVerdict) -> u32 {
    v.severity()
}

#[test]
fn simple_rate_limiter_verdicts() {
    let mut rl = SimpleRateLimiter::new()
        .with_verdict(100 * MS, AbuseVerdict::Flag { severity: 1 })
        .with_verdict(10 * MS, AbuseVerdict::Deny { severity: 5, punishment: None });
    let u = UserId(7);
    // the first action of a user is accepted
    assert!(matches!(rl.verify_game_input(u, 0), AbuseVerdict::Accept));
    // too soon: the first threshold at or above the elapsed time
    assert!(matches!(rl.verify_game_input(u, 5 * MS), AbuseVerdict::Deny { severity: 5, .. }));
    assert!(matches!(rl.verify_game_input(u, 55 * MS), AbuseVerdict::Flag { severity: 1 }));
    // longer than the largest threshold: accepted
    assert!(matches!(rl.verify_game_input(u, 300 * MS), AbuseVerdict::Accept));
    // other users are independent
    assert!(matches!(rl.verify_game_input(UserId(8), 301 * MS), AbuseVerdict::Accept));
}

#[test]
fn simple_rate_limiter_without_thresholds_accepts() {
    let mut rl = SimpleRateLimiter::new();
    assert!(matches!(rl.verify_game_input(UserId(1), 0), AbuseVerdict::Accept));
    assert!(matches!(rl.verify_game_input(UserId(1), 0), AbuseVerdict::Accept));
}

#[test]
fn per_action_rate_limiter() {
    let mut rl = PerActionRateLimiter::new().with_verdict(1, 50 * MS, AbuseVerdict::Flag { severity: 3 });
    let u = UserId(2);
    assert!(matches!(rl.verify_game_input(u, 0, 1), AbuseVerdict::Accept));
    assert!(matches!(rl.verify_game_input(u, 10 * MS, 1), AbuseVerdict::Flag { severity: 3 }));
    // an action kind without thresholds is always accepted
    assert!(matches!(rl.verify_game_input(u, 11 * MS, 2), AbuseVerdict::Accept));
    assert!(matches!(rl.verify_game_input(u, 12 * MS, 2), AbuseVerdict::Accept));
}

#[test]
fn verdict_order_and_max() {
    let accept = AbuseVerdict::Accept;
    let flag = AbuseVerdict::Flag { severity: 10 };
    let deny = AbuseVerdict::Deny { severity: 1, punishment: None };
    let kick = AbuseVerdict::Deny { severity: 1, punishment: Some(AbusePunishment::Kick { timeout: None, message: None }) };
    assert_eq!(accept.cmp(&flag), Ordering::Less);
    assert_eq!(flag.cmp(&deny), Ordering::Less);
    assert_eq!(deny.cmp(&kick), Ordering::Less);
    assert_eq!(kick.cmp(&deny), Ordering::Greater);
    assert_eq!(flag.cmp(&flag.duplicate()), Ordering::Equal);
    assert!(matches!(flag.duplicate().max(kick.duplicate()), AbuseVerdict::Deny { punishment: Some(AbusePunishment::Kick { .. }), .. }));
    assert!(matches!(accept.max(flag), AbuseVerdict::Flag { severity: 10 }));
    let warn = AbusePunishment::Warn { message: Some("a".to_string()) };
    let ban = AbusePunishment::Ban { expiry: Some(5), message: None };
    assert_eq!(warn.cmp(&ban), Ordering::Less);
    assert!(warn.same_as(&AbusePunishment::Warn { message: None }));
    assert!(!ban.same_as(&AbusePunishment::Ban { expiry: None, message: None }));
}

#[test]
fn multi_detector_combines() {
    let d = AbuseMultiDetector::new();
    let verdicts = vec![
        AbuseVerdict::Flag { severity: 2 },
        AbuseVerdict::Deny { severity: 3, punishment: None },
        AbuseVerdict::Accept,
    ];
    // the largest verdict, with the total severity
    assert!(matches!(d.verify_game_input(&verdicts), AbuseVerdict::Deny { severity: 5, punishment: None }));
    assert!(matches!(d.verify_game_input(&[]), AbuseVerdict::Accept));
    assert!(matches!(d.verify_game_input(&[AbuseVerdict::Flag { severity: 1 }, AbuseVerdict::Flag { severity: 4 }]), AbuseVerdict::Flag { severity: 5 }));
}

#[test]
fn always_accept() {
    let mut d = AlwaysAcceptAbuse;
    assert!(matches!(d.verify_game_input(UserId(1), 0), AbuseVerdict::Accept));
}

#[test]
fn deny_past_severity_escalates() {
    let mut d = DenyPastSeverity::new(AlwaysAcceptAbuse)
        .with_punishment(10, Some(AbusePunishment::Warn { message: None }))
        .with_punishment(20, Some(AbusePunishment::Ban { expiry: None, message: None }));
    let u = UserId(3);
    let flag = || AbuseVerdict::Flag { severity: 6 };
    // the first flag is recorded and stands
    assert!(matches!(d.verify_game_input(u, 0, flag(), 0), AbuseVerdict::Flag { severity: 6 }));
    assert_eq!(d.score(u), 6);
    // past the first threshold: denied with its punishment
    let v = d.verify_game_input(u, 1, flag(), 0);
    assert!(matches!(v, AbuseVerdict::Deny { severity: 6, punishment: Some(AbusePunishment::Warn { .. }) }));
    assert_eq!(d.score(u), 12);
    // accepted actions are denied too, with the inner severity
    let v = d.verify_game_input(u, 2, AbuseVerdict::Accept, 0);
    assert!(matches!(v, AbuseVerdict::Deny { severity: 0, punishment: Some(AbusePunishment::Warn { .. }) }));
    let v = d.verify_game_input(u, 3, AbuseVerdict::Flag { severity: 9 }, 0);
    assert!(matches!(v, AbuseVerdict::Deny { severity: 9, punishment: Some(AbusePunishment::Ban { .. }) }));
    assert_eq!(severity(&v), 9);
    d.reset_user(u);
    assert_eq!(d.score(u), 0);
}

#[test]
fn deny_past_severity_forgives() {
    let mut d = DenyPastSeverity::new(AlwaysAcceptAbuse)
        .with_punishment(100, None)
        .with_threshold_reset(Some(1000));
    let u = UserId(4);
    d.verify_game_input(u, 0, AbuseVerdict::Flag { severity: 50 }, 0);
    assert_eq!(d.score(u), 50);
    // an accepted action long enough after the last one resets the score
    assert!(matches!(d.verify_game_input(u, 5000, AbuseVerdict::Accept, 0), AbuseVerdict::Accept));
    assert_eq!(d.score(u), 0);

    let mut c = DenyPastSeverity::new(AlwaysAcceptAbuse).with_punishment(100, None).with_cooloff_rate(Some(10));
    c.verify_game_input(u, 0, AbuseVerdict::Flag { severity: 50 }, 0);
    assert_eq!(c.elapsed_since_last(u, 7), Some(7));
    c.verify_game_input(u, 7, AbuseVerdict::Accept, 20);
    assert_eq!(c.score(u), 30);
    assert_eq!(c.subtract_score(u, 5), 25);
    c.reset_all();
    assert_eq!(c.score(u), 0);
}

#[test]
fn deny_past_severity_first_flag_over_threshold() {
    let mut d = DenyPastSeverity::new(AlwaysAcceptAbuse)
        .with_punishment(5, Some(AbusePunishment::Warn { message: None }));
    let u = UserId(9);
    let v = d.verify_game_input(u, 0, AbuseVerdict::Flag { severity: 10 }, 0);
    assert!(matches!(v, AbuseVerdict::Deny { severity: 10, punishment: Some(AbusePunishment::Warn { .. }) }));
    assert_eq!(d.score(u), 10);
}

#[test]
fn rate_limit_threshold_is_strict() {
    let mut rl = SimpleRateLimiter::new()
        .with_verdict(100 * MS, AbuseVerdict::Flag { severity: 1 })
        .with_verdict(10 * MS, AbuseVerdict::Deny { severity: 5, punishment: None });
    let u = UserId(5);
    assert!(matches!(rl.verify_game_input(u, 0), AbuseVerdict::Accept));
    // exactly at the lower threshold: not less than it, so the next one applies
    assert!(matches!(rl.verify_game_input(u, 10 * MS), AbuseVerdict::Flag { severity: 1 }));
    // exactly at the largest threshold: accepted
    assert!(matches!(rl.verify_game_input(u, 110 * MS), AbuseVerdict::Accept));
    let mut pa = PerActionRateLimiter::new().with_verdict(1, 50 * MS, AbuseVerdict::Flag { severity: 3 });
    assert!(matches!(pa.verify_game_input(u, 0, 1), AbuseVerdict::Accept));
    assert!(matches!(pa.verify_game_input(u, 50 * MS, 1), AbuseVerdict::Accept));
}
