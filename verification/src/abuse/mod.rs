//! Abuse detection for the game server: verdicts on what users want to do,
//! rate limiters, and escalation of punishments.
//!
//! Times are counted in nanoseconds: an instant is a number of nanoseconds
//! since a fixed point chosen by the caller, a duration a number of
//! nanoseconds.

use vstd::prelude::*;
use std::cmp::Ordering;

pub mod limiter;
pub mod severity;


verus! {

/// Unique identifier for a user.
#[derive(Debug, Clone, Copy, PartialEq, Eq, Hash, Structural)]
pub struct UserId(pub u64);

/// Punishment to be dealt to an abusive user.
#[derive(Debug, Clone)]
pub enum AbusePunishment {
    /// Show them a warning.
    Warn {
        /// The warning message, if any (a localization key).
        message: Option<String>,
    },
    /// Kick them from the session.
    Kick {
        /// Do not allow them to reconnect for this many nanoseconds.
        /// If None, they may reconnect immediately.
        timeout: Option<u64>,
        /// The warning message, if any (a localization key).
        message: Option<String>,
    },
    /// Ban their account (do not allow them to join any gameplay session).
    Ban {
        /// Make the ban temporary: allow them to play again after this many
        /// nanoseconds. If None, the ban is permanent.
        expiry: Option<u64>,
        /// The warning message, if any (a localization key).
        message: Option<String>,
    },
}

/// Decision made by an abuse detector regarding some action that a user
/// wants to perform.
#[derive(Debug, Clone)]
pub enum AbuseVerdict {
    /// User is okay, let them proceed to do what they want to do.
    Accept,
    /// User is suspect. Let them proceed, but flag them.
    Flag {
        /// Score value to indicate how bad the violation is.
        severity: u32,
    },
    /// User is suspect. Do not allow them to do what they want to do.
    Deny {
        /// Score value to indicate how bad the violation is.
        severity: u32,
        /// Optionally, punish the user. If None, just flag them.
        punishment: Option<AbusePunishment>,
    },
}

/// The sign of a comparison: -1, 0 or 1.
pub open spec fn ordering_sign(o: Ordering) -> int {
    match o {
        Ordering::Less => -1,
        Ordering::Equal => 0,
        Ordering::Greater => 1,
    }
}

/// The sign of comparing two 64-bit numbers.
pub open spec fn u64_order(a: u64, b: u64) -> int {
    if a < b { -1 } else if a == b { 0 } else { 1 }
}

/// The sign of comparing two 32-bit numbers.
pub open spec fn u32_order(a: u32, b: u32) -> int {
    if a < b { -1 } else if a == b { 0 } else { 1 }
}

/// How two punishments compare: warnings below kicks below bans; kicks by
/// timeout (no timeout lowest); bans by expiry (a permanent ban highest).
/// Messages play no part.
pub open spec fn punishment_order(a: AbusePunishment, b: AbusePunishment) -> int {
    match (a, b) {
        (AbusePunishment::Warn { .. }, AbusePunishment::Warn { .. }) => 0,
        (AbusePunishment::Kick { timeout: ta, .. }, AbusePunishment::Kick { timeout: tb, .. }) => match (ta, tb) {
            (None, None) => 0,
            (None, Some(_)) => -1,
            (Some(_), None) => 1,
            (Some(x), Some(y)) => u64_order(x, y),
        },
        (AbusePunishment::Ban { expiry: ea, .. }, AbusePunishment::Ban { expiry: eb, .. }) => match (ea, eb) {
            (None, None) => 0,
            (None, Some(_)) => 1,
            (Some(_), None) => -1,
            (Some(x), Some(y)) => u64_order(x, y),
        },
        (AbusePunishment::Warn { .. }, _) => -1,
        (AbusePunishment::Kick { .. }, AbusePunishment::Warn { .. }) => 1,
        (AbusePunishment::Kick { .. }, AbusePunishment::Ban { .. }) => -1,
        (AbusePunishment::Ban { .. }, _) => 1,
    }
}

/// How two optional punishments compare: none below any.
pub open spec fn opt_punishment_order(a: Option<AbusePunishment>, b: Option<AbusePunishment>) -> int {
    match (a, b) {
        (None, None) => 0,
        (None, Some(_)) => -1,
        (Some(_), None) => 1,
        (Some(x), Some(y)) => punishment_order(x, y),
    }
}

/// How two verdicts compare: accept below flag below deny; flags by
/// severity; denials by punishment, then by severity.
pub open spec fn verdict_order(a: AbuseVerdict, b: AbuseVerdict) -> int {
    match (a, b) {
        (AbuseVerdict::Accept, AbuseVerdict::Accept) => 0,
        (AbuseVerdict::Flag { severity: x }, AbuseVerdict::Flag { severity: y }) => u32_order(x, y),
        (AbuseVerdict::Deny { severity: sa, punishment: pa }, AbuseVerdict::Deny { severity: sb, punishment: pb }) =>
            if opt_punishment_order(pa, pb) != 0 {
                opt_punishment_order(pa, pb)
            } else {
                u32_order(sa, sb)
            },
        (AbuseVerdict::Accept, _) => -1,
        (_, AbuseVerdict::Accept) => 1,
        (AbuseVerdict::Flag { .. }, AbuseVerdict::Deny { .. }) => -1,
        (AbuseVerdict::Deny { .. }, AbuseVerdict::Flag { .. }) => 1,
    }
}

/// The severity score of a verdict (0 for accept).
pub open spec fn severity_of(v: AbuseVerdict) -> u32 {
    match v {
        AbuseVerdict::Accept => 0,
        AbuseVerdict::Flag { severity } => severity,
        AbuseVerdict::Deny { severity, .. } => severity,
    }
}

/// The larger of two verdicts; the second when they compare equal.
pub open spec fn verdict_max(a: AbuseVerdict, b: AbuseVerdict) -> AbuseVerdict {
    if verdict_order(a, b) <= 0 { b } else { a }
}

fn copy_message(m: &Option<String>) -> (r: Option<String>)
    ensures
        r == *m,
{
    match m {
        Some(s) => Some(s.clone()),
        None => None,
    }
}

impl AbusePunishment {
    /// A copy of the punishment.
    pub fn duplicate(&self) -> (r: Self)
        ensures
            r == *self,
    {
        match self {
            AbusePunishment::Warn { message } => AbusePunishment::Warn { message: copy_message(message) },
            AbusePunishment::Kick { timeout, message } => AbusePunishment::Kick { timeout: *timeout, message: copy_message(message) },
            AbusePunishment::Ban { expiry, message } => AbusePunishment::Ban { expiry: *expiry, message: copy_message(message) },
        }
    }

    /// Whether two punishments are the same kind with the same timeout or
    /// expiry (messages play no part).
    pub fn same_as(&self, other: &Self) -> (r: bool)
        ensures
            r == (punishment_order(*self, *other) == 0),
    {
        match (self, other) {
            (AbusePunishment::Warn { .. }, AbusePunishment::Warn { .. }) => true,
            (AbusePunishment::Kick { timeout: a, .. }, AbusePunishment::Kick { timeout: b, .. }) => match (a, b) {
                (None, None) => true,
                (Some(x), Some(y)) => *x == *y,
                _ => false,
            },
            (AbusePunishment::Ban { expiry: a, .. }, AbusePunishment::Ban { expiry: b, .. }) => match (a, b) {
                (None, None) => true,
                (Some(x), Some(y)) => *x == *y,
                _ => false,
            },
            _ => false,
        }
    }

    /// Compare two punishments (see `punishment_order`).
    pub fn cmp(&self, other: &Self) -> (r: Ordering)
        ensures
            ordering_sign(r) == punishment_order(*self, *other),
    {
        match (self, other) {
            (AbusePunishment::Warn { .. }, AbusePunishment::Warn { .. }) => Ordering::Equal,
            (AbusePunishment::Kick { timeout: a, .. }, AbusePunishment::Kick { timeout: b, .. }) => match (a, b) {
                (None, None) => Ordering::Equal,
                (None, Some(_)) => Ordering::Less,
                (Some(_), None) => Ordering::Greater,
                (Some(x), Some(y)) => cmp_u64(*x, *y),
            },
            (AbusePunishment::Ban { expiry: a, .. }, AbusePunishment::Ban { expiry: b, .. }) => match (a, b) {
                (None, None) => Ordering::Equal,
                (None, Some(_)) => Ordering::Greater,
                (Some(_), None) => Ordering::Less,
                (Some(x), Some(y)) => cmp_u64(*x, *y),
            },
            (AbusePunishment::Warn { .. }, _) => Ordering::Less,
            (AbusePunishment::Kick { .. }, AbusePunishment::Warn { .. }) => Ordering::Greater,
            (AbusePunishment::Kick { .. }, AbusePunishment::Ban { .. }) => Ordering::Less,
            (AbusePunishment::Ban { .. }, _) => Ordering::Greater,
        }
    }
}

fn cmp_u64(x: u64, y: u64) -> (r: Ordering)
    ensures
        ordering_sign(r) == u64_order(x, y),
{
    if x < y {
        Ordering::Less
    } else if x == y {
        Ordering::Equal
    } else {
        Ordering::Greater
    }
}

fn cmp_u32(x: u32, y: u32) -> (r: Ordering)
    ensures
        ordering_sign(r) == u32_order(x, y),
{
    if x < y {
        Ordering::Less
    } else if x == y {
        Ordering::Equal
    } else {
        Ordering::Greater
    }
}

fn cmp_opt_punishment(a: &Option<AbusePunishment>, b: &Option<AbusePunishment>) -> (r: Ordering)
    ensures
        ordering_sign(r) == opt_punishment_order(*a, *b),
{
    match (a, b) {
        (None, None) => Ordering::Equal,
        (None, Some(_)) => Ordering::Less,
        (Some(_), None) => Ordering::Greater,
        (Some(x), Some(y)) => x.cmp(y),
    }
}

impl AbuseVerdict {
    /// The severity score of the verdict (0 for accept).
    pub fn severity(&self) -> (r: u32)
        ensures
            r == severity_of(*self),
    {
        match self {
            AbuseVerdict::Accept => 0,
            AbuseVerdict::Flag { severity } => *severity,
            AbuseVerdict::Deny { severity, .. } => *severity,
        }
    }

    /// A copy of the verdict.
    pub fn duplicate(&self) -> (r: Self)
        ensures
            r == *self,
    {
        match self {
            AbuseVerdict::Accept => AbuseVerdict::Accept,
            AbuseVerdict::Flag { severity } => AbuseVerdict::Flag { severity: *severity },
            AbuseVerdict::Deny { severity, punishment } => AbuseVerdict::Deny {
                severity: *severity,
                punishment: match punishment {
                    Some(p) => Some(p.duplicate()),
                    None => None,
                },
            },
        }
    }

    /// Compare two verdicts (see `verdict_order`).
    pub fn cmp(&self, other: &Self) -> (r: Ordering)
        ensures
            ordering_sign(r) == verdict_order(*self, *other),
    {
        match (self, other) {
            (AbuseVerdict::Accept, AbuseVerdict::Accept) => Ordering::Equal,
            (AbuseVerdict::Flag { severity: a }, AbuseVerdict::Flag { severity: b }) => cmp_u32(*a, *b),
            (AbuseVerdict::Deny { severity: sa, punishment: pa }, AbuseVerdict::Deny { severity: sb, punishment: pb }) => {
                match cmp_opt_punishment(pa, pb) {
                    Ordering::Equal => cmp_u32(*sa, *sb),
                    ord => ord,
                }
            },
            (AbuseVerdict::Accept, _) => Ordering::Less,
            (_, AbuseVerdict::Accept) => Ordering::Greater,
            (AbuseVerdict::Flag { .. }, AbuseVerdict::Deny { .. }) => Ordering::Less,
            (AbuseVerdict::Deny { .. }, AbuseVerdict::Flag { .. }) => Ordering::Greater,
        }
    }

    /// The larger of two verdicts; `other` when they compare equal.
    pub fn max(self, other: Self) -> (r: Self)
        ensures
            r == verdict_max(self, other),
    {
        match self.cmp(&other) {
            Ordering::Greater => self,
            _ => other,
        }
    }
}

/// Comparing punishments is antisymmetric.
pub proof fn lemma_punishment_order_antisymmetric(a: AbusePunishment, b: AbusePunishment)
    ensures
        punishment_order(a, b) == -punishment_order(b, a),
        -1 <= punishment_order(a, b) <= 1,
{
}

/// Comparing punishments is transitive.
pub proof fn lemma_punishment_order_transitive(a: AbusePunishment, b: AbusePunishment, c: AbusePunishment)
    requires
        punishment_order(a, b) <= 0,
        punishment_order(b, c) <= 0,
    ensures
        punishment_order(a, c) <= 0,
        punishment_order(a, b) < 0 || punishment_order(b, c) < 0 ==> punishment_order(a, c) < 0,
{
}

/// Comparing verdicts is antisymmetric: `a` is below `b` exactly when `b`
/// is above `a`, and equal exactly when `b` is equal to `a`.
pub proof fn lemma_verdict_order_antisymmetric(a: AbuseVerdict, b: AbuseVerdict)
    ensures
        verdict_order(a, b) == -verdict_order(b, a),
        -1 <= verdict_order(a, b) <= 1,
{
    match (a, b) {
        (AbuseVerdict::Deny { punishment: pa, .. }, AbuseVerdict::Deny { punishment: pb, .. }) => {
            if let (Some(x), Some(y)) = (pa, pb) {
                lemma_punishment_order_antisymmetric(x, y);
            }
        },
        _ => {},
    }
}

/// Comparing verdicts is transitive.
pub proof fn lemma_verdict_order_transitive(a: AbuseVerdict, b: AbuseVerdict, c: AbuseVerdict)
    requires
        verdict_order(a, b) <= 0,
        verdict_order(b, c) <= 0,
    ensures
        verdict_order(a, c) <= 0,
        verdict_order(a, b) < 0 || verdict_order(b, c) < 0 ==> verdict_order(a, c) < 0,
{
    match (a, b, c) {
        (AbuseVerdict::Deny { punishment: pa, .. }, AbuseVerdict::Deny { punishment: pb, .. }, AbuseVerdict::Deny { punishment: pc, .. }) => {
            match (pa, pb, pc) {
                (Some(x), Some(y), Some(z)) => {
                    lemma_punishment_order_antisymmetric(x, y);
                    lemma_punishment_order_antisymmetric(y, z);
                    lemma_punishment_order_antisymmetric(x, z);
                    if punishment_order(x, y) <= 0 && punishment_order(y, z) <= 0 {
                        lemma_punishment_order_transitive(x, y, z);
                    }
                },
                _ => {},
            }
        },
        _ => {},
    }
}

/// The total severity of some verdicts.
pub open spec fn total_severity(vs: Seq<AbuseVerdict>) -> int
    decreases vs.len(),
{
    if vs.len() == 0 { 0 } else { total_severity(vs.drop_last()) + severity_of(vs.last()) }
}

/// The largest of some verdicts (accept if none), taken in order: of equal
/// ones, the last.
pub open spec fn max_verdict(vs: Seq<AbuseVerdict>) -> AbuseVerdict
    decreases vs.len(),
{
    if vs.len() == 0 { AbuseVerdict::Accept } else { verdict_max(max_verdict(vs.drop_last()), vs.last()) }
}

/// The combined verdict of several detectors: the kind (and punishment) of
/// the most severe verdict, with the total of all severities.
pub open spec fn combined_verdict(vs: Seq<AbuseVerdict>) -> AbuseVerdict {
    match max_verdict(vs) {
        AbuseVerdict::Accept => AbuseVerdict::Accept,
        AbuseVerdict::Flag { .. } => AbuseVerdict::Flag { severity: total_severity(vs) as u32 },
        AbuseVerdict::Deny { punishment, .. } => AbuseVerdict::Deny { severity: total_severity(vs) as u32, punishment },
    }
}

/// Combinator to use multiple abuse detectors.
///
/// Each of the detectors is queried. The final verdict is the most severe
/// one of all of them, and its severity is the sum of all severities. This
/// allows using, for example, a rate limiter and an anti-cheat together.
pub struct AbuseMultiDetector {}

impl AbuseMultiDetector {
    /// A combinator.
    pub fn new() -> (r: Self) {
        AbuseMultiDetector {}
    }

    /// Combine the verdicts that the detectors gave for one action.
    pub fn verify_game_input(&self, verdicts: &[AbuseVerdict]) -> (r: AbuseVerdict)
        requires
            total_severity(verdicts@) <= u32::MAX,
        ensures
            r == combined_verdict(verdicts@),
    {
        let mut total: u32 = 0;
        let mut final_verdict = AbuseVerdict::Accept;
        let mut i: usize = 0;
        while i < verdicts.len()
            invariant
                i <= verdicts@.len(),
                total == total_severity(verdicts@.subrange(0, i as int)),
                final_verdict == max_verdict(verdicts@.subrange(0, i as int)),
                total_severity(verdicts@) <= u32::MAX,
            decreases verdicts@.len() - i,
        {
            proof {
                let pre = verdicts@.subrange(0, i + 1);
                assert(pre.drop_last() =~= verdicts@.subrange(0, i as int));
                lemma_total_severity_prefix(verdicts@, i + 1);
            }
            let v = verdicts[i].duplicate();
            total = total + v.severity();
            final_verdict = final_verdict.max(v);
            i = i + 1;
        }
        assert(verdicts@.subrange(0, i as int) =~= verdicts@);
        match final_verdict {
            AbuseVerdict::Accept => AbuseVerdict::Accept,
            AbuseVerdict::Flag { .. } => AbuseVerdict::Flag { severity: total },
            AbuseVerdict::Deny { punishment, .. } => AbuseVerdict::Deny { severity: total, punishment },
        }
    }
}

/// The severities of a prefix add up to no more than those of the whole.
proof fn lemma_total_severity_prefix(vs: Seq<AbuseVerdict>, n: int)
    requires
        0 <= n <= vs.len(),
    ensures
        total_severity(vs.subrange(0, n)) <= total_severity(vs),
        total_severity(vs.subrange(0, n)) >= 0,
    decreases vs.len(),
{
    if n == vs.len() {
        assert(vs.subrange(0, n) =~= vs);
        lemma_total_severity_nonneg(vs);
    } else {
        lemma_total_severity_prefix(vs.drop_last(), n);
        assert(vs.drop_last().subrange(0, n) =~= vs.subrange(0, n));
    }
}

proof fn lemma_total_severity_nonneg(vs: Seq<AbuseVerdict>)
    ensures
        total_severity(vs) >= 0,
    decreases vs.len(),
{
    if vs.len() > 0 {
        lemma_total_severity_nonneg(vs.drop_last());
    }
}

/// No verdict in the list is more severe than the largest one: when one
/// detector denies, the combination cannot end up accepting.
pub proof fn lemma_max_verdict_dominates(vs: Seq<AbuseVerdict>, i: int)
    requires
        0 <= i < vs.len(),
    ensures
        verdict_order(vs[i], max_verdict(vs)) <= 0,
    decreases vs.len(),
{
    let m = max_verdict(vs.drop_last());
    lemma_verdict_order_antisymmetric(m, vs.last());
    if i == vs.len() - 1 {
        lemma_verdict_order_antisymmetric(vs.last(), vs.last());
    } else {
        lemma_max_verdict_dominates(vs.drop_last(), i);
        assert(vs.drop_last()[i] == vs[i]);
        if verdict_order(m, vs.last()) <= 0 {
            lemma_verdict_order_transitive(vs[i], m, vs.last());
        }
    }
}

/// How severe each punishment is: a warning is below every kick, and a kick
/// below every ban, whatever their messages. A kick without a timeout is the
/// mildest kick, and of two timeouts the longer one is more severe. A
/// permanent ban (no expiry) is more severe than every temporary one, and of
/// two expiries the later one is more severe.
pub proof fn lemma_punishment_severity_levels()
    ensures
        forall|m1: Option<String>, m2: Option<String>, t: Option<u64>|
            punishment_order(AbusePunishment::Warn { message: m1 }, AbusePunishment::Kick { timeout: t, message: m2 }) < 0,
        forall|m1: Option<String>, m2: Option<String>, e: Option<u64>|
            punishment_order(AbusePunishment::Warn { message: m1 }, AbusePunishment::Ban { expiry: e, message: m2 }) < 0,
        forall|m1: Option<String>, m2: Option<String>, t: Option<u64>, e: Option<u64>|
            punishment_order(AbusePunishment::Kick { timeout: t, message: m1 }, AbusePunishment::Ban { expiry: e, message: m2 }) < 0,
        forall|m1: Option<String>, m2: Option<String>, t: u64|
            punishment_order(AbusePunishment::Kick { timeout: None, message: m1 }, AbusePunishment::Kick { timeout: Some(t), message: m2 }) < 0,
        forall|m1: Option<String>, m2: Option<String>, a: u64, b: u64| a < b ==>
            punishment_order(AbusePunishment::Kick { timeout: Some(a), message: m1 }, AbusePunishment::Kick { timeout: Some(b), message: m2 }) < 0,
        forall|m1: Option<String>, m2: Option<String>, e: u64|
            punishment_order(AbusePunishment::Ban { expiry: None, message: m1 }, AbusePunishment::Ban { expiry: Some(e), message: m2 }) > 0,
        forall|m1: Option<String>, m2: Option<String>, a: u64, b: u64| a < b ==>
            punishment_order(AbusePunishment::Ban { expiry: Some(a), message: m1 }, AbusePunishment::Ban { expiry: Some(b), message: m2 }) < 0,
        forall|m1: Option<String>, m2: Option<String>|
            punishment_order(AbusePunishment::Warn { message: m1 }, AbusePunishment::Warn { message: m2 }) == 0,
        forall|m1: Option<String>, m2: Option<String>, t: Option<u64>|
            punishment_order(AbusePunishment::Kick { timeout: t, message: m1 }, AbusePunishment::Kick { timeout: t, message: m2 }) == 0,
        forall|m1: Option<String>, m2: Option<String>, e: Option<u64>|
            punishment_order(AbusePunishment::Ban { expiry: e, message: m1 }, AbusePunishment::Ban { expiry: e, message: m2 }) == 0,
{
}

/// Combining verdicts never softens a punishment: when one detector denies
/// with a punishment, the combined verdict denies with a punishment at least
/// as severe; in particular a permanent ban from any detector stays a
/// permanent ban.
pub proof fn lemma_combined_keeps_harshest_punishment(vs: Seq<AbuseVerdict>, i: int)
    requires
        0 <= i < vs.len(),
        vs[i] matches AbuseVerdict::Deny { punishment: Some(_), .. },
    ensures
        combined_verdict(vs) matches AbuseVerdict::Deny { punishment: Some(q), .. }
            && punishment_order(vs[i]->Deny_punishment->0, q) <= 0,
        (vs[i]->Deny_punishment->0 matches AbusePunishment::Ban { expiry: None, .. }) ==>
            (combined_verdict(vs) matches AbuseVerdict::Deny { punishment: Some(AbusePunishment::Ban { expiry: None, .. }), .. }),
{
    lemma_max_verdict_dominates(vs, i);
}

/// Dummy abuse detector that always accepts everything.
pub struct AlwaysAcceptAbuse;

impl AlwaysAcceptAbuse {
    /// Accept any action.
    pub fn verify_game_input(&mut self, user: UserId, now: u64) -> (r: AbuseVerdict)
        ensures
            r == AbuseVerdict::Accept,
    {
        AbuseVerdict::Accept
    }
}

} // verus!
