//! Escalation: deny and punish users once their accumulated severity score
//! passes configured thresholds.

use vstd::prelude::*;
use std::collections::HashMap;
use super::{AbusePunishment, AbuseVerdict, UserId, severity_of};
use super::limiter::elapsed;

verus! {

broadcast use vstd::std_specs::hash::group_hash_axioms;

/// A punishment for each score threshold.
pub type PunishThresholds = Seq<(u32, Option<AbusePunishment>)>;

/// The thresholds are in ascending order.
pub open spec fn sorted_punish(ts: PunishThresholds) -> bool {
    forall|i: int, j: int| 0 <= i <= j < ts.len() ==> ts[i].0 <= ts[j].0
}

/// `i` is the first index whose threshold is at least `t`.
pub open spec fn is_first_punish_at_or_above(ts: PunishThresholds, t: u32, i: int) -> bool {
    &&& 0 <= i <= ts.len()
    &&& forall|k: int| 0 <= k < i ==> ts[k].0 < t
    &&& i < ts.len() ==> ts[i].0 >= t
}

/// The first index whose threshold is at least `t`.
pub open spec fn first_punish_at_or_above(ts: PunishThresholds, t: u32) -> int {
    choose|i: int| is_first_punish_at_or_above(ts, t, i)
}

/// The thresholds with a new one inserted before those that are not lower.
pub open spec fn punish_add(ts: PunishThresholds, threshold: u32, punishment: Option<AbusePunishment>) -> PunishThresholds {
    ts.insert(first_punish_at_or_above(ts, threshold), (threshold, punishment))
}

/// The index of the last threshold that `total` reaches, or -1.
pub open spec fn last_reached(ts: PunishThresholds, total: u32) -> int
    decreases ts.len(),
{
    if ts.len() == 0 {
        -1
    } else if total >= ts.last().0 {
        ts.len() - 1
    } else {
        last_reached(ts.drop_last(), total)
    }
}

/// The verdict given for a user whose score is now `total`: the inner
/// verdict below the first threshold; past it, a denial with the inner
/// severity and the punishment of the last threshold reached.
pub open spec fn escalate(ts: PunishThresholds, total: u32, verdict: AbuseVerdict) -> AbuseVerdict {
    if total < ts[0].0 {
        verdict
    } else if last_reached(ts, total) >= 0 {
        AbuseVerdict::Deny { severity: severity_of(verdict), punishment: ts[last_reached(ts, total)].1 }
    } else {
        verdict
    }
}

/// The state of the accumulators and the verdict after the inner detector
/// judged an action of `user` at `now` as `verdict`. `cooloff_amount` is
/// what the cool-off rate takes off for the time since the user's last
/// action (used only when a rate is configured).
pub open spec fn deny_step(
    ts: PunishThresholds,
    acc: Map<u64, (u32, u64)>,
    reset: Option<u64>,
    cooloff: Option<u32>,
    user: u64,
    now: u64,
    verdict: AbuseVerdict,
    cooloff_amount: u32,
) -> (Map<u64, (u32, u64)>, AbuseVerdict) {
    if ts.len() == 0 {
        (acc, verdict)
    } else if acc.contains_key(user) {
        let total = acc[user].0;
        let d = elapsed(now, acc[user].1);
        match verdict {
            AbuseVerdict::Accept => if reset matches Some(r) && d > r {
                (acc.remove(user), verdict)
            } else if cooloff is Some && cooloff_amount >= total {
                (acc.remove(user), verdict)
            } else {
                let t2 = if cooloff is Some { (total - cooloff_amount) as u32 } else { total };
                (acc.insert(user, (t2, now)), escalate(ts, t2, verdict))
            },
            _ => {
                let t2 = (total + severity_of(verdict)) as u32;
                (acc.insert(user, (t2, now)), escalate(ts, t2, verdict))
            },
        }
    } else {
        match verdict {
            AbuseVerdict::Accept => (acc, verdict),
            _ => (acc.insert(user, (severity_of(verdict), now)), escalate(ts, severity_of(verdict), verdict)),
        }
    }
}

/// Start denying/punishing users after they have accumulated a high enough
/// severity score.
///
/// Wraps another abuse detector. Every time the wrapped detector returns a
/// `Flag` or `Deny` verdict, its severity is added to a per-user total. Once
/// the total reaches a configured threshold, every action of the user is
/// denied, with the punishment of the highest threshold reached; the
/// severity stays the one the wrapped detector gave. Below all thresholds,
/// the wrapped detector's verdict stands.
///
/// Forgiveness, applied only when the wrapped detector accepts: a time after
/// which the total resets, and a cool-off rate (score taken off per second
/// since the last action).
pub struct DenyPastSeverity<T> {
    /// The wrapped detector.
    pub detector: T,
    thresholds: Vec<(u32, Option<AbusePunishment>)>,
    accumulators: HashMap<u64, (u32, u64)>,
    threshold_reset: Option<u64>,
    cooloff_rate: Option<u32>,
}

impl<T> DenyPastSeverity<T> {
    /// The thresholds, lowest first.
    pub closed spec fn thresholds_view(&self) -> PunishThresholds {
        self.thresholds@
    }

    /// Each user's score and the instant of their last action.
    pub closed spec fn acc_view(&self) -> Map<u64, (u32, u64)> {
        self.accumulators@
    }

    /// The time after which an accepted action resets the score.
    pub closed spec fn reset_view(&self) -> Option<u64> {
        self.threshold_reset
    }

    /// The cool-off rate, in score per second.
    pub closed spec fn cooloff_view(&self) -> Option<u32> {
        self.cooloff_rate
    }

    /// The wrapped detector.
    pub closed spec fn detector_view(&self) -> T {
        self.detector
    }

    /// The thresholds are kept in ascending order.
    pub open spec fn wf(&self) -> bool {
        sorted_punish(self.thresholds_view())
    }

    /// The score of a user (0 when they have none).
    pub open spec fn score_of(&self, user: u64) -> u32 {
        if self.acc_view().contains_key(user) { self.acc_view()[user].0 } else { 0 }
    }

    /// Wrap a detector, with no thresholds and no forgiveness.
    pub fn new(detector: T) -> (r: Self)
        ensures
            r.wf(),
            r.detector_view() == detector,
            r.thresholds_view() == Seq::<(u32, Option<AbusePunishment>)>::empty(),
            r.acc_view() == Map::<u64, (u32, u64)>::empty(),
            r.reset_view() is None,
            r.cooloff_view() is None,
    {
        DenyPastSeverity {
            detector,
            thresholds: Vec::new(),
            accumulators: HashMap::new(),
            threshold_reset: None,
            cooloff_rate: None,
        }
    }

    /// Set the time after which an accepted action resets the score.
    pub fn set_threshold_reset(&mut self, threshold_reset: Option<u64>)
        ensures
            final(self).reset_view() == threshold_reset,
            final(self).thresholds_view() == old(self).thresholds_view(),
            final(self).acc_view() == old(self).acc_view(),
            final(self).cooloff_view() == old(self).cooloff_view(),
            final(self).detector_view() == old(self).detector_view(),
    {
        self.threshold_reset = threshold_reset;
    }

    /// The detector with a reset time set.
    pub fn with_threshold_reset(self, threshold_reset: Option<u64>) -> (r: Self)
        ensures
            r.reset_view() == threshold_reset,
            r.thresholds_view() == self.thresholds_view(),
            r.acc_view() == self.acc_view(),
            r.cooloff_view() == self.cooloff_view(),
            r.detector_view() == self.detector_view(),
    {
        let mut s = self;
        s.set_threshold_reset(threshold_reset);
        s
    }

    /// Set the cool-off rate.
    pub fn set_cooloff_rate(&mut self, cooloff_rate: Option<u32>)
        ensures
            final(self).cooloff_view() == cooloff_rate,
            final(self).thresholds_view() == old(self).thresholds_view(),
            final(self).acc_view() == old(self).acc_view(),
            final(self).reset_view() == old(self).reset_view(),
            final(self).detector_view() == old(self).detector_view(),
    {
        self.cooloff_rate = cooloff_rate;
    }

    /// The detector with a cool-off rate set.
    pub fn with_cooloff_rate(self, cooloff_rate: Option<u32>) -> (r: Self)
        ensures
            r.cooloff_view() == cooloff_rate,
            r.thresholds_view() == self.thresholds_view(),
            r.acc_view() == self.acc_view(),
            r.reset_view() == self.reset_view(),
            r.detector_view() == self.detector_view(),
    {
        let mut s = self;
        s.set_cooloff_rate(cooloff_rate);
        s
    }

    /// The configured cool-off rate.
    pub fn cooloff_rate(&self) -> (r: Option<u32>)
        ensures
            r == self.cooloff_view(),
    {
        self.cooloff_rate
    }

    /// The time since the user's last recorded action, if they have a score.
    pub fn elapsed_since_last(&self, user: UserId, now: u64) -> (r: Option<u64>)
        ensures
            r == if self.acc_view().contains_key(user.0) {
                Some(elapsed(now, self.acc_view()[user.0].1))
            } else {
                None::<u64>
            },
    {
        match self.accumulators.get(&user.0) {
            Some(entry) => {
                let last = entry.1;
                Some(if now >= last { now - last } else { 0 })
            },
            None => None,
        }
    }

    /// Deny with `punishment` once a user's score reaches `threshold`.
    pub fn add_punishment(&mut self, threshold: u32, punishment: Option<AbusePunishment>)
        requires
            old(self).wf(),
        ensures
            final(self).wf(),
            final(self).thresholds_view() == punish_add(old(self).thresholds_view(), threshold, punishment),
            final(self).acc_view() == old(self).acc_view(),
            final(self).reset_view() == old(self).reset_view(),
            final(self).cooloff_view() == old(self).cooloff_view(),
            final(self).detector_view() == old(self).detector_view(),
    {
        let mut i: usize = 0;
        while i < self.thresholds.len() && self.thresholds[i].0 < threshold
            invariant
                i <= self.thresholds@.len(),
                forall|k: int| 0 <= k < i ==> self.thresholds@[k].0 < threshold,
            decreases self.thresholds@.len() - i,
        {
            i = i + 1;
        }
        let ghost before = self.thresholds@;
        proof {
            let j = first_punish_at_or_above(before, threshold);
            assert(is_first_punish_at_or_above(before, threshold, i as int));
            assert(is_first_punish_at_or_above(before, threshold, j));
            if j < i {
                assert(before[j].0 < threshold);
            } else if i < j {
                assert(before[i as int].0 < threshold);
            }
        }
        self.thresholds.insert(i, (threshold, punishment));
        assert forall|a: int, b: int| 0 <= a <= b < self.thresholds@.len() implies self.thresholds@[a].0 <= self.thresholds@[b].0 by {
            if a < i && b > i {
                assert(before[a].0 < threshold);
            }
            if a == i && b > i {
                assert(before[i as int].0 >= threshold);
                assert(before[i as int].0 <= before[b - 1].0);
            }
        }
    }

    /// The detector with a punishment added (see `add_punishment`).
    pub fn with_punishment(self, threshold: u32, punishment: Option<AbusePunishment>) -> (r: Self)
        requires
            self.wf(),
        ensures
            r.wf(),
            r.thresholds_view() == punish_add(self.thresholds_view(), threshold, punishment),
            r.acc_view() == self.acc_view(),
            r.reset_view() == self.reset_view(),
            r.cooloff_view() == self.cooloff_view(),
            r.detector_view() == self.detector_view(),
    {
        let mut s = self;
        s.add_punishment(threshold, punishment);
        s
    }

    /// Forget a user's score.
    pub fn reset_user(&mut self, user: UserId)
        ensures
            final(self).acc_view() == old(self).acc_view().remove(user.0),
            final(self).thresholds_view() == old(self).thresholds_view(),
            final(self).reset_view() == old(self).reset_view(),
            final(self).cooloff_view() == old(self).cooloff_view(),
            final(self).detector_view() == old(self).detector_view(),
    {
        self.accumulators.remove(&user.0);
    }

    /// Forget all scores.
    pub fn reset_all(&mut self)
        ensures
            final(self).acc_view() == Map::<u64, (u32, u64)>::empty(),
            final(self).thresholds_view() == old(self).thresholds_view(),
            final(self).reset_view() == old(self).reset_view(),
            final(self).cooloff_view() == old(self).cooloff_view(),
            final(self).detector_view() == old(self).detector_view(),
    {
        self.accumulators.clear();
    }

    /// A user's score (0 when they have none).
    pub fn score(&self, user: UserId) -> (r: u32)
        ensures
            r == self.score_of(user.0),
    {
        match self.accumulators.get(&user.0) {
            Some(entry) => entry.0,
            None => 0,
        }
    }

    /// Take `cooloff_amount` off a user's score, forgetting the user when
    /// that leaves nothing. Returns the new score.
    pub fn subtract_score(&mut self, user: UserId, cooloff_amount: u32) -> (r: u32)
        ensures
            r == if cooloff_amount >= old(self).score_of(user.0) { 0 } else { (old(self).score_of(user.0) - cooloff_amount) as u32 },
            final(self).score_of(user.0) == r,
            final(self).acc_view() == if !old(self).acc_view().contains_key(user.0) {
                old(self).acc_view()
            } else if cooloff_amount >= old(self).acc_view()[user.0].0 {
                old(self).acc_view().remove(user.0)
            } else {
                old(self).acc_view().insert(user.0, (r, old(self).acc_view()[user.0].1))
            },
            final(self).thresholds_view() == old(self).thresholds_view(),
            final(self).reset_view() == old(self).reset_view(),
            final(self).cooloff_view() == old(self).cooloff_view(),
            final(self).detector_view() == old(self).detector_view(),
    {
        match self.accumulators.get(&user.0) {
            Some(entry) => {
                let (total, last) = *entry;
                if cooloff_amount >= total {
                    self.accumulators.remove(&user.0);
                    0
                } else {
                    let t = total - cooloff_amount;
                    self.accumulators.insert(user.0, (t, last));
                    t
                }
            },
            None => 0,
        }
    }

    /// The index of the last threshold that `total` reaches, or none.
    fn find_last_reached(&self, total: u32) -> (r: Option<usize>)
        ensures
            match r {
                Some(k) => last_reached(self.thresholds_view(), total) == k && k < self.thresholds_view().len(),
                None => last_reached(self.thresholds_view(), total) == -1,
            },
    {
        let ghost ts = self.thresholds@;
        let mut n: usize = self.thresholds.len();
        assert(ts.subrange(0, n as int) =~= ts);
        while n > 0 && !(total >= self.thresholds[n - 1].0)
            invariant
                n <= ts.len(),
                ts == self.thresholds@,
                last_reached(ts, total) == last_reached(ts.subrange(0, n as int), total),
            decreases n,
        {
            assert(ts.subrange(0, n as int).drop_last() =~= ts.subrange(0, n - 1));
            n = n - 1;
        }
        if n == 0 {
            assert(ts.subrange(0, 0) =~= Seq::<(u32, Option<AbusePunishment>)>::empty());
            None
        } else {
            Some(n - 1)
        }
    }

    /// The verdict for a user whose score is now `total` (see `escalate`).
    fn escalated(&self, total: u32, verdict: AbuseVerdict) -> (r: AbuseVerdict)
        requires
            self.thresholds_view().len() > 0,
        ensures
            r == escalate(self.thresholds_view(), total, verdict),
    {
        if total < self.thresholds[0].0 {
            verdict
        } else {
            match self.find_last_reached(total) {
                Some(k) => {
                    let punishment = match &self.thresholds[k].1 {
                        Some(p) => Some(p.duplicate()),
                        None => None,
                    };
                    AbuseVerdict::Deny { severity: verdict.severity(), punishment }
                },
                None => verdict,
            }
        }
    }

    /// Judge an action of `user` at instant `now`, given the wrapped
    /// detector's `verdict` for it, and update the user's score (see
    /// `deny_step`). `cooloff_amount` is the score that the cool-off rate
    /// takes off for the time since the user's last action (see
    /// `elapsed_since_last`); it is used only when a rate is set.
    pub fn verify_game_input(&mut self, user: UserId, now: u64, verdict: AbuseVerdict, cooloff_amount: u32) -> (r: AbuseVerdict)
        requires
            old(self).wf(),
            old(self).score_of(user.0) + severity_of(verdict) <= u32::MAX,
        ensures
            final(self).wf(),
            (final(self).acc_view(), r) == deny_step(old(self).thresholds_view(), old(self).acc_view(),
                old(self).reset_view(), old(self).cooloff_view(), user.0, now, verdict, cooloff_amount),
            final(self).thresholds_view() == old(self).thresholds_view(),
            final(self).reset_view() == old(self).reset_view(),
            final(self).cooloff_view() == old(self).cooloff_view(),
            final(self).detector_view() == old(self).detector_view(),
    {
        if self.thresholds.len() == 0 {
            return verdict;
        }
        match self.accumulators.get(&user.0) {
            Some(entry) => {
                let (total, last) = *entry;
                let duration = if now >= last { now - last } else { 0 };
                let total2: u32 = match &verdict {
                    AbuseVerdict::Accept => {
                        if let Some(threshold_reset) = self.threshold_reset {
                            if duration > threshold_reset {
                                self.accumulators.remove(&user.0);
                                return verdict;
                            }
                        }
                        if self.cooloff_rate.is_some() {
                            if cooloff_amount >= total {
                                self.accumulators.remove(&user.0);
                                return verdict;
                            }
                            total - cooloff_amount
                        } else {
                            total
                        }
                    },
                    AbuseVerdict::Flag { severity } => total + *severity,
                    AbuseVerdict::Deny { severity, .. } => total + *severity,
                };
                self.accumulators.insert(user.0, (total2, now));
                self.escalated(total2, verdict)
            },
            None => {
                let total: u32 = match &verdict {
                    AbuseVerdict::Accept => {
                        return verdict;
                    },
                    AbuseVerdict::Flag { severity } => *severity,
                    AbuseVerdict::Deny { severity, .. } => *severity,
                };
                self.accumulators.insert(user.0, (total, now));
                self.escalated(total, verdict)
            },
        }
    }
}

/// Forgetting a user leaves them with no score.
pub proof fn lemma_reset_user_clears_score<T>(before: DenyPastSeverity<T>, after: DenyPastSeverity<T>, user: u64)
    requires
        after.acc_view() == before.acc_view().remove(user),
    ensures
        after.score_of(user) == 0,
{
}

/// Once a user's score reaches the first threshold, every action of theirs
/// is denied, whatever the wrapped detector said, with the severity it gave.
pub proof fn lemma_escalate_denies(ts: PunishThresholds, total: u32, verdict: AbuseVerdict)
    requires
        ts.len() > 0,
        sorted_punish(ts),
        total >= ts[0].0,
    ensures
        escalate(ts, total, verdict) is Deny,
        severity_of(escalate(ts, total, verdict)) == severity_of(verdict),
    decreases ts.len(),
{
    lemma_last_reached_found(ts, total);
}

proof fn lemma_last_reached_found(ts: PunishThresholds, total: u32)
    requires
        ts.len() > 0,
        total >= ts[0].0,
    ensures
        0 <= last_reached(ts, total) < ts.len(),
    decreases ts.len(),
{
    if total < ts.last().0 {
        if ts.len() == 1 {
            assert(ts.last() == ts[0]);
        } else {
            lemma_last_reached_found(ts.drop_last(), total);
        }
    }
}

} // verus!
