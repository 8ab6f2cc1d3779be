//! Rate limiters: verdicts by how soon a user acts again.

use vstd::prelude::*;
use std::collections::HashMap;
use super::{AbuseVerdict, UserId};

verus! {

broadcast use vstd::std_specs::hash::group_hash_axioms;

/// A verdict for each duration threshold, in nanoseconds.
pub type Thresholds = Seq<(u64, AbuseVerdict)>;

/// The thresholds are in ascending order.
pub open spec fn sorted_thresholds(ts: Thresholds) -> bool {
    forall|i: int, j: int| 0 <= i <= j < ts.len() ==> ts[i].0 <= ts[j].0
}

/// `i` is the first index whose threshold is at least `d` (the length when
/// there is none).
pub open spec fn is_first_at_or_above(ts: Thresholds, d: u64, i: int) -> bool {
    &&& 0 <= i <= ts.len()
    &&& forall|k: int| 0 <= k < i ==> ts[k].0 < d
    &&& i < ts.len() ==> ts[i].0 >= d
}

/// The first index whose threshold is at least `d`.
pub open spec fn first_at_or_above(ts: Thresholds, d: u64) -> int {
    choose|i: int| is_first_at_or_above(ts, d, i)
}

/// There is exactly one first index at or above a value.
pub proof fn lemma_first_at_or_above(ts: Thresholds, d: u64, i: int)
    requires
        is_first_at_or_above(ts, d, i),
    ensures
        first_at_or_above(ts, d) == i,
{
    let j = first_at_or_above(ts, d);
    assert(is_first_at_or_above(ts, d, j));
    if j < i {
        assert(ts[j].0 < d);
    } else if i < j {
        assert(ts[i].0 < d);
    }
}

/// `i` is the first index whose threshold is above `d` (or the length, if
/// there is none).
pub open spec fn is_first_above(ts: Thresholds, d: u64, i: int) -> bool {
    &&& 0 <= i <= ts.len()
    &&& forall|k: int| 0 <= k < i ==> ts[k].0 <= d
    &&& i < ts.len() ==> ts[i].0 > d
}

/// The first index whose threshold is above `d`.
pub open spec fn first_above(ts: Thresholds, d: u64) -> int {
    choose|i: int| is_first_above(ts, d, i)
}

/// There is exactly one first index above a value.
pub proof fn lemma_first_above(ts: Thresholds, d: u64, i: int)
    requires
        is_first_above(ts, d, i),
    ensures
        first_above(ts, d) == i,
{
    let j = first_above(ts, d);
    assert(is_first_above(ts, d, j));
    if j < i {
        assert(ts[j].0 > d);
    } else if i < j {
        assert(ts[i].0 > d);
    }
}

/// The time since `last`, or 0 if `now` is earlier.
pub open spec fn elapsed(now: u64, last: u64) -> u64 {
    if now >= last { (now - last) as u64 } else { 0 }
}

/// The verdict for an action `d` nanoseconds after the previous one: accept
/// when it is at least the largest threshold, else the verdict of the
/// lowest threshold that `d` is less than.
pub open spec fn verdict_for(ts: Thresholds, d: u64) -> AbuseVerdict {
    if d >= ts.last().0 {
        AbuseVerdict::Accept
    } else if first_above(ts, d) < ts.len() {
        ts[first_above(ts, d)].1
    } else {
        AbuseVerdict::Accept
    }
}

/// One step of a rate limiter for the entry `key` at time `now`: the new
/// last-action times and the verdict. The first action of an entry is
/// always accepted; with no thresholds, nothing is recorded.
pub open spec fn rate_step<K>(ts: Thresholds, last: Map<K, u64>, key: K, now: u64) -> (Map<K, u64>, AbuseVerdict) {
    if ts.len() == 0 {
        (last, AbuseVerdict::Accept)
    } else if last.contains_key(key) {
        (last.insert(key, now), verdict_for(ts, elapsed(now, last[key])))
    } else {
        (last.insert(key, now), AbuseVerdict::Accept)
    }
}

/// The thresholds with a new one inserted before those that are not lower.
pub open spec fn thresholds_add(ts: Thresholds, threshold: u64, verdict: AbuseVerdict) -> Thresholds {
    ts.insert(first_at_or_above(ts, threshold), (threshold, verdict))
}

fn find_first_at_or_above(ts: &Vec<(u64, AbuseVerdict)>, d: u64) -> (i: usize)
    ensures
        is_first_at_or_above(ts@, d, i as int),
        first_at_or_above(ts@, d) == i,
{
    let mut i: usize = 0;
    while i < ts.len() && ts[i].0 < d
        invariant
            i <= ts.len(),
            forall|k: int| 0 <= k < i ==> ts@[k].0 < d,
        decreases ts.len() - i,
    {
        i = i + 1;
    }
    proof {
        lemma_first_at_or_above(ts@, d, i as int);
    }
    i
}

fn find_first_above(ts: &Vec<(u64, AbuseVerdict)>, d: u64) -> (i: usize)
    ensures
        is_first_above(ts@, d, i as int),
        first_above(ts@, d) == i,
{
    let mut i: usize = 0;
    while i < ts.len() && ts[i].0 <= d
        invariant
            i <= ts.len(),
            forall|k: int| 0 <= k < i ==> ts@[k].0 <= d,
        decreases ts.len() - i,
    {
        i = i + 1;
    }
    proof {
        lemma_first_above(ts@, d, i as int);
    }
    i
}

/// Insert a threshold in order.
fn insert_threshold(ts: &mut Vec<(u64, AbuseVerdict)>, threshold: u64, verdict: AbuseVerdict)
    requires
        sorted_thresholds(old(ts)@),
    ensures
        final(ts)@ == thresholds_add(old(ts)@, threshold, verdict),
        sorted_thresholds(final(ts)@),
{
    let i = find_first_at_or_above(ts, threshold);
    let ghost before = ts@;
    ts.insert(i, (threshold, verdict));
    assert forall|a: int, b: int| 0 <= a <= b < ts@.len() implies ts@[a].0 <= ts@[b].0 by {
        if a < i && b > i {
            assert(before[a].0 < threshold);
        }
        if a == i && b > i {
            assert(before[i as int].0 >= threshold);
            assert(before[i as int].0 <= before[b - 1].0);
        }
    }
}

/// The verdict for an action `d` nanoseconds after the previous one.
fn lookup_verdict(ts: &Vec<(u64, AbuseVerdict)>, d: u64) -> (r: AbuseVerdict)
    requires
        ts@.len() > 0,
    ensures
        r == verdict_for(ts@, d),
{
    let min_duration = ts[ts.len() - 1].0;
    if d >= min_duration {
        AbuseVerdict::Accept
    } else {
        let i = find_first_above(ts, d);
        if i < ts.len() {
            ts[i].1.duplicate()
        } else {
            AbuseVerdict::Accept
        }
    }
}

/// Abuse detector for action-agnostic rate limiting.
///
/// Keeps track of when each user last performed an action (any action) and
/// issues verdicts when the time since then is below configured
/// thresholds: the verdict of the lowest threshold that the time is less
/// than.
pub struct SimpleRateLimiter {
    thresholds: Vec<(u64, AbuseVerdict)>,
    last_action_time: HashMap<u64, u64>,
}

impl SimpleRateLimiter {
    /// The configured thresholds, lowest first.
    pub closed spec fn thresholds_view(&self) -> Thresholds {
        self.thresholds@
    }

    /// When each user (by number) last acted.
    pub closed spec fn last_view(&self) -> Map<u64, u64> {
        self.last_action_time@
    }

    /// The thresholds are kept in ascending order.
    pub open spec fn wf(&self) -> bool {
        sorted_thresholds(self.thresholds_view())
    }

    /// A limiter with no thresholds, which accepts everything.
    pub fn new() -> (r: Self)
        ensures
            r.wf(),
            r.thresholds_view() == Seq::<(u64, AbuseVerdict)>::empty(),
            r.last_view() == Map::<u64, u64>::empty(),
    {
        SimpleRateLimiter { thresholds: Vec::new(), last_action_time: HashMap::new() }
    }

    /// Issue `verdict` when a user acts again within `threshold` nanoseconds
    /// (and within no lower threshold).
    pub fn add_verdict(&mut self, threshold: u64, verdict: AbuseVerdict)
        requires
            old(self).wf(),
        ensures
            final(self).wf(),
            final(self).thresholds_view() == thresholds_add(old(self).thresholds_view(), threshold, verdict),
            final(self).last_view() == old(self).last_view(),
    {
        insert_threshold(&mut self.thresholds, threshold, verdict);
    }

    /// The limiter with a verdict added (see `add_verdict`).
    pub fn with_verdict(self, threshold: u64, verdict: AbuseVerdict) -> (r: Self)
        requires
            self.wf(),
        ensures
            r.wf(),
            r.thresholds_view() == thresholds_add(self.thresholds_view(), threshold, verdict),
            r.last_view() == self.last_view(),
    {
        let mut s = self;
        s.add_verdict(threshold, verdict);
        s
    }

    /// Judge an action of `user` at instant `now`, and remember when it was.
    pub fn verify_game_input(&mut self, user: UserId, now: u64) -> (r: AbuseVerdict)
        requires
            old(self).wf(),
        ensures
            final(self).wf(),
            final(self).thresholds_view() == old(self).thresholds_view(),
            (final(self).last_view(), r) == rate_step(old(self).thresholds_view(), old(self).last_view(), user.0, now),
    {
        if self.thresholds.len() == 0 {
            return AbuseVerdict::Accept;
        }
        match self.last_action_time.get(&user.0) {
            Some(last) => {
                let last_instant = *last;
                let duration = if now >= last_instant { now - last_instant } else { 0 };
                self.last_action_time.insert(user.0, now);
                lookup_verdict(&self.thresholds, duration)
            },
            None => {
                self.last_action_time.insert(user.0, now);
                AbuseVerdict::Accept
            },
        }
    }
}

/// The key of a user's last action of one kind.
pub open spec fn action_key(user: u64, action: u64) -> u128 {
    (user * 0x1_0000_0000_0000_0000 + action) as u128
}

/// Abuse detector for action-specific rate limiting.
///
/// Like [`SimpleRateLimiter`], but with thresholds for each kind of action
/// (a number chosen by the caller for each category of input), and the time
/// since a user last performed an action of the same kind.
pub struct PerActionRateLimiter {
    thresholds: HashMap<u64, Vec<(u64, AbuseVerdict)>>,
    last_action_time: HashMap<u128, u64>,
}

impl PerActionRateLimiter {
    /// The configured thresholds for each kind of action.
    pub closed spec fn thresholds_view(&self) -> Map<u64, Vec<(u64, AbuseVerdict)>> {
        self.thresholds@
    }

    /// When each user last acted, by `action_key`.
    pub closed spec fn last_view(&self) -> Map<u128, u64> {
        self.last_action_time@
    }

    /// The thresholds of each kind of action are in ascending order.
    pub open spec fn wf(&self) -> bool {
        forall|a: u64| #[trigger] self.thresholds_view().contains_key(a) ==> sorted_thresholds(self.thresholds_view()[a]@)
    }

    /// A limiter with no thresholds, which accepts everything.
    pub fn new() -> (r: Self)
        ensures
            r.wf(),
            r.thresholds_view() == Map::<u64, Vec<(u64, AbuseVerdict)>>::empty(),
            r.last_view() == Map::<u128, u64>::empty(),
    {
        PerActionRateLimiter { thresholds: HashMap::new(), last_action_time: HashMap::new() }
    }

    /// Issue `verdict` when a user performs an action of kind `action`
    /// again within `threshold` nanoseconds (and within no lower threshold).
    pub fn add_verdict(&mut self, action: u64, threshold: u64, verdict: AbuseVerdict)
        requires
            old(self).wf(),
        ensures
            final(self).wf(),
            final(self).thresholds_view().dom() == old(self).thresholds_view().dom().insert(action),
            forall|a: u64| a != action && #[trigger] old(self).thresholds_view().contains_key(a)
                ==> final(self).thresholds_view()[a] == old(self).thresholds_view()[a],
            final(self).thresholds_view()[action]@ == if old(self).thresholds_view().contains_key(action) {
                thresholds_add(old(self).thresholds_view()[action]@, threshold, verdict)
            } else {
                seq![(threshold, verdict)]
            },
            final(self).last_view() == old(self).last_view(),
    {
        let ghost old_map = self.thresholds@;
        match self.thresholds.remove(&action) {
            Some(ts) => {
                assert(old(self).thresholds_view().contains_key(action) && ts == old_map[action]);
                assert(sorted_thresholds(old(self).thresholds_view()[action]@));
                let mut ts = ts;
                insert_threshold(&mut ts, threshold, verdict);
                self.thresholds.insert(action, ts);
            },
            None => {
                let mut ts: Vec<(u64, AbuseVerdict)> = Vec::new();
                ts.push((threshold, verdict));
                self.thresholds.insert(action, ts);
            },
        }
        assert forall|a: u64| #[trigger] self.thresholds_view().contains_key(a) implies sorted_thresholds(self.thresholds_view()[a]@) by {
            if a != action {
                assert(old(self).thresholds_view().contains_key(a));
            }
        }
    }

    /// The limiter with a verdict added (see `add_verdict`).
    pub fn with_verdict(self, action: u64, threshold: u64, verdict: AbuseVerdict) -> (r: Self)
        requires
            self.wf(),
        ensures
            r.wf(),
            r.thresholds_view().dom() == self.thresholds_view().dom().insert(action),
            forall|a: u64| a != action && #[trigger] self.thresholds_view().contains_key(a)
                ==> r.thresholds_view()[a] == self.thresholds_view()[a],
            r.thresholds_view()[action]@ == if self.thresholds_view().contains_key(action) {
                thresholds_add(self.thresholds_view()[action]@, threshold, verdict)
            } else {
                seq![(threshold, verdict)]
            },
            r.last_view() == self.last_view(),
    {
        let mut s = self;
        s.add_verdict(action, threshold, verdict);
        s
    }

    /// Judge an action of kind `action` by `user` at instant `now`, and
    /// remember when it was. Kinds with no thresholds are always accepted.
    pub fn verify_game_input(&mut self, user: UserId, now: u64, action: u64) -> (r: AbuseVerdict)
        requires
            old(self).wf(),
        ensures
            final(self).wf(),
            final(self).thresholds_view() == old(self).thresholds_view(),
            (final(self).last_view(), r) == if old(self).thresholds_view().contains_key(action) {
                rate_step(old(self).thresholds_view()[action]@, old(self).last_view(), action_key(user.0, action), now)
            } else {
                (old(self).last_view(), AbuseVerdict::Accept)
            },
    {
        let key: u128 = user.0 as u128 * 0x1_0000_0000_0000_0000 + action as u128;
        let ghost old_map = self.thresholds@;
        let r = match self.thresholds.get(&action) {
            None => AbuseVerdict::Accept,
            Some(ts) => {
                if ts.len() == 0 {
                    AbuseVerdict::Accept
                } else {
                match self.last_action_time.get(&key) {
                    Some(last) => {
                        let last_instant = *last;
                        let duration = if now >= last_instant { now - last_instant } else { 0 };
                        let r = lookup_verdict(ts, duration);
                        self.last_action_time.insert(key, now);
                        r
                    },
                    None => {
                        self.last_action_time.insert(key, now);
                        AbuseVerdict::Accept
                    },
                }
                }
            },
        };
        assert forall|a: u64| #[trigger] self.thresholds_view().contains_key(a) implies sorted_thresholds(self.thresholds_view()[a]@) by {
            assert(old(self).thresholds_view().contains_key(a));
        }
        r
    }
}

} // verus!
