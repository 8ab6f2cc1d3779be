//! Player IDs
//!
//! [`PlayerId`] represents one "view" of the game: either the global
//! spectator view, or the view of a specific player. [`Plids`] represents a
//! set of views, as a bitmask. Useful, for example, when a message from the
//! server should be sent to multiple players.

use vstd::prelude::*;

verus! {

/// Player ID
///
/// `Player(n)` always holds a nonzero `n` (see [`PlayerId::wf`]).
#[derive(Debug, Clone, Copy, PartialEq, Eq, PartialOrd, Ord, Hash, Structural)]
pub enum PlayerId {
    Neutral,
    Player(u8),
}

impl PlayerId {
    /// A player id is well-formed when a `Player` variant holds a nonzero number.
    pub open spec fn wf(self) -> bool {
        match self {
            PlayerId::Neutral => true,
            PlayerId::Player(n) => n != 0,
        }
    }

    /// The numeric value of the id: 0 for the spectator view.
    pub open spec fn value(self) -> u8 {
        match self {
            PlayerId::Neutral => 0,
            PlayerId::Player(n) => n,
        }
    }

    /// The id that a byte stands for.
    pub open spec fn from_value(b: u8) -> PlayerId {
        if b == 0 {
            PlayerId::Neutral
        } else {
            PlayerId::Player(b)
        }
    }

    /// Numeric value of the id, as an index.
    pub fn i(self) -> (r: usize)
        ensures
            r == self.value(),
    {
        self.to_u8() as usize
    }

    /// Numeric value of the id: 0 for the spectator view.
    pub fn to_u8(self) -> (r: u8)
        ensures
            r == self.value(),
    {
        match self {
            PlayerId::Neutral => 0,
            PlayerId::Player(n) => n,
        }
    }

    /// The id that a byte stands for: 0 is the spectator view.
    pub fn from_u8(b: u8) -> (r: PlayerId)
        ensures
            r == PlayerId::from_value(b),
            r.wf(),
            r.value() == b,
    {
        if b == 0 {
            PlayerId::Neutral
        } else {
            PlayerId::Player(b)
        }
    }
}

impl From<u8> for PlayerId {
    fn from(b: u8) -> (r: PlayerId) {
        PlayerId::from_u8(b)
    }
}

impl vstd::std_specs::convert::FromSpecImpl<u8> for PlayerId {
    open spec fn obeys_from_spec() -> bool {
        true
    }

    open spec fn from_spec(b: u8) -> PlayerId {
        PlayerId::from_value(b)
    }
}


impl From<PlayerId> for u8 {
    fn from(plid: PlayerId) -> (r: u8) {
        plid.to_u8()
    }
}

impl vstd::std_specs::convert::FromSpecImpl<PlayerId> for u8 {
    open spec fn obeys_from_spec() -> bool {
        true
    }

    open spec fn from_spec(plid: PlayerId) -> u8 {
        plid.value()
    }
}

impl From<PlayerId> for usize {
    fn from(plid: PlayerId) -> (r: usize) {
        plid.to_u8() as usize
    }
}

impl vstd::std_specs::convert::FromSpecImpl<PlayerId> for usize {
    open spec fn obeys_from_spec() -> bool {
        true
    }

    open spec fn from_spec(plid: PlayerId) -> usize {
        plid.value() as usize
    }
}

impl PlayerId {
    /// Compare a player id with a raw byte value.
    pub fn eq_u8(&self, other: u8) -> (r: bool)
        ensures
            r == (self.value() == other),
    {
        self.to_u8() == other
    }
}

/// The bit of a [`Plids`] mask that stands for a player id value.
///
/// Ids of 8 and above have no bit in the 8-bit mask: they select none
/// (only the conversion `From<PlayerId>` meets them; the methods that shift
/// by an id take ids below 8).
pub open spec fn plid_bit(b: u8) -> u8 {
    if b < 8 {
        (1u8 << b) as u8
    } else {
        0u8
    }
}

fn bit_of(b: u8) -> (r: u8)
    ensures
        r == plid_bit(b),
{
    if b < 8 {
        1u8 << b
    } else {
        0u8
    }
}

/// Bitmask to mux player IDs: can support a game with up to 7 players
#[derive(Debug, Default, Clone, Copy, PartialEq, Eq, Structural)]
pub struct Plids(pub u8);

/// The highest player id that a [`Plids`] mask can hold.
pub const MAX_PLID: u8 = 7;

impl Plids {
    /// The set of player id values that the mask holds.
    pub open spec fn view_set(self) -> Set<u8> {
        Set::new(|i: u8| i < 8 && (self.0 >> i) & 1u8 == 1u8)
    }

    /// Does the mask hold the given id value?
    pub open spec fn has(self, b: u8) -> bool {
        b < 8 && self.0 & plid_bit(b) != 0
    }

    /// All player views; with or without the spectator view.
    pub fn all(with_spect: bool) -> (r: Self)
        ensures
            r.0 == if with_spect { 0xFFu8 } else { 0xFEu8 },
            forall|b: u8| 1 <= b < 8 ==> #[trigger] r.has(b),
            r.has(0) == with_spect,
    {
        let r = if with_spect { Plids(0xFF) } else { Plids(0xFE) };
        assert(forall|b: u8| b < 8 ==> #[trigger] plid_bit(b) == (1u8 << b) as u8);
        assert(forall|b: u8| b < 8 ==> (0xFFu8 & ((1u8 << b) as u8)) != 0u8) by (bit_vector);
        assert(forall|b: u8| 1 <= b < 8 ==> (0xFEu8 & ((1u8 << b) as u8)) != 0u8) by (bit_vector);
        assert((0xFEu8 & ((1u8 << 0u8) as u8)) == 0u8) by (bit_vector);
        r
    }

    /// Only the spectator view.
    pub fn spect() -> (r: Self)
        ensures
            r.0 == 1u8,
    {
        let r = Plids(0).add_plid(PlayerId::Neutral);
        assert((0u8 | plid_bit(0)) == 1u8) by (bit_vector);
        r
    }

    /// The given player's view and the spectator view.
    pub fn with_spect(plid: PlayerId) -> (r: Self)
        requires
            plid.value() < 8,
        ensures
            r.0 == plid_bit(plid.value()) | 1u8,
    {
        let a = Self::from(plid);
        let r = a.add_plid(PlayerId::Neutral);
        assert(plid_bit(0) == 1u8) by (bit_vector);
        assert(0u8 | plid_bit(plid.value()) == plid_bit(plid.value())) by (bit_vector);
        r
    }

    /// Does the mask hold the view of the given player?
    pub fn contains(&self, plid: PlayerId) -> (r: bool)
        requires
            plid.value() < 8,
        ensures
            r == (self.0 & plid_bit(plid.value()) != 0),
    {
        let b: u8 = plid.to_u8();
        (self.0 & bit_of(b)) != 0
    }

    /// Does the mask hold every view that `other` holds?
    pub fn contains_all(&self, other: Self) -> (r: bool)
        ensures
            r == (self.0 & other.0 == other.0),
    {
        (self.0 & other.0) == other.0
    }

    /// Does the mask hold any view that `other` holds?
    pub fn contains_any(&self, other: Self) -> (r: bool)
        ensures
            r == (self.0 & other.0 != 0),
    {
        (self.0 & other.0) != 0
    }

    /// Iterate the player ids in the mask, up to `max` (at most [`MAX_PLID`]).
    pub fn iter(&self, max: Option<u8>) -> (r: PlidsIter)
        ensures
            r.plids == *self,
            r.next == 0,
            r.max == match max {
                Some(m) => if m < MAX_PLID { m } else { MAX_PLID },
                None => MAX_PLID,
            },
            forall|i: int, j: int| 0 <= i < j < r.remaining().len() ==> r.remaining()[i] < r.remaining()[j],
            forall|q: u8| r.remaining().contains(q) <==> (q <= r.max && self.has(q)),
    {
        let m = match max {
            Some(m) => m,
            None => MAX_PLID,
        };
        let r = PlidsIter {
            plids: *self,
            next: 0,
            max: if m < MAX_PLID { m } else { MAX_PLID },
        };
        proof {
            lemma_plids_iter_yields(r);
        }
        r
    }

    /// Add a view to the mask.
    pub fn add_plid(self, rhs: PlayerId) -> (r: Self)
        requires
            rhs.value() < 8,
        ensures
            r.0 == self.0 | plid_bit(rhs.value()),
    {
        let b: u8 = rhs.to_u8();
        Plids(self.0 | bit_of(b))
    }

    /// Remove a view from the mask.
    pub fn sub_plid(self, rhs: PlayerId) -> (r: Self)
        requires
            rhs.value() < 8,
        ensures
            r.0 == self.0 & !plid_bit(rhs.value()),
    {
        let b: u8 = rhs.to_u8();
        Plids(self.0 & !bit_of(b))
    }

    /// Union of two masks.
    pub fn union(self, rhs: Self) -> (r: Self)
        ensures
            r.0 == self.0 | rhs.0,
    {
        Plids(self.0 | rhs.0)
    }

    /// The views of `self` that `rhs` does not hold.
    pub fn difference(self, rhs: Self) -> (r: Self)
        ensures
            r.0 == self.0 & !rhs.0,
    {
        Plids(self.0 & !rhs.0)
    }

    /// Every view that the mask does not hold.
    pub fn complement(self) -> (r: Self)
        ensures
            r.0 == !self.0,
    {
        Plids(!self.0)
    }
}

impl From<PlayerId> for Plids {
    fn from(plid: PlayerId) -> (r: Self) {
        Plids(bit_of(plid.to_u8()))
    }
}

impl vstd::std_specs::convert::FromSpecImpl<PlayerId> for Plids {
    open spec fn obeys_from_spec() -> bool {
        true
    }

    open spec fn from_spec(plid: PlayerId) -> Plids {
        Plids(plid_bit(plid.value()))
    }
}

impl core::ops::Add<PlayerId> for Plids {
    type Output = Self;

    fn add(self, rhs: PlayerId) -> (r: Self) {
        self.add_plid(rhs)
    }
}

impl vstd::std_specs::ops::AddSpecImpl<PlayerId> for Plids {
    open spec fn obeys_add_spec() -> bool {
        true
    }

    open spec fn add_req(self, rhs: PlayerId) -> bool {
        rhs.value() < 8
    }

    open spec fn add_spec(self, rhs: PlayerId) -> Plids {
        Plids(self.0 | plid_bit(rhs.value()))
    }
}

impl core::ops::Add<Plids> for Plids {
    type Output = Self;

    fn add(self, rhs: Plids) -> (r: Self) {
        self.union(rhs)
    }
}

impl vstd::std_specs::ops::AddSpecImpl<Plids> for Plids {
    open spec fn obeys_add_spec() -> bool {
        true
    }

    open spec fn add_req(self, rhs: Plids) -> bool {
        true
    }

    open spec fn add_spec(self, rhs: Plids) -> Plids {
        Plids(self.0 | rhs.0)
    }
}

impl core::ops::Sub<PlayerId> for Plids {
    type Output = Self;

    fn sub(self, rhs: PlayerId) -> (r: Self) {
        self.sub_plid(rhs)
    }
}

impl vstd::std_specs::ops::SubSpecImpl<PlayerId> for Plids {
    open spec fn obeys_sub_spec() -> bool {
        true
    }

    open spec fn sub_req(self, rhs: PlayerId) -> bool {
        rhs.value() < 8
    }

    open spec fn sub_spec(self, rhs: PlayerId) -> Plids {
        Plids(self.0 & !plid_bit(rhs.value()))
    }
}

impl core::ops::Sub<Plids> for Plids {
    type Output = Self;

    fn sub(self, rhs: Plids) -> (r: Self) {
        self.difference(rhs)
    }
}

impl vstd::std_specs::ops::SubSpecImpl<Plids> for Plids {
    open spec fn obeys_sub_spec() -> bool {
        true
    }

    open spec fn sub_req(self, rhs: Plids) -> bool {
        true
    }

    open spec fn sub_spec(self, rhs: Plids) -> Plids {
        Plids(self.0 & !rhs.0)
    }
}

impl core::ops::Not for Plids {
    type Output = Self;

    fn not(self) -> (r: Self) {
        self.complement()
    }
}

impl vstd::std_specs::ops::NotSpecImpl for Plids {
    open spec fn obeys_not_spec() -> bool {
        true
    }

    open spec fn not_req(self) -> bool {
        true
    }

    open spec fn not_spec(self) -> Plids {
        Plids(!self.0)
    }
}

/// The bit of each id below 8.
proof fn lemma_plid_bits()
    ensures
        plid_bit(0) == 1u8, plid_bit(1) == 2u8, plid_bit(2) == 4u8, plid_bit(3) == 8u8,
        plid_bit(4) == 16u8, plid_bit(5) == 32u8, plid_bit(6) == 64u8, plid_bit(7) == 128u8,
{
    assert((1u8 << 0u8) == 1u8) by (bit_vector);
    assert((1u8 << 1u8) == 2u8) by (bit_vector);
    assert((1u8 << 2u8) == 4u8) by (bit_vector);
    assert((1u8 << 3u8) == 8u8) by (bit_vector);
    assert((1u8 << 4u8) == 16u8) by (bit_vector);
    assert((1u8 << 5u8) == 32u8) by (bit_vector);
    assert((1u8 << 6u8) == 64u8) by (bit_vector);
    assert((1u8 << 7u8) == 128u8) by (bit_vector);
}

/// `contains_all` is the subset test: `a` holds every id that `b` holds.
pub proof fn lemma_contains_all_subset(a: Plids, b: Plids)
    ensures
        (a.0 & b.0 == b.0) <==> (forall|q: u8| #[trigger] b.has(q) ==> a.has(q)),
{
    lemma_plid_bits();
    let x = a.0;
    let y = b.0;
    assert((x & y == y) <==> (
        (y & 1u8 != 0u8 ==> x & 1u8 != 0u8) && (y & 2u8 != 0u8 ==> x & 2u8 != 0u8)
        && (y & 4u8 != 0u8 ==> x & 4u8 != 0u8) && (y & 8u8 != 0u8 ==> x & 8u8 != 0u8)
        && (y & 16u8 != 0u8 ==> x & 16u8 != 0u8) && (y & 32u8 != 0u8 ==> x & 32u8 != 0u8)
        && (y & 64u8 != 0u8 ==> x & 64u8 != 0u8) && (y & 128u8 != 0u8 ==> x & 128u8 != 0u8))) by (bit_vector);
    if forall|q: u8| #[trigger] b.has(q) ==> a.has(q) {
        assert(b.has(0) ==> a.has(0));
        assert(b.has(1) ==> a.has(1));
        assert(b.has(2) ==> a.has(2));
        assert(b.has(3) ==> a.has(3));
        assert(b.has(4) ==> a.has(4));
        assert(b.has(5) ==> a.has(5));
        assert(b.has(6) ==> a.has(6));
        assert(b.has(7) ==> a.has(7));
    }
}

/// `contains_any` is the intersection test: some id is held by both.
pub proof fn lemma_contains_any_intersects(a: Plids, b: Plids)
    ensures
        (a.0 & b.0 != 0) <==> (exists|q: u8| #[trigger] a.has(q) && b.has(q)),
{
    lemma_plid_bits();
    let x = a.0;
    let y = b.0;
    assert((x & y != 0u8) <==> (
        (x & 1u8 != 0u8 && y & 1u8 != 0u8) || (x & 2u8 != 0u8 && y & 2u8 != 0u8)
        || (x & 4u8 != 0u8 && y & 4u8 != 0u8) || (x & 8u8 != 0u8 && y & 8u8 != 0u8)
        || (x & 16u8 != 0u8 && y & 16u8 != 0u8) || (x & 32u8 != 0u8 && y & 32u8 != 0u8)
        || (x & 64u8 != 0u8 && y & 64u8 != 0u8) || (x & 128u8 != 0u8 && y & 128u8 != 0u8))) by (bit_vector);
    if x & y != 0u8 {
        assert(a.has(0) && b.has(0) || a.has(1) && b.has(1) || a.has(2) && b.has(2) || a.has(3) && b.has(3)
            || a.has(4) && b.has(4) || a.has(5) && b.has(5) || a.has(6) && b.has(6) || a.has(7) && b.has(7));
    }
}

/// Iterator over the player ids held by a [`Plids`] mask, in increasing order.
pub struct PlidsIter {
    pub plids: Plids,
    pub next: u8,
    pub max: u8,
}

impl PlidsIter {
    /// The ids that are still to come: those in the mask from `next` to `max`.
    pub open spec fn remaining(self) -> Seq<u8>
        decreases (if self.next <= self.max { self.max - self.next + 1 } else { 0 }),
    {
        if self.next > self.max || self.next >= 255 {
            Seq::empty()
        } else {
            let rest = PlidsIter { plids: self.plids, next: (self.next + 1) as u8, max: self.max }.remaining();
            if self.plids.0 & plid_bit(self.next) != 0 {
                seq![self.next].add(rest)
            } else {
                rest
            }
        }
    }

    /// The next player id in the mask, if any.
    pub fn next(&mut self) -> (r: Option<PlayerId>)
        requires
            old(self).max <= MAX_PLID,
        ensures
            final(self).plids == old(self).plids,
            final(self).max == old(self).max,
            old(self).remaining().len() == 0 ==> r is None && final(self).remaining().len() == 0,
            old(self).remaining().len() > 0 ==> r == Some(PlayerId::from_value(old(self).remaining()[0]))
                && final(self).remaining() == old(self).remaining().drop_first(),
    {
        loop
            invariant
                self.plids == old(self).plids,
                self.max == old(self).max,
                self.max <= MAX_PLID,
                self.remaining() == old(self).remaining(),
            decreases (if self.next <= self.max { self.max - self.next + 1 } else { 0 }),
        {
            if self.next > self.max {
                return None;
            }
            let cur = self.next;
            self.next = self.next + 1;
            if self.plids.contains(PlayerId::from_u8(cur)) {
                return Some(PlayerId::from_u8(cur));
            }
        }
    }
}

/// What an iterator over a mask yields, one by one, before it returns
/// `None` for good (see `PlidsIter::next`): the ids of the mask from `next`
/// to `max`, in increasing order, each once.
pub proof fn lemma_plids_iter_yields(it: PlidsIter)
    requires
        it.max <= MAX_PLID,
    ensures
        forall|i: int, j: int| 0 <= i < j < it.remaining().len() ==> it.remaining()[i] < it.remaining()[j],
        forall|q: u8| it.remaining().contains(q) <==> (it.next <= q <= it.max && it.plids.has(q)),
        forall|i: int| 0 <= i < it.remaining().len() ==> it.next <= #[trigger] it.remaining()[i],
    decreases (if it.next <= it.max { it.max - it.next + 1 } else { 0 }),
{
    if it.next > it.max || it.next >= 255 {
    } else {
        let nx = PlidsIter { plids: it.plids, next: (it.next + 1) as u8, max: it.max };
        lemma_plids_iter_yields(nx);
        let rest = nx.remaining();
        let rem = it.remaining();
        if it.plids.0 & plid_bit(it.next) != 0 {
            assert(rem == seq![it.next].add(rest));
            assert forall|i: int, j: int| 0 <= i < j < rem.len() implies rem[i] < rem[j] by {
                if i == 0 {
                    assert(rem[j] == rest[j - 1]);
                } else {
                    assert(rem[i] == rest[i - 1] && rem[j] == rest[j - 1]);
                }
            }
            assert forall|i: int| 0 <= i < rem.len() implies it.next <= #[trigger] rem[i] by {
                if i > 0 {
                    assert(rem[i] == rest[i - 1]);
                }
            }
            assert forall|q: u8| rem.contains(q) <==> (it.next <= q <= it.max && it.plids.has(q)) by {
                if rem.contains(q) {
                    let k = choose|k: int| 0 <= k < rem.len() && rem[k] == q;
                    if k > 0 {
                        assert(rest[k - 1] == q);
                        assert(rest.contains(q));
                    }
                }
                if it.next <= q <= it.max && it.plids.has(q) {
                    if q == it.next {
                        assert(rem[0] == q);
                    } else {
                        assert(rest.contains(q));
                        let k = choose|k: int| 0 <= k < rest.len() && rest[k] == q;
                        assert(rem[k + 1] == q);
                    }
                }
            }
        } else {
            assert(rem == rest);
            assert forall|q: u8| rem.contains(q) <==> (it.next <= q <= it.max && it.plids.has(q)) by {
                if q == it.next && rem.contains(q) {
                    let k = choose|k: int| 0 <= k < rem.len() && rem[k] == q;
                    assert(rest[k] >= it.next + 1);
                }
            }
        }
    }
}

} // verus!
