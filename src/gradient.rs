//! Gradients: an ordered store of colour stops and the search for the pair of
//! stops that brackets a position.
//!
//! A gradient is generic over the colour that its stops carry; positions are
//! bit patterns of binary64 numbers, ordered by their key (see
//! [`crate::position`]). Interpolating between the two bracketing colours is
//! left to the caller.
use vstd::prelude::*;

use crate::position::{key_of, position_key};

verus! {

/// A gradient stop: a position, as a binary64 bit pattern, and its colour.
pub type GradientStop<C> = (u64, C);

/// The stops are strictly ascending by the key of their position, so no two
/// share a position.
pub open spec fn sorted_stops<C>(s: Seq<GradientStop<C>>) -> bool {
    forall|i: int, j: int| 0 <= i < j < s.len() ==> key_of(#[trigger] s[i].0) < key_of(#[trigger] s[j].0)
}

/// The first index from `i` on whose stop key is at least `k`, or the length.
pub open spec fn first_at_least<C>(s: Seq<GradientStop<C>>, k: u64, i: int) -> int
    decreases s.len() - i,
{
    if i >= s.len() {
        s.len() as int
    } else if key_of(s[i].0) >= k {
        i
    } else {
        first_at_least(s, k, i + 1)
    }
}

/// The first index from `i` on whose stop key is greater than `k`, or the length.
pub open spec fn first_above<C>(s: Seq<GradientStop<C>>, k: u64, i: int) -> int
    decreases s.len() - i,
{
    if i >= s.len() {
        s.len() as int
    } else if key_of(s[i].0) > k {
        i
    } else {
        first_above(s, k, i + 1)
    }
}

/// The stops after inserting `colour` at position `bits`: the colour of a stop
/// at an equal position is replaced (its position is kept); otherwise a new
/// stop goes before the first stop whose position is not less than `bits`.
pub open spec fn inserted<C>(s: Seq<GradientStop<C>>, bits: u64, colour: C) -> Seq<GradientStop<C>> {
    let p = first_at_least(s, key_of(bits), 0);
    if p < s.len() && key_of(s[p].0) == key_of(bits) {
        s.update(p, (s[p].0, colour))
    } else {
        s.insert(p, (bits, colour))
    }
}

/// The stops after inserting each of `items` in turn into `s`.
pub open spec fn inserted_all<C>(s: Seq<GradientStop<C>>, items: Seq<GradientStop<C>>) -> Seq<GradientStop<C>>
    decreases items.len(),
{
    if items.len() == 0 {
        s
    } else {
        inserted(inserted_all(s, items.drop_last()), items.last().0, items.last().1)
    }
}

/// The pair of stops that brackets position `bits`: the first stop twice
/// before it, the last stop twice at or after it, and otherwise the first stop
/// above the position together with the stop just before it.
pub open spec fn bracket<C>(s: Seq<GradientStop<C>>, bits: u64) -> (GradientStop<C>, GradientStop<C>) {
    let j = first_above(s, key_of(bits), 0);
    if j >= s.len() {
        (s.last(), s.last())
    } else if j == 0 {
        (s[0], s[0])
    } else {
        (s[j - 1], s[j])
    }
}

proof fn lemma_first_at_least<C>(s: Seq<GradientStop<C>>, k: u64, i: int)
    requires
        0 <= i <= s.len(),
    ensures
        i <= first_at_least(s, k, i) <= s.len(),
        forall|j: int| i <= j < first_at_least(s, k, i) ==> key_of(#[trigger] s[j].0) < k,
        first_at_least(s, k, i) < s.len() ==> key_of(s[first_at_least(s, k, i)].0) >= k,
    decreases s.len() - i,
{
    if i < s.len() && key_of(s[i].0) < k {
        lemma_first_at_least(s, k, i + 1);
    }
}

proof fn lemma_first_above<C>(s: Seq<GradientStop<C>>, k: u64, i: int)
    requires
        0 <= i <= s.len(),
    ensures
        i <= first_above(s, k, i) <= s.len(),
        forall|j: int| i <= j < first_above(s, k, i) ==> key_of(#[trigger] s[j].0) <= k,
        first_above(s, k, i) < s.len() ==> key_of(s[first_above(s, k, i)].0) > k,
    decreases s.len() - i,
{
    if i < s.len() && key_of(s[i].0) <= k {
        lemma_first_above(s, k, i + 1);
    }
}

/// Inserting keeps the stops sorted and unique by position. Where a stop at
/// an equal position exists, only its colour changes and the length stays the
/// same; otherwise exactly one stop, the new one, is added and every old stop
/// is kept.
pub proof fn lemma_insert_keeps_order<C>(s: Seq<GradientStop<C>>, bits: u64, colour: C)
    requires
        sorted_stops(s),
    ensures
        sorted_stops(inserted(s, bits, colour)),
        forall|i: int| 0 <= i < s.len() && key_of(#[trigger] s[i].0) == key_of(bits) ==> {
            &&& inserted(s, bits, colour).len() == s.len()
            &&& inserted(s, bits, colour)[i] == (s[i].0, colour)
            &&& forall|j: int| 0 <= j < s.len() && j != i ==> inserted(s, bits, colour)[j] == s[j]
        },
        (forall|i: int| 0 <= i < s.len() ==> key_of(#[trigger] s[i].0) != key_of(bits)) ==> {
            &&& inserted(s, bits, colour).len() == s.len() + 1
            &&& inserted(s, bits, colour).contains((bits, colour))
            &&& forall|i: int| 0 <= i < s.len() ==> inserted(s, bits, colour).contains(#[trigger] s[i])
        },
{
    let k = key_of(bits);
    let p = first_at_least(s, k, 0);
    lemma_first_at_least(s, k, 0);
    let r = inserted(s, bits, colour);
    if p < s.len() && key_of(s[p].0) == k {
        assert forall|i: int| 0 <= i < s.len() implies key_of(#[trigger] r[i].0) == key_of(s[i].0) by {}
        assert(sorted_stops(r));
        assert forall|i: int| 0 <= i < s.len() && key_of(#[trigger] s[i].0) == k implies i == p by {
            if i < p {
                assert(key_of(s[i].0) < k);
            } else if i > p {
                assert(key_of(s[p].0) < key_of(s[i].0));
            }
        }
    } else {
        assert forall|i: int, j: int| 0 <= i < j < r.len() implies key_of(#[trigger] r[i].0) < key_of(#[trigger] r[j].0) by {
            if j < p {
            } else if j == p {
                assert(key_of(s[i].0) < k);
            } else if i < p {
                assert(key_of(s[p].0) <= key_of(s[j - 1].0));
            } else if i == p {
                assert(key_of(s[p].0) <= key_of(s[j - 1].0));
            } else {
            }
        }
        assert(r[p] == (bits, colour));
        assert forall|i: int| 0 <= i < s.len() implies r.contains(#[trigger] s[i]) by {
            if i < p {
                assert(r[i] == s[i]);
            } else {
                assert(r[i + 1] == s[i]);
            }
        }
    }
}

/// The bracketing pair encloses the position: before the first stop both
/// are the first stop, at or after the last both are the last stop, and
/// otherwise they are neighbours, the lower at or below the position and the
/// upper above it.
pub proof fn lemma_bracket_encloses<C>(s: Seq<GradientStop<C>>, bits: u64)
    requires
        sorted_stops(s),
        s.len() > 0,
    ensures
        key_of(bits) < key_of(s[0].0) ==> bracket(s, bits) == (s[0], s[0]),
        key_of(bits) >= key_of(s.last().0) ==> bracket(s, bits) == (s.last(), s.last()),
        key_of(s[0].0) <= key_of(bits) < key_of(s.last().0) ==> exists|i: int| {
            &&& 0 <= i < s.len() - 1
            &&& key_of(#[trigger] s[i].0) <= key_of(bits) < key_of(s[i + 1].0)
            &&& bracket(s, bits) == (s[i], s[i + 1])
        },
{
    let k = key_of(bits);
    let j = first_above(s, k, 0);
    lemma_first_above(s, k, 0);
    if k >= key_of(s.last().0) {
        if j < s.len() {
            if j < s.len() - 1 {
                assert(key_of(s[j].0) < key_of(s[s.len() - 1].0));
            }
        }
    }
    if key_of(s[0].0) <= k < key_of(s.last().0) {
        assert(key_of(s[s.len() - 1].0) > k);
        assert(0 < j < s.len());
        assert(key_of(s[j - 1].0) <= k);
    }
}

/// A colour gradient: stops sorted strictly ascending by position.
pub struct Gradient<C> {
    stops: Vec<GradientStop<C>>,
}

impl<C> View for Gradient<C> {
    type V = Seq<GradientStop<C>>;

    closed spec fn view(&self) -> Seq<GradientStop<C>> {
        self.stops@
    }
}

impl<C: Copy> Gradient<C> {
    /// The gradient's invariant: its stops are sorted and unique by position.
    pub open spec fn wf(&self) -> bool {
        sorted_stops(self@)
    }

    /// A gradient without stops.
    pub fn new() -> (r: Self)
        ensures
            r@ == Seq::<GradientStop<C>>::empty(),
            r.wf(),
    {
        Gradient { stops: Vec::new() }
    }

    /// The stops, in ascending order of position.
    pub fn stops(&self) -> (r: &Vec<GradientStop<C>>)
        ensures
            r@ == self@,
    {
        &self.stops
    }

    /// The number of stops.
    pub fn len(&self) -> (r: usize)
        ensures
            r == self@.len(),
    {
        self.stops.len()
    }

    /// Inserts `colour` at position `t`. If a stop at an equal position
    /// exists, its colour is replaced; otherwise a stop is added before the
    /// first one whose position is not less than `t`, or at the end.
    pub fn insert(&mut self, t: u64, colour: C)
        requires
            old(self).wf(),
        ensures
            final(self).wf(),
            final(self)@ == inserted(old(self)@, t, colour),
    {
        let k = position_key(t);
        let n = self.stops.len();
        let mut i: usize = 0;
        while i < n
            invariant
                i <= n,
                n == self.stops@.len(),
                first_at_least(self.stops@, k, 0) == first_at_least(self.stops@, k, i as int),
            ensures
                i <= n,
                first_at_least(self.stops@, k, 0) == i,
            decreases n - i,
        {
            if position_key(self.stops[i].0) >= k {
                break;
            }
            i += 1;
        }
        proof {
            lemma_insert_keeps_order(self.stops@, t, colour);
        }
        if i < n && position_key(self.stops[i].0) == k {
            let kept = self.stops[i].0;
            self.stops.set(i, (kept, colour));
        } else if i < n {
            self.stops.insert(i, (t, colour));
        } else {
            proof {
                assert(self.stops@.push((t, colour)) =~= self.stops@.insert(n as int, (t, colour)));
            }
            self.stops.push((t, colour));
        }
    }

    /// The gradient holding `stops`, each inserted in turn: stops are
    /// sorted, and of stops at an equal position the last one's colour wins.
    pub fn from_stops(stops: Vec<GradientStop<C>>) -> (r: Self)
        ensures
            r.wf(),
            r@ == inserted_all(Seq::<GradientStop<C>>::empty(), stops@),
    {
        let mut g = Gradient::new();
        let mut i: usize = 0;
        while i < stops.len()
            invariant
                i <= stops@.len(),
                g.wf(),
                g@ == inserted_all(Seq::<GradientStop<C>>::empty(), stops@.subrange(0, i as int)),
            decreases stops@.len() - i,
        {
            let stop = stops[i];
            g.insert(stop.0, stop.1);
            proof {
                assert(stops@.subrange(0, i + 1).drop_last() =~= stops@.subrange(0, i as int));
            }
            i += 1;
        }
        proof {
            assert(stops@.subrange(0, stops@.len() as int) =~= stops@);
        }
        g
    }

    /// The two stops that bracket position `t`: the first stop twice if `t`
    /// lies before it, the last stop twice if `t` lies at or after it, and
    /// otherwise the first stop above `t` with the stop just before it.
    pub fn subgradient(&self, t: u64) -> (r: (GradientStop<C>, GradientStop<C>))
        requires
            self@.len() > 0,
        ensures
            r == bracket(self@, t),
    {
        let k = position_key(t);
        let n = self.stops.len();
        let mut j: usize = 0;
        while j < n
            invariant
                j <= n,
                n == self.stops@.len(),
                first_above(self.stops@, k, 0) == first_above(self.stops@, k, j as int),
            ensures
                j <= n,
                first_above(self.stops@, k, 0) == j,
            decreases n - j,
        {
            if position_key(self.stops[j].0) > k {
                break;
            }
            j += 1;
        }
        if j == n {
            let last = self.stops[n - 1];
            (last, last)
        } else if j == 0 {
            let first = self.stops[0];
            (first, first)
        } else {
            (self.stops[j - 1], self.stops[j])
        }
    }

    /// The colour of the lower stop that brackets `t`.
    pub fn select(&self, t: u64) -> (r: C)
        requires
            self@.len() > 0,
        ensures
            r == bracket(self@, t).0.1,
    {
        self.subgradient(t).0.1
    }

    /// The colour of the upper stop that brackets `t`.
    pub fn select_upper(&self, t: u64) -> (r: C)
        requires
            self@.len() > 0,
        ensures
            r == bracket(self@, t).1.1,
    {
        self.subgradient(t).1.1
    }
}

} // verus!
