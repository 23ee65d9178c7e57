//! Flat layout of the series of one planet.
//!
//! The terms of a planet are kept in one run: first every longitude series in
//! order of rising power of time, then the latitude series, then the distance
//! series. A series is a slot of that run. The layout is described by the
//! number of terms in each slot, one sequence of counts per coordinate.

use crate::planet::{Coordinate, MAX_POWERS};
use vstd::prelude::*;

verus! {

/// Number of coordinates, and so of sequences of counts in a layout.
pub const COORDINATES: usize = 3;

/// Sum of the first `n` entries of `s`.
pub open spec fn sum_first(s: Seq<nat>, n: int) -> nat
    decreases n,
{
    if n <= 0 {
        0
    } else {
        sum_first(s, n - 1) + s[n - 1]
    }
}

/// The counts have one sequence per coordinate, none longer than
/// `MAX_POWERS`.
pub open spec fn well_shaped(counts: Seq<Seq<nat>>) -> bool {
    &&& counts.len() == COORDINATES
    &&& forall|c: int| 0 <= c < COORDINATES ==> (#[trigger] counts[c]).len() <= MAX_POWERS
}

/// Number of terms of coordinate `c`, all powers together.
pub open spec fn coordinate_terms(counts: Seq<Seq<nat>>, c: int) -> nat {
    sum_first(counts[c], counts[c].len() as int)
}

/// Position in the run at which the terms of coordinate `c` begin: the number
/// of terms of all coordinates before it.
pub open spec fn coordinate_start(counts: Seq<Seq<nat>>, c: int) -> nat
    decreases c,
{
    if c <= 0 {
        0
    } else {
        coordinate_start(counts, c - 1) + coordinate_terms(counts, c - 1)
    }
}

/// Position of the first term of the series of coordinate `c` and power `k`.
pub open spec fn slot_start(counts: Seq<Seq<nat>>, c: int, k: int) -> nat {
    coordinate_start(counts, c) + sum_first(counts[c], k)
}

/// Position just past the last term of the series of coordinate `c` and
/// power `k`.
pub open spec fn slot_end(counts: Seq<Seq<nat>>, c: int, k: int) -> nat {
    slot_start(counts, c, k) + counts[c][k]
}

/// Number of terms in the whole run.
pub open spec fn total_terms(counts: Seq<Seq<nat>>) -> nat {
    coordinate_start(counts, COORDINATES as int)
}

/// `(c, k)` names a populated slot of the layout.
pub open spec fn is_slot(counts: Seq<Seq<nat>>, c: int, k: int) -> bool {
    0 <= c < COORDINATES && 0 <= k < counts[c].len()
}

/// Slot `(c1, k1)` comes before slot `(c2, k2)` in the run.
pub open spec fn slot_precedes(c1: int, k1: int, c2: int, k2: int) -> bool {
    c1 < c2 || (c1 == c2 && k1 < k2)
}

/// The numbers of terms handed to a layout, as natural numbers.
pub open spec fn as_counts(s: Seq<usize>) -> Seq<nat> {
    Seq::new(s.len(), |i: int| s[i] as nat)
}

/// The counts of a layout made from the counts of its three coordinates.
pub open spec fn counts_of(
    longitude: Seq<usize>,
    latitude: Seq<usize>,
    distance: Seq<usize>,
) -> Seq<Seq<nat>> {
    seq![as_counts(longitude), as_counts(latitude), as_counts(distance)]
}

/// Partial sums do not shrink as more entries are taken.
pub proof fn lemma_sum_first_monotone(s: Seq<nat>, i: int, j: int)
    requires
        i <= j,
    ensures
        sum_first(s, i) <= sum_first(s, j),
    decreases j,
{
    if i < j && 0 < j {
        lemma_sum_first_monotone(s, i, j - 1);
    }
}

/// Coordinates begin in order, and each one begins where the one before it
/// ends.
pub proof fn lemma_coordinate_start_monotone(counts: Seq<Seq<nat>>, c1: int, c2: int)
    requires
        0 <= c1 <= c2,
    ensures
        coordinate_start(counts, c1) <= coordinate_start(counts, c2),
        c1 < c2 ==> coordinate_start(counts, c1) + coordinate_terms(counts, c1)
            <= coordinate_start(counts, c2),
    decreases c2,
{
    if c1 < c2 {
        lemma_coordinate_start_monotone(counts, c1, c2 - 1);
    }
}

/// A slot lies inside the run and holds as many positions as it has terms.
pub proof fn lemma_slot_within_run(counts: Seq<Seq<nat>>, c: int, k: int)
    requires
        well_shaped(counts),
        is_slot(counts, c, k),
    ensures
        slot_end(counts, c, k) == slot_start(counts, c, k) + counts[c][k],
        slot_start(counts, c, k) <= slot_end(counts, c, k) <= total_terms(counts),
{
    lemma_sum_first_monotone(counts[c], k + 1, counts[c].len() as int);
    lemma_coordinate_start_monotone(counts, c, COORDINATES as int);
}

/// Slots follow one another without a gap: a slot ends where the next power
/// of the same coordinate begins, the last slot of a coordinate ends where
/// the next coordinate begins, and the run begins with the first coordinate
/// and ends with the last.
pub proof fn lemma_slots_abut(counts: Seq<Seq<nat>>, c: int, k: int)
    requires
        well_shaped(counts),
        0 <= c < COORDINATES,
        0 <= k <= counts[c].len(),
    ensures
        k < counts[c].len() ==> slot_end(counts, c, k) == slot_start(counts, c, k + 1),
        slot_start(counts, c, counts[c].len() as int) == coordinate_start(counts, c + 1),
        slot_start(counts, 0, 0) == 0,
        coordinate_start(counts, COORDINATES as int) == total_terms(counts),
{
}

/// Slots do not overlap: a slot that comes before another ends no later than
/// the other begins.
pub proof fn lemma_slots_in_order(counts: Seq<Seq<nat>>, c1: int, k1: int, c2: int, k2: int)
    requires
        well_shaped(counts),
        is_slot(counts, c1, k1),
        is_slot(counts, c2, k2),
        slot_precedes(c1, k1, c2, k2),
    ensures
        slot_end(counts, c1, k1) <= slot_start(counts, c2, k2),
{
    if c1 == c2 {
        lemma_sum_first_monotone(counts[c1], k1 + 1, k2);
    } else {
        lemma_sum_first_monotone(counts[c1], k1 + 1, counts[c1].len() as int);
        lemma_coordinate_start_monotone(counts, c1, c2);
    }
}

/// A position below the sum of the first `n` entries falls into one of them.
proof fn lemma_position_in_entry(s: Seq<nat>, q: int, n: int) -> (k: int)
    requires
        0 <= q < sum_first(s, n),
    ensures
        0 <= k < n,
        sum_first(s, k) <= q < sum_first(s, k + 1),
    decreases n,
{
    if q < sum_first(s, n - 1) {
        lemma_position_in_entry(s, q, n - 1)
    } else {
        n - 1
    }
}

/// Every position of the run belongs to exactly one slot.
pub proof fn lemma_position_in_one_slot(counts: Seq<Seq<nat>>, p: int) -> (slot: (int, int))
    requires
        well_shaped(counts),
        0 <= p < total_terms(counts),
    ensures
        is_slot(counts, slot.0, slot.1),
        slot_start(counts, slot.0, slot.1) <= p < slot_end(counts, slot.0, slot.1),
        forall|c: int, k: int|
            is_slot(counts, c, k) && #[trigger] slot_start(counts, c, k) <= p < slot_end(
                counts,
                c,
                k,
            ) ==> c == slot.0 && k == slot.1,
{
    reveal_with_fuel(coordinate_start, 4);
    let c: int = if p < coordinate_start(counts, 1) {
        0
    } else if p < coordinate_start(counts, 2) {
        1
    } else {
        2
    };
    let k = lemma_position_in_entry(
        counts[c],
        p - coordinate_start(counts, c),
        counts[c].len() as int,
    );
    assert forall|c2: int, k2: int|
        is_slot(counts, c2, k2) && #[trigger] slot_start(counts, c2, k2) <= p < slot_end(
            counts,
            c2,
            k2,
        ) implies c2 == c && k2 == k by {
        if slot_precedes(c2, k2, c, k) {
            lemma_slots_in_order(counts, c2, k2, c, k);
        } else if slot_precedes(c, k, c2, k2) {
            lemma_slots_in_order(counts, c, k, c2, k2);
        }
    }
    (c, k)
}

/// The positions `start..end` that one series takes in the run of terms.
#[derive(Clone, Copy, Debug, PartialEq, Eq, Structural)]
pub struct TermRange {
    pub start: usize,
    pub end: usize,
}

/// Why a layout could not be made.
#[derive(Clone, Copy, Debug, PartialEq, Eq, Structural)]
pub enum LayoutError {
    /// The coordinate was given more series than there are powers of time.
    TooManyPowers(Coordinate),
    /// The number of terms in the run does not fit in `usize`.
    TooManyTerms,
}

/// Where each series of one planet lies in the flat run of its terms.
pub struct SeriesLayout {
    longitude: Vec<usize>,
    latitude: Vec<usize>,
    distance: Vec<usize>,
    counts: Ghost<Seq<Seq<nat>>>,
}

/// `bounds` lists where the slots of coordinate `c` begin, and at its end
/// where the last of them ends.
spec fn bounds_match(bounds: Seq<usize>, counts: Seq<Seq<nat>>, c: int) -> bool {
    &&& bounds.len() == counts[c].len() + 1
    &&& forall|k: int|
        0 <= k <= counts[c].len() ==> #[trigger] bounds[k] == slot_start(counts, c, k)
}

impl View for SeriesLayout {
    type V = Seq<Seq<nat>>;

    /// The number of terms in each slot, by coordinate and power.
    closed spec fn view(&self) -> Seq<Seq<nat>> {
        self.counts@
    }
}

/// Running positions from `start` on: entry `k` is `start` plus the first `k`
/// counts. `None` when the last position does not fit in `usize`.
fn running_bounds(start: usize, counts: &[usize]) -> (bounds: Option<Vec<usize>>)
    ensures
        match bounds {
            Some(b) => {
                &&& b@.len() == counts@.len() + 1
                &&& forall|k: int|
                    0 <= k <= counts@.len() ==> #[trigger] b@[k] == start + sum_first(
                        as_counts(counts@),
                        k,
                    )
            },
            None => start + sum_first(as_counts(counts@), counts@.len() as int) > usize::MAX,
        },
{
    let mut bounds: Vec<usize> = Vec::new();
    bounds.push(start);
    let mut at: usize = start;
    let mut k: usize = 0;
    while k < counts.len()
        invariant
            k <= counts@.len(),
            bounds@.len() == k + 1,
            at == start + sum_first(as_counts(counts@), k as int),
            forall|j: int|
                0 <= j <= k ==> #[trigger] bounds@[j] == start + sum_first(as_counts(counts@), j),
        decreases counts@.len() - k,
    {
        match at.checked_add(counts[k]) {
            Some(next) => {
                at = next;
                bounds.push(at);
            },
            None => {
                proof {
                    lemma_sum_first_monotone(
                        as_counts(counts@),
                        k + 1,
                        counts@.len() as int,
                    );
                }
                return None;
            },
        }
        k += 1;
    }
    Some(bounds)
}

impl SeriesLayout {
    /// The bounds stored for each coordinate are the slot positions that the
    /// counts give.
    #[verifier::type_invariant]
    spec fn inv(&self) -> bool {
        &&& well_shaped(self.counts@)
        &&& bounds_match(self.longitude@, self.counts@, 0)
        &&& bounds_match(self.latitude@, self.counts@, 1)
        &&& bounds_match(self.distance@, self.counts@, 2)
    }

    /// Lays out the series of one planet from the number of terms in each of
    /// them. Each argument lists the counts of one coordinate, from `t^0` up.
    ///
    /// Fails when a coordinate has more than `MAX_POWERS` series, naming the
    /// first such coordinate, and otherwise when the terms are too many to
    /// count in `usize`.
    pub fn new(longitude: &[usize], latitude: &[usize], distance: &[usize]) -> (made: Result<
        SeriesLayout,
        LayoutError,
    >)
        ensures
            match made {
                Ok(layout) => {
                    &&& layout@ == counts_of(longitude@, latitude@, distance@)
                    &&& well_shaped(layout@)
                    &&& total_terms(layout@) <= usize::MAX
                },
                Err(LayoutError::TooManyPowers(c)) => {
                    let counts = counts_of(longitude@, latitude@, distance@);
                    &&& counts[c.spec_index()].len() > MAX_POWERS
                    &&& forall|d: int|
                        0 <= d < c.spec_index() ==> (#[trigger] counts[d]).len() <= MAX_POWERS
                },
                Err(LayoutError::TooManyTerms) => {
                    let counts = counts_of(longitude@, latitude@, distance@);
                    &&& well_shaped(counts)
                    &&& total_terms(counts) > usize::MAX
                },
            },
    {
        let ghost counts = counts_of(longitude@, latitude@, distance@);
        proof {
            reveal_with_fuel(coordinate_start, 4);
        }
        if longitude.len() > MAX_POWERS {
            return Err(LayoutError::TooManyPowers(Coordinate::Longitude));
        }
        if latitude.len() > MAX_POWERS {
            return Err(LayoutError::TooManyPowers(Coordinate::Latitude));
        }
        if distance.len() > MAX_POWERS {
            return Err(LayoutError::TooManyPowers(Coordinate::Distance));
        }
        let lon = match running_bounds(0, longitude) {
            Some(b) => b,
            None => {
                return Err(LayoutError::TooManyTerms);
            },
        };
        let lat = match running_bounds(lon[longitude.len()], latitude) {
            Some(b) => b,
            None => {
                return Err(LayoutError::TooManyTerms);
            },
        };
        let dist = match running_bounds(lat[latitude.len()], distance) {
            Some(b) => b,
            None => {
                return Err(LayoutError::TooManyTerms);
            },
        };
        assert(dist@[distance@.len() as int] == total_terms(counts));
        Ok(SeriesLayout { longitude: lon, latitude: lat, distance: dist, counts: Ghost(counts) })
    }

    /// The stored bounds of coordinate `c`.
    fn bounds(&self, c: Coordinate) -> (b: &Vec<usize>)
        ensures
            bounds_match(b@, self.counts@, c.spec_index()),
            well_shaped(self.counts@),
    {
        proof {
            use_type_invariant(self);
        }
        match c {
            Coordinate::Longitude => &self.longitude,
            Coordinate::Latitude => &self.latitude,
            Coordinate::Distance => &self.distance,
        }
    }

    /// Number of series, and so of populated powers of time, of coordinate
    /// `c`.
    pub fn powers(&self, c: Coordinate) -> (n: usize)
        ensures
            n == self@[c.spec_index()].len(),
            well_shaped(self@),
    {
        self.bounds(c).len() - 1
    }

    /// The positions of the series of coordinate `c` for `t^power`, or `None`
    /// when the layout has no such series.
    pub fn slot(&self, c: Coordinate, power: usize) -> (found: Option<TermRange>)
        ensures
            match found {
                Some(range) => {
                    &&& is_slot(self@, c.spec_index(), power as int)
                    &&& range.start == slot_start(self@, c.spec_index(), power as int)
                    &&& range.end == slot_end(self@, c.spec_index(), power as int)
                },
                None => !is_slot(self@, c.spec_index(), power as int),
            },
            well_shaped(self@),
    {
        let bounds = self.bounds(c);
        if power < bounds.len() - 1 {
            Some(TermRange { start: bounds[power], end: bounds[power + 1] })
        } else {
            None
        }
    }

    /// Number of terms in the whole run.
    pub fn term_count(&self) -> (n: usize)
        ensures
            n == total_terms(self@),
            well_shaped(self@),
    {
        proof {
            use_type_invariant(self);
        }
        self.distance[self.distance.len() - 1]
    }
}

} // verus!
