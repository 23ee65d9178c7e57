//! The terms of one planet, kept in one flat run behind a layout.
//!
//! A table is made from the series of a planet, given coordinate by
//! coordinate and power by power. It copies their terms into one run and
//! hands each series back as the slice of the run that the layout assigns to
//! it. The terms themselves are opaque to the table.

use crate::layout::{
    as_counts, coordinate_start, counts_of, is_slot, slot_end, slot_start, sum_first, total_terms,
    SeriesLayout, COORDINATES,
};
use crate::planet::{Coordinate, Planet};
use vstd::prelude::*;
use vstd::slice::slice_subrange;

verus! {

/// Why a table could not be made.
#[derive(Clone, Copy, Debug, PartialEq, Eq, Structural)]
pub enum TableError {
    /// The coordinate was not given as many series as the planet populates.
    WrongPowers(Coordinate),
    /// The number of terms in the run does not fit in `usize`.
    TooManyTerms,
}

/// The series that a slice of series holds, in its order.
pub open spec fn series_of<T>(s: Seq<&[T]>) -> Seq<Seq<T>> {
    Seq::new(s.len(), |k: int| s[k]@)
}

/// The series of a planet made from the series of its three coordinates.
pub open spec fn table_of<T>(longitude: Seq<&[T]>, latitude: Seq<&[T]>, distance: Seq<&[T]>) -> Seq<
    Seq<Seq<T>>,
> {
    seq![series_of(longitude), series_of(latitude), series_of(distance)]
}

/// Number of terms in each of the series.
pub open spec fn lengths<T>(s: Seq<Seq<T>>) -> Seq<nat> {
    Seq::new(s.len(), |k: int| s[k].len())
}

/// Number of terms in each series of a planet, by coordinate and power.
pub open spec fn counts<T>(series: Seq<Seq<Seq<T>>>) -> Seq<Seq<nat>> {
    Seq::new(series.len(), |c: int| lengths(series[c]))
}

/// The counts have exactly the powers of time that `planet` populates.
pub open spec fn conforms(counts: Seq<Seq<nat>>, planet: Planet) -> bool {
    &&& counts[0].len() == planet.spec_powers(Coordinate::Longitude)
    &&& counts[1].len() == planet.spec_powers(Coordinate::Latitude)
    &&& counts[2].len() == planet.spec_powers(Coordinate::Distance)
}

/// The terms of the first `n` series, one series after the other.
pub open spec fn joined<T>(s: Seq<Seq<T>>, n: int) -> Seq<T>
    decreases n,
{
    if n <= 0 {
        Seq::empty()
    } else {
        joined(s, n - 1) + s[n - 1]
    }
}

/// The run of all terms of a planet: its longitude series, then its latitude
/// series, then its distance series.
pub open spec fn run<T>(series: Seq<Seq<Seq<T>>>) -> Seq<T> {
    joined(series[0], series[0].len() as int) + joined(series[1], series[1].len() as int) + joined(
        series[2],
        series[2].len() as int,
    )
}

/// Joined series are as long as their lengths sum up to.
pub proof fn lemma_joined_len<T>(s: Seq<Seq<T>>, n: int)
    requires
        0 <= n <= s.len(),
    ensures
        joined(s, n).len() == sum_first(lengths(s), n),
    decreases n,
{
    if 0 < n {
        lemma_joined_len(s, n - 1);
    }
}

/// Among the first `n` series joined, series `k` takes the positions from the
/// sum of the lengths before it to the sum that includes its own.
pub proof fn lemma_joined_series<T>(s: Seq<Seq<T>>, n: int, k: int)
    requires
        0 <= k < n <= s.len(),
    ensures
        sum_first(lengths(s), k) <= sum_first(lengths(s), k + 1) <= joined(s, n).len(),
        joined(s, n).subrange(
            sum_first(lengths(s), k) as int,
            sum_first(lengths(s), k + 1) as int,
        ) == s[k],
    decreases n,
{
    lemma_joined_len(s, n);
    lemma_joined_len(s, n - 1);
    if k < n - 1 {
        lemma_joined_series(s, n - 1, k);
    }
}

/// Every series of a planet is found again in the run, at the positions that
/// the layout of its counts assigns to it, and the run is as long as the
/// layout says.
pub proof fn lemma_run_series<T>(series: Seq<Seq<Seq<T>>>, c: int, k: int)
    requires
        series.len() == COORDINATES,
        is_slot(counts(series), c, k),
    ensures
        run(series).len() == total_terms(counts(series)),
        slot_start(counts(series), c, k) <= slot_end(counts(series), c, k) <= run(series).len(),
        run(series).subrange(
            slot_start(counts(series), c, k) as int,
            slot_end(counts(series), c, k) as int,
        ) == series[c][k],
{
    reveal_with_fuel(coordinate_start, 4);
    lemma_joined_len(series[0], series[0].len() as int);
    lemma_joined_len(series[1], series[1].len() as int);
    lemma_joined_len(series[2], series[2].len() as int);
    lemma_joined_series(series[c], series[c].len() as int, k);
}

/// The series of one planet: its terms in one run, and the layout that says
/// where in the run each series lies.
pub struct SeriesTable<T> {
    planet: Planet,
    layout: SeriesLayout,
    terms: Vec<T>,
    series: Ghost<Seq<Seq<Seq<T>>>>,
}

impl<T> View for SeriesTable<T> {
    type V = Seq<Seq<Seq<T>>>;

    /// The series of the table, by coordinate and power.
    closed spec fn view(&self) -> Seq<Seq<Seq<T>>> {
        self.series@
    }
}

/// Number of terms in each of the series.
fn series_lengths<T>(series: &[&[T]]) -> (found: Vec<usize>)
    ensures
        as_counts(found@) == lengths(series_of(series@)),
{
    let mut found: Vec<usize> = Vec::new();
    let mut k: usize = 0;
    while k < series.len()
        invariant
            k <= series@.len(),
            found@.len() == k,
            forall|j: int| 0 <= j < k ==> #[trigger] found@[j] == series@[j]@.len(),
        decreases series@.len() - k,
    {
        found.push(series[k].len());
        k += 1;
    }
    found
}

/// Copies the terms of every series, in order, to the end of `terms`.
fn extend_with<T: Copy>(terms: &mut Vec<T>, series: &[&[T]])
    ensures
        final(terms)@ == old(terms)@ + joined(series_of(series@), series@.len() as int),
{
    let ghost before = terms@;
    let ghost all = series_of(series@);
    let mut k: usize = 0;
    while k < series.len()
        invariant
            k <= series@.len(),
            all == series_of(series@),
            terms@ == before + joined(all, k as int),
        decreases series@.len() - k,
    {
        let one = series[k];
        let mut i: usize = 0;
        while i < one.len()
            invariant
                i <= one@.len(),
                terms@ == before + joined(all, k as int) + one@.take(i as int),
            decreases one@.len() - i,
        {
            terms.push(one[i]);
            i += 1;
        }
        k += 1;
    }
}

impl<T> SeriesTable<T> {
    /// The layout is that of the series, it has the powers of the planet, and
    /// the stored terms are the run of the series.
    #[verifier::type_invariant]
    spec fn inv(&self) -> bool {
        &&& self.series@.len() == COORDINATES
        &&& self.layout@ == counts(self.series@)
        &&& conforms(self.layout@, self.planet)
        &&& self.terms@ == run(self.series@)
    }

    /// The planet whose series the table holds.
    pub closed spec fn spec_planet(&self) -> Planet {
        self.planet
    }

    /// Makes the table of `planet` from its series. Each argument lists the
    /// series of one coordinate, from `t^0` up.
    ///
    /// Fails when a coordinate does not have exactly the series that the
    /// planet populates, naming the first such coordinate, and otherwise when
    /// the terms are too many to count in `usize`.
    pub fn new(planet: Planet, longitude: &[&[T]], latitude: &[&[T]], distance: &[&[T]]) -> (made:
        Result<SeriesTable<T>, TableError>) where T: Copy
        ensures
            match made {
                Ok(table) => {
                    &&& table.spec_planet() == planet
                    &&& table@ == table_of(longitude@, latitude@, distance@)
                    &&& conforms(counts(table@), planet)
                    &&& total_terms(counts(table@)) <= usize::MAX
                },
                Err(TableError::WrongPowers(c)) => {
                    let given = table_of(longitude@, latitude@, distance@);
                    &&& given[c.spec_index()].len() != planet.spec_powers(c)
                    &&& c != Coordinate::Longitude ==> given[0].len() == planet.spec_powers(
                        Coordinate::Longitude,
                    )
                    &&& c == Coordinate::Distance ==> given[1].len() == planet.spec_powers(
                        Coordinate::Latitude,
                    )
                },
                Err(TableError::TooManyTerms) => {
                    let given = table_of(longitude@, latitude@, distance@);
                    &&& conforms(counts(given), planet)
                    &&& total_terms(counts(given)) > usize::MAX
                },
            },
    {
        let ghost given = table_of(longitude@, latitude@, distance@);
        if longitude.len() != planet.powers(Coordinate::Longitude) {
            return Err(TableError::WrongPowers(Coordinate::Longitude));
        }
        if latitude.len() != planet.powers(Coordinate::Latitude) {
            return Err(TableError::WrongPowers(Coordinate::Latitude));
        }
        if distance.len() != planet.powers(Coordinate::Distance) {
            return Err(TableError::WrongPowers(Coordinate::Distance));
        }
        let longitude_counts = series_lengths(longitude);
        let latitude_counts = series_lengths(latitude);
        let distance_counts = series_lengths(distance);
        assert(counts_of(longitude_counts@, latitude_counts@, distance_counts@) =~= counts(given));
        let layout = match SeriesLayout::new(
            longitude_counts.as_slice(),
            latitude_counts.as_slice(),
            distance_counts.as_slice(),
        ) {
            Ok(layout) => layout,
            // Every coordinate has the powers of the planet, so the layout
            // can only be refused for the number of its terms.
            Err(_) => {
                return Err(TableError::TooManyTerms);
            },
        };
        let mut terms: Vec<T> = Vec::new();
        extend_with(&mut terms, longitude);
        extend_with(&mut terms, latitude);
        extend_with(&mut terms, distance);
        Ok(SeriesTable { planet, layout, terms, series: Ghost(given) })
    }

    /// The planet whose series the table holds.
    pub fn planet(&self) -> (planet: Planet)
        ensures
            planet == self.spec_planet(),
    {
        self.planet
    }

    /// Number of series, and so of populated powers of time, of coordinate
    /// `c`.
    pub fn powers(&self, c: Coordinate) -> (n: usize)
        ensures
            n == self@[c.spec_index()].len(),
            n == self.spec_planet().spec_powers(c),
    {
        proof {
            use_type_invariant(self);
        }
        self.layout.powers(c)
    }

    /// The terms of the series of coordinate `c` for `t^power`, as they were
    /// given when the table was made, or `None` when the planet has no such
    /// series.
    pub fn series(&self, c: Coordinate, power: usize) -> (found: Option<&[T]>)
        ensures
            match found {
                Some(terms) => {
                    &&& power < self.spec_planet().spec_powers(c)
                    &&& terms@ == self@[c.spec_index()][power as int]
                },
                None => power >= self.spec_planet().spec_powers(c),
            },
    {
        proof {
            use_type_invariant(self);
        }
        match self.layout.slot(c, power) {
            Some(range) => {
                proof {
                    lemma_run_series(self.series@, c.spec_index(), power as int);
                }
                Some(slice_subrange(self.terms.as_slice(), range.start, range.end))
            },
            None => None,
        }
    }

    /// Number of terms in the table, all series together.
    pub fn term_count(&self) -> (n: usize)
        ensures
            n == run(self@).len(),
            n == total_terms(counts(self@)),
    {
        proof {
            use_type_invariant(self);
            lemma_run_series(self.series@, 0, 0);
        }
        self.layout.term_count()
    }
}

} // verus!
