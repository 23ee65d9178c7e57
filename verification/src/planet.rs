//! The planets, their coordinates, and the powers of time each series uses.

use vstd::prelude::*;

verus! {

/// Number of powers of time a coordinate can use at most: `t^0` to `t^5`.
pub const MAX_POWERS: usize = 6;

/// One of the three heliocentric spherical coordinates.
#[derive(Clone, Copy, Debug, PartialEq, Eq, Structural)]
pub enum Coordinate {
    /// Ecliptic longitude, in radians.
    Longitude,
    /// Ecliptic latitude, in radians.
    Latitude,
    /// Distance from the Sun, in astronomical units.
    Distance,
}

/// One of the eight major planets.
#[derive(Clone, Copy, Debug, PartialEq, Eq, Structural)]
pub enum Planet {
    Mercury,
    Venus,
    Earth,
    Mars,
    Jupiter,
    Saturn,
    Uranus,
    Neptune,
}

impl Coordinate {
    /// Position of the coordinate in the order longitude, latitude, distance.
    pub open spec fn spec_index(self) -> int {
        match self {
            Coordinate::Longitude => 0,
            Coordinate::Latitude => 1,
            Coordinate::Distance => 2,
        }
    }

    /// Whether the coordinate is an angle that is brought into `[0, 2π)`.
    /// Only the longitude is; latitude and distance are left as summed.
    pub open spec fn spec_wraps(self) -> bool {
        self == Coordinate::Longitude
    }

    /// Whether the recombined sum of this coordinate is reduced modulo `2π`.
    pub fn wraps(self) -> (w: bool)
        ensures
            w == self.spec_wraps(),
    {
        match self {
            Coordinate::Longitude => true,
            _ => false,
        }
    }
}

impl Planet {
    /// Position of the planet in the order outwards from the Sun.
    pub open spec fn spec_index(self) -> int {
        match self {
            Planet::Mercury => 0,
            Planet::Venus => 1,
            Planet::Earth => 2,
            Planet::Mars => 3,
            Planet::Jupiter => 4,
            Planet::Saturn => 5,
            Planet::Uranus => 6,
            Planet::Neptune => 7,
        }
    }

    /// Number of powers of time, counted from `t^0`, that the series of
    /// coordinate `c` populates for this planet.
    ///
    /// Longitude runs to `t^5`, except for the Earth, which stops at `t^4`.
    /// Latitude runs to `t^5`, except for the Earth, Uranus and Neptune,
    /// which stop at `t^4`. Distance runs to `t^4`, except for Uranus and
    /// Neptune, which stop at `t^3`.
    pub open spec fn spec_powers(self, c: Coordinate) -> nat {
        match c {
            Coordinate::Longitude => if self == Planet::Earth { 5 } else { 6 },
            Coordinate::Latitude => if self == Planet::Earth || self == Planet::Uranus || self
                == Planet::Neptune {
                5
            } else {
                6
            },
            Coordinate::Distance => if self == Planet::Uranus || self == Planet::Neptune {
                4
            } else {
                5
            },
        }
    }

    /// Number of populated powers of time for coordinate `c`.
    pub fn powers(self, c: Coordinate) -> (n: usize)
        ensures
            n == self.spec_powers(c),
            1 <= n <= MAX_POWERS,
    {
        match c {
            Coordinate::Longitude => match self {
                Planet::Earth => 5,
                _ => 6,
            },
            Coordinate::Latitude => match self {
                Planet::Earth | Planet::Uranus | Planet::Neptune => 5,
                _ => 6,
            },
            Coordinate::Distance => match self {
                Planet::Uranus | Planet::Neptune => 4,
                _ => 5,
            },
        }
    }
}

/// Every series has its constant term, and no series goes beyond `t^5`.
pub proof fn lemma_powers_bounded(planet: Planet, c: Coordinate)
    ensures
        1 <= planet.spec_powers(c) <= MAX_POWERS,
{
}

/// No planet has a distance series for `t^5`, and the longitude series is
/// never shorter than the latitude or the distance series.
pub proof fn lemma_longitude_is_longest(planet: Planet)
    ensures
        planet.spec_powers(Coordinate::Distance) < MAX_POWERS,
        planet.spec_powers(Coordinate::Latitude) <= planet.spec_powers(Coordinate::Longitude),
        planet.spec_powers(Coordinate::Distance) <= planet.spec_powers(Coordinate::Longitude),
{
}

} // verus!
