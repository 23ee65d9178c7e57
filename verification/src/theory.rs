//! The tables of all eight planets, each under its own planet.

use crate::planet::Planet;
use crate::table::SeriesTable;
use vstd::prelude::*;

verus! {

/// A table was handed in for a planet whose series it does not hold.
#[derive(Clone, Copy, Debug, PartialEq, Eq, Structural)]
pub struct MisplacedTable {
    /// The planet the table was handed in for.
    pub place: Planet,
    /// The planet whose series the table holds.
    pub holds: Planet,
}

/// The table handed in for `planet`, of the eight listed outwards from the
/// Sun.
pub open spec fn table_for<T>(
    planet: Planet,
    mercury: SeriesTable<T>,
    venus: SeriesTable<T>,
    earth: SeriesTable<T>,
    mars: SeriesTable<T>,
    jupiter: SeriesTable<T>,
    saturn: SeriesTable<T>,
    uranus: SeriesTable<T>,
    neptune: SeriesTable<T>,
) -> SeriesTable<T> {
    match planet {
        Planet::Mercury => mercury,
        Planet::Venus => venus,
        Planet::Earth => earth,
        Planet::Mars => mars,
        Planet::Jupiter => jupiter,
        Planet::Saturn => saturn,
        Planet::Uranus => uranus,
        Planet::Neptune => neptune,
    }
}

/// One table for each of the eight planets.
pub struct TheoryTables<T> {
    mercury: SeriesTable<T>,
    venus: SeriesTable<T>,
    earth: SeriesTable<T>,
    mars: SeriesTable<T>,
    jupiter: SeriesTable<T>,
    saturn: SeriesTable<T>,
    uranus: SeriesTable<T>,
    neptune: SeriesTable<T>,
}

impl<T> TheoryTables<T> {
    /// Every table holds the series of the planet it is kept for.
    #[verifier::type_invariant]
    spec fn inv(&self) -> bool {
        forall|planet: Planet| (#[trigger] self.spec_table(planet)).spec_planet() == planet
    }

    /// The table kept for `planet`.
    pub closed spec fn spec_table(&self, planet: Planet) -> SeriesTable<T> {
        table_for(
            planet,
            self.mercury,
            self.venus,
            self.earth,
            self.mars,
            self.jupiter,
            self.saturn,
            self.uranus,
            self.neptune,
        )
    }

    /// Keeps the eight tables, each for the planet it is named after here.
    ///
    /// Fails when a table holds the series of another planet than the one it
    /// is handed in for, naming the first such place outwards from the Sun
    /// and the planet found there.
    pub fn new(
        mercury: SeriesTable<T>,
        venus: SeriesTable<T>,
        earth: SeriesTable<T>,
        mars: SeriesTable<T>,
        jupiter: SeriesTable<T>,
        saturn: SeriesTable<T>,
        uranus: SeriesTable<T>,
        neptune: SeriesTable<T>,
    ) -> (made: Result<TheoryTables<T>, MisplacedTable>)
        ensures
            match made {
                Ok(tables) => forall|planet: Planet|
                    {
                        let given = #[trigger] table_for(
                            planet,
                            mercury,
                            venus,
                            earth,
                            mars,
                            jupiter,
                            saturn,
                            uranus,
                            neptune,
                        );
                        &&& tables.spec_table(planet) == given
                        &&& given.spec_planet() == planet
                    },
                Err(wrong) => {
                    &&& wrong.holds != wrong.place
                    &&& table_for(
                        wrong.place,
                        mercury,
                        venus,
                        earth,
                        mars,
                        jupiter,
                        saturn,
                        uranus,
                        neptune,
                    ).spec_planet() == wrong.holds
                    &&& forall|planet: Planet|
                        planet.spec_index() < wrong.place.spec_index() ==> (#[trigger] table_for(
                            planet,
                            mercury,
                            venus,
                            earth,
                            mars,
                            jupiter,
                            saturn,
                            uranus,
                            neptune,
                        )).spec_planet() == planet
                },
            },
    {
        if mercury.planet() != Planet::Mercury {
            return Err(MisplacedTable { place: Planet::Mercury, holds: mercury.planet() });
        }
        if venus.planet() != Planet::Venus {
            return Err(MisplacedTable { place: Planet::Venus, holds: venus.planet() });
        }
        if earth.planet() != Planet::Earth {
            return Err(MisplacedTable { place: Planet::Earth, holds: earth.planet() });
        }
        if mars.planet() != Planet::Mars {
            return Err(MisplacedTable { place: Planet::Mars, holds: mars.planet() });
        }
        if jupiter.planet() != Planet::Jupiter {
            return Err(MisplacedTable { place: Planet::Jupiter, holds: jupiter.planet() });
        }
        if saturn.planet() != Planet::Saturn {
            return Err(MisplacedTable { place: Planet::Saturn, holds: saturn.planet() });
        }
        if uranus.planet() != Planet::Uranus {
            return Err(MisplacedTable { place: Planet::Uranus, holds: uranus.planet() });
        }
        if neptune.planet() != Planet::Neptune {
            return Err(MisplacedTable { place: Planet::Neptune, holds: neptune.planet() });
        }
        Ok(TheoryTables { mercury, venus, earth, mars, jupiter, saturn, uranus, neptune })
    }

    /// The table of `planet`.
    pub fn table(&self, planet: Planet) -> (found: &SeriesTable<T>)
        ensures
            *found == self.spec_table(planet),
            found.spec_planet() == planet,
    {
        proof {
            use_type_invariant(self);
            assert(self.spec_table(planet).spec_planet() == planet);
        }
        match planet {
            Planet::Mercury => &self.mercury,
            Planet::Venus => &self.venus,
            Planet::Earth => &self.earth,
            Planet::Mars => &self.mars,
            Planet::Jupiter => &self.jupiter,
            Planet::Saturn => &self.saturn,
            Planet::Uranus => &self.uranus,
            Planet::Neptune => &self.neptune,
        }
    }
}

} // verus!
