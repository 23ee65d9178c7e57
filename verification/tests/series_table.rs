use vsop87::planet::{Coordinate, Planet};
use vsop87::table::{SeriesTable, TableError};

const PLANETS: [Planet; 8] = [
    Planet::Mercury,
    Planet::Venus,
    Planet::Earth,
    Planet::Mars,
    Planet::Jupiter,
    Planet::Saturn,
    Planet::Uranus,
    Planet::Neptune,
];

const ORDER: [Coordinate; 3] = [Coordinate::Longitude, Coordinate::Latitude, Coordinate::Distance];

/// `powers` series whose terms tell the coordinate, the power and the place
/// of the term apart; the series of power `k` has `k + 2` terms.
fn numbered(tag: u32, powers: usize) -> Vec<Vec<u32>> {
    (0..powers)
        .map(|power| (0..power + 2).map(|i| tag * 10_000 + power as u32 * 100 + i as u32).collect())
        .collect()
}

fn slices<T>(series: &[Vec<T>]) -> Vec<&[T]> {
    series.iter().map(|one| one.as_slice()).collect()
}

fn numbered_table(planet: Planet) -> (SeriesTable<u32>, [Vec<Vec<u32>>; 3]) {
    let given = [
        numbered(1, planet.powers(Coordinate::Longitude)),
        numbered(2, planet.powers(Coordinate::Latitude)),
        numbered(3, planet.powers(Coordinate::Distance)),
    ];
    let made = SeriesTable::new(planet, &slices(&given[0]), &slices(&given[1]), &slices(&given[2]));
    match made {
        Ok(table) => (table, given),
        Err(error) => panic!("table refused: {:?}", error),
    }
}

fn refusal<T: Copy>(
    planet: Planet,
    longitude: &[&[T]],
    latitude: &[&[T]],
    distance: &[&[T]],
) -> TableError {
    match SeriesTable::new(planet, longitude, latitude, distance) {
        Ok(_) => panic!("table accepted"),
        Err(error) => error,
    }
}

#[test]
fn every_series_comes_back_as_given() {
    for planet in PLANETS {
        let (table, given) = numbered_table(planet);
        for (coordinate, series) in ORDER.into_iter().zip(&given) {
            for (power, terms) in series.iter().enumerate() {
                assert_eq!(table.series(coordinate, power), Some(terms.as_slice()));
            }
        }
    }
}

#[test]
fn mercury_longitude_of_the_third_power() {
    let (table, _) = numbered_table(Planet::Mercury);
    let expected: [u32; 5] = [10_300, 10_301, 10_302, 10_303, 10_304];
    assert_eq!(table.series(Coordinate::Longitude, 3), Some(&expected[..]));
}

#[test]
fn a_table_knows_its_planet() {
    for planet in PLANETS {
        let (table, _) = numbered_table(planet);
        assert_eq!(table.planet(), planet);
    }
}

#[test]
fn a_table_has_the_powers_of_its_planet() {
    for planet in PLANETS {
        let (table, _) = numbered_table(planet);
        for coordinate in ORDER {
            assert_eq!(table.powers(coordinate), planet.powers(coordinate));
        }
    }
}

#[test]
fn powers_that_a_planet_lacks_have_no_series() {
    let (earth, _) = numbered_table(Planet::Earth);
    assert!(earth.series(Coordinate::Longitude, 4).is_some());
    assert_eq!(earth.series(Coordinate::Longitude, 5), None);
    assert_eq!(earth.series(Coordinate::Latitude, 5), None);
    assert_eq!(earth.series(Coordinate::Distance, 5), None);

    let (uranus, _) = numbered_table(Planet::Uranus);
    assert!(uranus.series(Coordinate::Longitude, 5).is_some());
    assert!(uranus.series(Coordinate::Latitude, 4).is_some());
    assert_eq!(uranus.series(Coordinate::Latitude, 5), None);
    assert!(uranus.series(Coordinate::Distance, 3).is_some());
    assert_eq!(uranus.series(Coordinate::Distance, 4), None);

    let (neptune, _) = numbered_table(Planet::Neptune);
    assert!(neptune.series(Coordinate::Longitude, 5).is_some());
    assert!(neptune.series(Coordinate::Latitude, 4).is_some());
    assert_eq!(neptune.series(Coordinate::Latitude, 5), None);
    assert!(neptune.series(Coordinate::Distance, 3).is_some());
    assert_eq!(neptune.series(Coordinate::Distance, 4), None);

    let (jupiter, _) = numbered_table(Planet::Jupiter);
    assert!(jupiter.series(Coordinate::Distance, 4).is_some());
    assert_eq!(jupiter.series(Coordinate::Distance, 5), None);
    assert_eq!(jupiter.series(Coordinate::Longitude, 6), None);
    assert_eq!(jupiter.series(Coordinate::Longitude, usize::MAX), None);
}

#[test]
fn term_count_is_the_sum_of_the_series_lengths() {
    // A coordinate with n powers holds 2 + 3 + ... + (n + 1) terms.
    let terms = |powers: usize| powers * (powers + 3) / 2;
    for planet in PLANETS {
        let (table, _) = numbered_table(planet);
        let expected: usize = ORDER.iter().map(|c| terms(planet.powers(*c))).sum();
        assert_eq!(table.term_count(), expected);
    }
    let (mercury, _) = numbered_table(Planet::Mercury);
    assert_eq!(mercury.term_count(), 27 + 27 + 20);
}

#[test]
fn series_may_be_empty() {
    let none: &[u8] = &[];
    let some: &[u8] = &[7, 8];
    let table = SeriesTable::new(
        Planet::Uranus,
        &[none, some, none, none, some, none],
        &[none, none, none, none, none],
        &[some, none, none, some],
    )
    .unwrap();
    assert_eq!(table.series(Coordinate::Longitude, 0), Some(none));
    assert_eq!(table.series(Coordinate::Longitude, 1), Some(some));
    assert_eq!(table.series(Coordinate::Longitude, 4), Some(some));
    assert_eq!(table.series(Coordinate::Latitude, 4), Some(none));
    assert_eq!(table.series(Coordinate::Distance, 0), Some(some));
    assert_eq!(table.series(Coordinate::Distance, 3), Some(some));
    assert_eq!(table.term_count(), 8);
}

#[test]
fn terms_of_three_numbers_are_kept_as_given() {
    // The two largest terms of the Earth's longitude at `t^0`, then filler.
    let leading: [(f64, f64, f64); 2] =
        [(1.75347045673, 0.0, 0.0), (0.03341656453, 4.66925680415, 6283.07584999140)];
    let filler: [(f64, f64, f64); 1] = [(0.5, -1.25, 3.0)];
    let table = SeriesTable::new(
        Planet::Earth,
        &[&leading[..], &filler[..], &filler[..], &filler[..], &filler[..]],
        &[&filler[..]; 5],
        &[&filler[..]; 5],
    )
    .unwrap();
    let found = table.series(Coordinate::Longitude, 0).unwrap();
    assert_eq!(found.len(), 2);
    assert_eq!(found[0], (1.75347045673, 0.0, 0.0));
    assert_eq!(found[1].2, 6283.07584999140);
    assert_eq!(table.series(Coordinate::Distance, 4), Some(&filler[..]));
    assert_eq!(table.term_count(), 16);
}

#[test]
fn a_coordinate_with_the_wrong_number_of_series_is_refused() {
    let one: &[u8] = &[1];
    let six = [one; 6];
    let five = [one; 5];
    let four = [one; 4];
    assert_eq!(
        refusal(Planet::Mars, &five, &six, &five),
        TableError::WrongPowers(Coordinate::Longitude)
    );
    assert_eq!(
        refusal(Planet::Mars, &six, &five, &five),
        TableError::WrongPowers(Coordinate::Latitude)
    );
    assert_eq!(
        refusal(Planet::Mars, &six, &six, &six),
        TableError::WrongPowers(Coordinate::Distance)
    );
    assert_eq!(
        refusal(Planet::Mars, &six, &six, &four),
        TableError::WrongPowers(Coordinate::Distance)
    );
    assert!(SeriesTable::new(Planet::Mars, &six, &six, &five).is_ok());
}

#[test]
fn the_first_wrong_coordinate_is_named() {
    let one: &[u8] = &[1];
    let none: [&[u8]; 0] = [];
    let six = [one; 6];
    assert_eq!(
        refusal(Planet::Saturn, &none, &none, &none),
        TableError::WrongPowers(Coordinate::Longitude)
    );
    assert_eq!(
        refusal(Planet::Saturn, &six, &none, &none),
        TableError::WrongPowers(Coordinate::Latitude)
    );
}

#[test]
fn the_series_of_one_planet_do_not_fit_another() {
    let one: &[u8] = &[1];
    let six = [one; 6];
    let five = [one; 5];
    let four = [one; 4];
    // Series shaped for Venus.
    assert!(SeriesTable::new(Planet::Venus, &six, &six, &five).is_ok());
    assert_eq!(
        refusal(Planet::Earth, &six, &six, &five),
        TableError::WrongPowers(Coordinate::Longitude)
    );
    assert_eq!(
        refusal(Planet::Uranus, &six, &six, &five),
        TableError::WrongPowers(Coordinate::Latitude)
    );
    assert_eq!(
        refusal(Planet::Neptune, &six, &six, &five),
        TableError::WrongPowers(Coordinate::Latitude)
    );
    assert_eq!(
        refusal(Planet::Neptune, &six, &six, &four),
        TableError::WrongPowers(Coordinate::Latitude)
    );
    assert_eq!(
        refusal(Planet::Neptune, &six, &five, &five),
        TableError::WrongPowers(Coordinate::Distance)
    );
    assert!(SeriesTable::new(Planet::Neptune, &six, &five, &four).is_ok());
    assert!(SeriesTable::new(Planet::Uranus, &six, &five, &four).is_ok());
    assert!(SeriesTable::new(Planet::Earth, &five, &five, &five).is_ok());
}

#[test]
fn terms_that_cannot_be_counted_are_refused() {
    // Terms of no size can be as many as `usize` counts.
    let huge: &[()] = &[(); usize::MAX];
    let one: &[()] = &[()];
    let none: &[()] = &[];
    assert_eq!(
        refusal(
            Planet::Neptune,
            &[huge, one, none, none, none, none],
            &[none; 5],
            &[none; 4]
        ),
        TableError::TooManyTerms
    );
    assert_eq!(
        refusal(
            Planet::Neptune,
            &[huge, none, none, none, none, none],
            &[none; 5],
            &[none, none, none, one]
        ),
        TableError::TooManyTerms
    );
}

#[test]
fn a_wrong_number_of_series_is_reported_before_too_many_terms() {
    let huge: &[()] = &[(); usize::MAX];
    assert_eq!(
        refusal(Planet::Neptune, &[huge; 6], &[huge; 5], &[huge; 5]),
        TableError::WrongPowers(Coordinate::Distance)
    );
}
