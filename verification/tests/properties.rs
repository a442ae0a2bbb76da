//! Scenario checks for the library's stated properties, on concrete values.

use game_of_life::cell::Cell;
use game_of_life::place::Place;
use game_of_life::population::Population;

#[test]
fn empty_population_of_any_size_stays_empty() {
    for (width, height) in [(1, 1), (3, 7), (10, 5), (40, 20)] {
        let sut = Population::new(width, height, Vec::new());
        let next = sut.next_generation();

        assert_eq!(next.get_status().get_iteration(), 1);
        assert_eq!(next.get_status().get_cells(), 0);
        assert_eq!(next.get_status().get_born(), 0);
        assert_eq!(next.get_status().get_died(), 0);
    }
}

#[test]
fn single_cell_dies_wherever_it_sits() {
    for place in [(0, 0), (9, 0), (0, 4), (9, 4), (5, 2)] {
        let sut = Population::new(10, 5, vec![Cell::new(Place::new(place.0, place.1))]);
        let next = sut.next_generation().get_status();

        assert_eq!(next.get_cells(), 0);
        assert_eq!(next.get_died(), 1);
        assert_eq!(next.get_born(), 0);
    }
}

#[test]
fn isolated_diagonal_pair_dies() {
    let cells = vec![Cell::new(Place::new(3, 3)), Cell::new(Place::new(4, 4))];
    let sut = Population::new(10, 5, cells);
    let next = sut.next_generation().get_status();

    assert_eq!(next.get_cells(), 0);
    assert_eq!(next.get_died(), 2);
    assert_eq!(next.get_born(), 0);
}

#[test]
fn blinker_flips_from_horizontal_to_vertical() {
    let cells = vec![
        Cell::new(Place::new(5, 3)),
        Cell::new(Place::new(6, 3)),
        Cell::new(Place::new(7, 3)),
    ];
    let sut = Population::new(10, 5, cells);
    let next = sut.next_generation();

    assert_eq!(next.get_status().get_cells(), 3);
    assert_eq!(next.get_status().get_born(), 2);
    assert_eq!(next.get_status().get_died(), 2);
    for (x, y) in [(6, 2), (6, 3), (6, 4)] {
        assert!(next.has_cell(&Place::new(x, y)));
    }
    for (x, y) in [(5, 3), (7, 3), (5, 2), (7, 2), (5, 4), (7, 4)] {
        assert!(!next.has_cell(&Place::new(x, y)));
    }
}

#[test]
fn glider_seed_grows_to_seven_cells() {
    let cells = vec![
        Cell::new(Place::new(2, 2)),
        Cell::new(Place::new(3, 2)),
        Cell::new(Place::new(4, 2)),
        Cell::new(Place::new(3, 3)),
    ];
    let sut = Population::new(10, 5, cells);
    let next = sut.next_generation();

    assert_eq!(next.get_status().get_cells(), 7);
    assert_eq!(next.get_status().get_born(), 3);
    assert_eq!(next.get_status().get_died(), 0);
    for (x, y) in [(3, 1), (2, 2), (3, 2), (4, 2), (2, 3), (3, 3), (4, 3)] {
        assert!(next.has_cell(&Place::new(x, y)));
    }
}

#[test]
fn status_counters_match_the_cells_over_several_generations() {
    let cells = vec![
        Cell::new(Place::new(2, 2)),
        Cell::new(Place::new(3, 2)),
        Cell::new(Place::new(4, 2)),
        Cell::new(Place::new(3, 3)),
    ];
    let mut population = Population::new(10, 5, cells);
    for _ in 0..6 {
        population = population.next_generation();
        assert_eq!(
            population.get_status().get_cells(),
            population.get_cells().len()
        );
    }
}

#[test]
fn new_population_answers_has_cell_for_exactly_the_given_places() {
    let listed = [(0, 0), (4, 2), (9, 4), (3, 3)];
    let cells: Vec<Cell> = listed
        .iter()
        .map(|&(x, y)| Cell::new(Place::new(x, y)))
        .collect();
    let sut = Population::new(10, 5, cells);

    for y in 0..5 {
        for x in 0..10 {
            let expected = listed.iter().any(|&(lx, ly)| lx == x && ly == y);
            assert_eq!(sut.has_cell(&Place::new(x, y)), expected);
        }
    }
}
