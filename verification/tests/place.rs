use game_of_life::place::Place;
use game_of_life::place::connection_vector;
use game_of_life::place::distance_squared;
use game_of_life::place::places_are_neighbours;

#[test]
fn place_format_place() {
    assert_eq!(
        Place::new(23, 42).to_display_string(),
        String::from("(23, 42)")
    );
}

#[test]
fn test_connection_vector_for_zero_points() {
    assert_eq!(
        connection_vector(&Place::new(0, 0), &Place::new(0, 0)),
        (0, 0)
    );
}

#[test]
fn test_connection_vector_for_same_points() {
    assert_eq!(
        connection_vector(&Place::new(42, 23), &Place::new(42, 23)),
        (0, 0)
    );
}

#[test]
fn test_connection_vector_for_first_point_is_zero() {
    assert_eq!(
        connection_vector(&Place::new(0, 0), &Place::new(42, 23)),
        (42, 23)
    );
}

#[test]
fn test_connection_vector_for_second_point_is_zero() {
    assert_eq!(
        connection_vector(&Place::new(42, 23), &Place::new(0, 0)),
        (-42, -23)
    );
}

#[test]
fn test_connection_vector_for_two_different_places() {
    assert_eq!(
        connection_vector(&Place::new(5, 10), &Place::new(7, 8)),
        (2, -2)
    );
}

#[test]
fn distance_squared_of_zero_places() {
    assert_eq!(distance_squared(&Place::new(0, 0), &Place::new(0, 0)), 0);
}

#[test]
fn distance_squared_of_same_places() {
    assert_eq!(distance_squared(&Place::new(3, 3), &Place::new(3, 3)), 0);
}

#[test]
fn distance_squared_is_symmetric() {
    assert_eq!(
        distance_squared(&Place::new(5, 10), &Place::new(7, 8)),
        distance_squared(&Place::new(7, 8), &Place::new(5, 10))
    );
    assert_eq!(distance_squared(&Place::new(5, 10), &Place::new(7, 8)), 8);
}

#[test]
fn distance_squared_of_two_neighbours() {
    assert_eq!(distance_squared(&Place::new(5, 5), &Place::new(4, 4)), 2);
    assert_eq!(distance_squared(&Place::new(5, 5), &Place::new(5, 4)), 1);
    assert_eq!(distance_squared(&Place::new(5, 5), &Place::new(6, 4)), 2);
    assert_eq!(distance_squared(&Place::new(5, 5), &Place::new(4, 5)), 1);
    assert_eq!(distance_squared(&Place::new(5, 5), &Place::new(6, 5)), 1);
    assert_eq!(distance_squared(&Place::new(5, 5), &Place::new(4, 6)), 2);
    assert_eq!(distance_squared(&Place::new(5, 5), &Place::new(5, 6)), 1);
    assert_eq!(distance_squared(&Place::new(5, 5), &Place::new(6, 6)), 2);
}

#[test]
fn neighbourhood_is_the_distance_band_between_zero_and_two() {
    // the eight surrounding places qualify
    assert!(places_are_neighbours(&Place::new(5, 5), &Place::new(4, 4)));
    assert!(places_are_neighbours(&Place::new(5, 5), &Place::new(5, 4)));
    assert!(places_are_neighbours(&Place::new(5, 5), &Place::new(6, 4)));
    assert!(places_are_neighbours(&Place::new(5, 5), &Place::new(4, 5)));
    assert!(places_are_neighbours(&Place::new(5, 5), &Place::new(6, 5)));
    assert!(places_are_neighbours(&Place::new(5, 5), &Place::new(4, 6)));
    assert!(places_are_neighbours(&Place::new(5, 5), &Place::new(5, 6)));
    assert!(places_are_neighbours(&Place::new(5, 5), &Place::new(6, 6)));
    // the place itself does not
    assert!(!places_are_neighbours(&Place::new(5, 5), &Place::new(5, 5)));
    // distance two in a line does not
    assert!(!places_are_neighbours(&Place::new(5, 5), &Place::new(5, 3)));
    assert!(!places_are_neighbours(&Place::new(5, 5), &Place::new(3, 5)));
    assert!(!places_are_neighbours(&Place::new(5, 5), &Place::new(7, 5)));
    assert!(!places_are_neighbours(&Place::new(5, 5), &Place::new(5, 7)));
    // a knight's move does not
    assert!(!places_are_neighbours(&Place::new(5, 5), &Place::new(4, 3)));
    assert!(!places_are_neighbours(&Place::new(5, 5), &Place::new(7, 4)));
    // two apart diagonally does not
    assert!(!places_are_neighbours(&Place::new(5, 5), &Place::new(3, 3)));
    assert!(!places_are_neighbours(&Place::new(5, 5), &Place::new(7, 7)));
}

#[test]
fn place_exposes_its_coordinates() {
    let sut = Place::new(23, 42);

    assert_eq!(sut.get_x(), 23);
    assert_eq!(sut.get_y(), 42);
}
