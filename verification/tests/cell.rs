use game_of_life::cell::Cell;
use game_of_life::place::Place;

#[test]
fn format_dead() {
    let sut = Cell::new(Place::new(1, 1)).kill();

    assert_eq!(sut.to_display_string(), String::from("☼"));
}

#[test]
fn format_alive() {
    let sut = Cell::new(Place::new(1, 1));

    assert_eq!(sut.to_display_string(), String::from("☀"));
}

#[test]
fn new_cell_is_alive_at_its_place() {
    let sut = Cell::new(Place::new(3, 7));

    assert!(!sut.is_dead());
    assert_eq!(*sut.get_position(), Place::new(3, 7));
}

#[test]
fn killed_cell_is_dead_and_keeps_its_place() {
    let sut = Cell::new(Place::new(3, 7)).kill();

    assert!(sut.is_dead());
    assert_eq!(*sut.get_position(), Place::new(3, 7));
}
