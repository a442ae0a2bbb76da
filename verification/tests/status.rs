use game_of_life::status::Status;

#[test]
fn inc_iteration() {
    let sut = Status::new(23, 0, 0, 0).inc_iteration();

    assert_eq!(sut.get_iteration(), 24);
}

#[test]
fn inc_born() {
    let sut = Status::new(0, 10, 5, 0).inc_born();

    assert_eq!(sut.get_cells(), 11);
    assert_eq!(sut.get_born(), 6);
}

#[test]
fn inc_died() {
    let sut = Status::new(0, 10, 0, 5).inc_died();

    assert_eq!(sut.get_cells(), 9);
    assert_eq!(sut.get_died(), 6);
}

#[test]
fn status_fmt() {
    let sut = Status::new(42, 23, 5, 3);

    assert_eq!(
        sut.to_display_string(),
        String::from("Iteration:    42, Cells:     23, Born:      5, Died:       3")
    );
}

#[test]
fn status_fmt_does_not_cut_wide_counters() {
    let sut = Status::new(123456, 0, 0, 0);

    assert_eq!(
        sut.to_display_string(),
        String::from("Iteration: 123456, Cells:      0, Born:      0, Died:       0")
    );
}

#[test]
fn is_population_unchanged_died_and_born_equal() {
    assert_eq!(
        Status::new(0, 0, 1, 2).is_population_unchanged(Status::new(0, 0, 1, 2)),
        true
    );
}

#[test]
fn is_population_unchanged_died_different() {
    assert_eq!(
        Status::new(0, 0, 1, 2).is_population_unchanged(Status::new(0, 0, 1, 3)),
        false
    );
}

#[test]
fn is_population_unchanged_born_different() {
    assert_eq!(
        Status::new(0, 0, 1, 2).is_population_unchanged(Status::new(0, 0, 3, 2)),
        false
    );
}
