use game_of_life::dimension::Dimension;

#[test]
fn dimension_format_place() {
    assert_eq!(
        Dimension::new(23, 42).to_display_string(),
        String::from("(23x42)")
    );
}

#[test]
fn dimension_exposes_width_and_height() {
    let sut = Dimension::new(23, 42);

    assert_eq!(sut.get_width(), 23);
    assert_eq!(sut.get_height(), 42);
}
