use game_of_life::config::Config;
use game_of_life::config::validate_config;

#[test]
fn config_fmt() {
    let sut = Config::new(42, 23, 5, 3);

    assert_eq!(
        sut.to_display_string(),
        String::from("Width:        42, Height:    23, Sleep:     5, Ratio:     3")
    );
}

#[test]
fn validate_config_width_is_not_usize() {
    let result = validate_config("foo", "1", "1", "1");

    assert_eq!(
        result,
        Err(String::from(
            "Bad option: Not negative number expected as option '--width'!"
        ))
    );
}

#[test]
fn validate_config_width_is_too_small() {
    let result = validate_config("0", "1", "1", "1");

    assert_eq!(
        result,
        Err(String::from(
            "Bad option: Too small value for option '--width' given! Minimum is 1."
        ))
    );
}

#[test]
fn validate_config_height_is_not_usize() {
    let result = validate_config("1", "foo", "1", "1");

    assert_eq!(
        result,
        Err(String::from(
            "Bad option: Not negative number expected as option '--height'!"
        ))
    );
}

#[test]
fn validate_config_height_is_to_small() {
    let result = validate_config("1", "0", "1", "1");

    assert_eq!(
        result,
        Err(String::from(
            "Bad option: Too small value for option '--height' given! Minimum is 1."
        ))
    );
}

#[test]
fn validate_config_sleep_is_not_usize() {
    let result = validate_config("1", "1", "foo", "1");

    assert_eq!(
        result,
        Err(String::from(
            "Bad option: Not negative number expected as option '--sleep'!"
        ))
    );
}

#[test]
fn validate_config_sleep_is_to_small() {
    let result = validate_config("1", "1", "0", "1");

    assert_eq!(
        result,
        Err(String::from(
            "Bad option: Too small value for option '--sleep' given! Minimum is 1."
        ))
    );
}

#[test]
fn validate_config_ratio_is_not_usize() {
    let result = validate_config("1", "1", "1", "foo");

    assert_eq!(
        result,
        Err(String::from(
            "Bad option: Not negative number expected as option '--ratio'!"
        ))
    );
}

#[test]
fn validate_config_ratio_is_to_small() {
    let result = validate_config("1", "1", "1", "0");

    assert_eq!(
        result,
        Err(String::from(
            "Bad option: Too small value for option '--ratio' given! Minimum is 1."
        ))
    );
}

#[test]
fn validate_config_with_sane_values() {
    let result = match validate_config("1", "2", "3", "4") {
        Ok(r) => r,
        Err(_) => panic!("Expected Ok(Config) as result!"),
    };

    assert_eq!(result.get_width(), 1);
    assert_eq!(result.get_height(), 2);
    assert_eq!(result.get_sleep(), 3);
    assert_eq!(result.get_ratio(), 4);
}

#[test]
fn validate_config_accepts_a_leading_plus_sign() {
    let result = match validate_config("+5", "1", "1", "1") {
        Ok(r) => r,
        Err(_) => panic!("Expected Ok(Config) as result!"),
    };

    assert_eq!(result.get_width(), 5);
}

#[test]
fn validate_config_rejects_an_empty_value() {
    let result = validate_config("", "1", "1", "1");

    assert_eq!(
        result,
        Err(String::from(
            "Bad option: Not negative number expected as option '--width'!"
        ))
    );
}

#[test]
fn validate_config_rejects_a_negative_value() {
    let result = validate_config("-1", "1", "1", "1");

    assert_eq!(
        result,
        Err(String::from(
            "Bad option: Not negative number expected as option '--width'!"
        ))
    );
}

#[test]
fn validate_config_rejects_a_lone_plus_sign() {
    let result = validate_config("+", "1", "1", "1");

    assert_eq!(
        result,
        Err(String::from(
            "Bad option: Not negative number expected as option '--width'!"
        ))
    );
}

#[test]
fn validate_config_rejects_a_value_beyond_the_integer_range() {
    let result = validate_config("1", "1", "99999999999999999999999999", "1");

    assert_eq!(
        result,
        Err(String::from(
            "Bad option: Not negative number expected as option '--sleep'!"
        ))
    );
}

#[test]
fn validate_config_rejects_a_ratio_beyond_its_range() {
    let result = validate_config("1", "1", "1", "4294967296");

    assert_eq!(
        result,
        Err(String::from(
            "Bad option: Not negative number expected as option '--ratio'!"
        ))
    );
}

#[test]
fn validate_config_reports_the_width_before_the_height() {
    let result = validate_config("foo", "bar", "1", "1");

    assert_eq!(
        result,
        Err(String::from(
            "Bad option: Not negative number expected as option '--width'!"
        ))
    );
}
