use vise::validate_name;

#[test]
fn validating_names() {
    let valid_names = ["test", "_private", "snake_case", "l33t_c0d3"];
    for name in valid_names {
        validate_name(name).unwrap();
    }

    validate_name("").unwrap_err();
    validate_name("нет").unwrap_err();
    validate_name("t!st").unwrap_err();
    validate_name("1est").unwrap_err();
}

#[test]
fn validation_reports_error_positions() {
    let err = validate_name("").unwrap_err();
    assert_eq!(err.message(), "name cannot be empty");

    let err = validate_name("1est").unwrap_err();
    assert_eq!(
        err.message(),
        "name starts with disallowed char '1'; allowed chars are [_a-z]"
    );

    let err = validate_name("t!st").unwrap_err();
    assert_eq!(
        err.message(),
        "name contains a disallowed char '!' at position 1; allowed chars are [_a-z0-9]"
    );
}
