use vise::RenameRule;

#[test]
fn renaming_rules() {
    let ident = "TestIdent";
    let rules_and_expected_outcomes = [
        (RenameRule::LowerCase, "testident"),
        (RenameRule::UpperCase, "TESTIDENT"),
        (RenameRule::CamelCase, "testIdent"),
        (RenameRule::SnakeCase, "test_ident"),
        (RenameRule::ScreamingSnakeCase, "TEST_IDENT"),
        (RenameRule::KebabCase, "test-ident"),
        (RenameRule::ScreamingKebabCase, "TEST-IDENT"),
    ];
    for (rule, expected) in rules_and_expected_outcomes {
        assert_eq!(rule.transform(ident), expected);
    }
}

#[test]
fn parsing_rename_rules() {
    assert_eq!(RenameRule::parse("snake_case").unwrap(), RenameRule::SnakeCase);
    assert_eq!(
        RenameRule::parse("SCREAMING-KEBAB-CASE").unwrap(),
        RenameRule::ScreamingKebabCase
    );
    assert!(RenameRule::parse("PascalCase").is_err());
}
