use rah::constraint::{check_version_requirement, parse_operator, Comparator};
use rah::depend::{DependencySpec, VersionParseError};
use rah::order::VersionOrder;
use rah::version::{compare_versions, parse_dependency};

fn split(s: &str) -> (String, Option<(String, String)>) {
    let owned = s.to_string();
    let (name, rest) = parse_dependency(&owned);
    (name.to_string(), rest.map(|(op, ver)| (op.to_string(), ver.to_string())))
}

#[test]
fn parse_name_alone_is_unconstrained() {
    assert_eq!(split("name"), ("name".to_string(), None));
    assert_eq!(split("foo"), ("foo".to_string(), None));
}

#[test]
fn parse_recovers_each_operator() {
    for op in ["=", "<", "<=", ">", ">=", "=="] {
        let text = format!("name{}1.0", op);
        assert_eq!(
            split(&text),
            ("name".to_string(), Some((op.to_string(), "1.0".to_string())))
        );
    }
}

#[test]
fn parse_splits_documented_examples() {
    assert_eq!(split("foo=1.0"), ("foo".to_string(), Some(("=".to_string(), "1.0".to_string()))));
    assert_eq!(
        split("foo>=1.2.3"),
        ("foo".to_string(), Some((">=".to_string(), "1.2.3".to_string())))
    );
    assert_eq!(split("foo<2"), ("foo".to_string(), Some(("<".to_string(), "2".to_string()))));
}

#[test]
fn parse_edge_cases() {
    assert_eq!(split(""), ("".to_string(), None));
    assert_eq!(split("foo>="), ("foo".to_string(), Some((">=".to_string(), "".to_string()))));
    assert_eq!(split(">1"), ("".to_string(), Some((">".to_string(), "1".to_string()))));
    assert_eq!(split("a<>b"), ("a".to_string(), Some(("<".to_string(), ">b".to_string()))));
}

#[test]
fn dependency_spec_parse() {
    let d = DependencySpec::parse(&"foo>=1.2.3".to_string()).unwrap();
    assert_eq!(d.name, "foo");
    let c = d.constraint.unwrap();
    assert_eq!(c.comparator, Comparator::GreaterEqual);
    assert_eq!(c.version, "1.2.3");
    let d = DependencySpec::parse(&"foo".to_string()).unwrap();
    assert_eq!(d.name, "foo");
    assert!(d.constraint.is_none());
}

#[test]
fn dependency_spec_errors() {
    assert_eq!(
        DependencySpec::parse(&"".to_string()).unwrap_err(),
        VersionParseError::EmptyName
    );
    assert_eq!(
        DependencySpec::parse(&"=1.0".to_string()).unwrap_err(),
        VersionParseError::EmptyName
    );
    assert_eq!(
        DependencySpec::parse(&"foo<".to_string()).unwrap_err(),
        VersionParseError::EmptyVersion
    );
}

#[test]
fn operators_are_read() {
    assert_eq!(parse_operator("="), Some(Comparator::Equal));
    assert_eq!(parse_operator("=="), Some(Comparator::Equal));
    assert_eq!(parse_operator("<"), Some(Comparator::Less));
    assert_eq!(parse_operator("<="), Some(Comparator::LessEqual));
    assert_eq!(parse_operator(">"), Some(Comparator::Greater));
    assert_eq!(parse_operator(">="), Some(Comparator::GreaterEqual));
    assert_eq!(parse_operator(""), None);
    assert_eq!(parse_operator("=>"), None);
    assert_eq!(parse_operator("<<"), None);
    assert_eq!(parse_operator(">=="), None);
}

#[test]
fn versions_compare_by_number_not_text() {
    assert_eq!(compare_versions("1.10", "1.9"), VersionOrder::Newer);
    assert_eq!(compare_versions("1.9", "1.10"), VersionOrder::Older);
    assert_eq!(compare_versions("1.0", "1.0"), VersionOrder::Same);
    assert_eq!(compare_versions("1.01", "1.1"), VersionOrder::Same);
    assert_eq!(compare_versions("2", "10"), VersionOrder::Older);
    assert_eq!(
        compare_versions("99999999999999999999999", "100000000000000000000000"),
        VersionOrder::Older
    );
}

#[test]
fn versions_compare_epoch_first() {
    assert_eq!(compare_versions("1:1.0", "2.0"), VersionOrder::Newer);
    assert_eq!(compare_versions("2.0", "1:1.0"), VersionOrder::Older);
    assert_eq!(compare_versions("0:1.0", "1.0"), VersionOrder::Same);
    assert_eq!(compare_versions("2:1.0-1", "10:0.1-1"), VersionOrder::Older);
}

#[test]
fn versions_compare_release_when_both_have_one() {
    assert_eq!(compare_versions("1.0-1", "1.0-2"), VersionOrder::Older);
    assert_eq!(compare_versions("1.0-10", "1.0-9"), VersionOrder::Newer);
    assert_eq!(compare_versions("1.0-1", "1.0"), VersionOrder::Same);
    assert_eq!(compare_versions("1.0", "1.0-3"), VersionOrder::Same);
}

#[test]
fn versions_compare_letters_and_length() {
    assert_eq!(compare_versions("1.0a", "1.0"), VersionOrder::Older);
    assert_eq!(compare_versions("1.0", "1.0a"), VersionOrder::Newer);
    assert_eq!(compare_versions("1.0.1", "1.0"), VersionOrder::Newer);
    assert_eq!(compare_versions("1.0alpha", "1.0beta"), VersionOrder::Older);
    assert_eq!(compare_versions("1.a", "1.1"), VersionOrder::Older);
    assert_eq!(compare_versions("1_0", "1.0"), VersionOrder::Same);
}

#[test]
fn requirement_checks() {
    assert_eq!(check_version_requirement(">=", "1.2.3", "1.2.3"), Some(true));
    assert_eq!(check_version_requirement(">=", "1.2.3", "1.2.2"), Some(false));
    assert_eq!(check_version_requirement(">", "1.0", "1.0"), Some(false));
    assert_eq!(check_version_requirement(">", "1.0", "1.0.1"), Some(true));
    assert_eq!(check_version_requirement("<", "2", "1.99"), Some(true));
    assert_eq!(check_version_requirement("<", "2", "2"), Some(false));
    assert_eq!(check_version_requirement("<=", "2", "2"), Some(true));
    assert_eq!(check_version_requirement("=", "1.0", "1.0-4"), Some(true));
    assert_eq!(check_version_requirement("==", "1.0", "1.1"), Some(false));
    assert_eq!(check_version_requirement("~", "1.0", "1.0"), None);
    assert_eq!(check_version_requirement("", "1.0", "1.0"), None);
}

#[test]
fn satisfies_follows_the_constraint() {
    let d = DependencySpec::parse(&"foo>=1.2".to_string()).unwrap();
    assert!(d.satisfies("1.2"));
    assert!(d.satisfies("1.10"));
    assert!(!d.satisfies("1.1"));
    let any = DependencySpec::parse(&"foo".to_string()).unwrap();
    assert!(any.satisfies("0"));
    assert!(any.satisfies(""));
}
