use git_bump::tags::{parse_tag, parse_tags, resolve_tags, strip_tag_prefix, ParseFailure};
use git_bump::version::{Identifier, Version};

fn names(list: &[&str]) -> Vec<String> {
    list.iter().map(|s| s.to_string()).collect()
}

#[test]
fn example_tag_set_resolves() {
    let tags = names(&["v1.0.0", "v1.2.0", "v1.1.0-beta", "xyz"]);
    let (valid, errors) = parse_tags(&tags, "v");
    let beta = Version {
        major: 1,
        minor: 1,
        patch: 0,
        pre: vec![Identifier::AlphaNumeric("beta".to_string())],
        build: vec![],
    };
    assert_eq!(valid, vec![Version::new(1, 0, 0), Version::new(1, 2, 0), beta]);
    assert_eq!(errors.len(), 1);
    assert_eq!(errors[0].tag, "xyz");
    assert!(!errors[0].message.is_empty());

    let r = resolve_tags(&tags, "v");
    assert_eq!(r.current, Some(Version::new(1, 2, 0)));
    assert_eq!(r.malformed, errors);
}

#[test]
fn each_name_lands_on_one_side() {
    let tags = names(&["v0.1.0", "v0.2", "release", "v2.0.0-rc.1", "vv1.0.0", ""]);
    let (valid, errors) = parse_tags(&tags, "v");
    assert_eq!(valid.len() + errors.len(), tags.len());
    assert_eq!(valid.len(), 2);
    let bad: Vec<&str> = errors.iter().map(|e| e.tag.as_str()).collect();
    assert_eq!(bad, vec!["v0.2", "release", "vv1.0.0", ""]);
}

#[test]
fn no_tags_means_no_current_version() {
    let r = resolve_tags(&vec![], "v");
    assert_eq!(r.current, None);
    assert!(r.malformed.is_empty());
    let r = resolve_tags(&names(&["vnope"]), "v");
    assert_eq!(r.current, None);
    assert_eq!(r.malformed.len(), 1);
}

#[test]
fn prefix_is_stripped_once_or_not_at_all() {
    assert_eq!(strip_tag_prefix("v1.2.3", "v"), "1.2.3");
    assert_eq!(strip_tag_prefix("1.2.3", "v"), "1.2.3");
    assert_eq!(strip_tag_prefix("vv1.2.3", "v"), "v1.2.3");
    assert_eq!(strip_tag_prefix("release-1.0.0", "release-"), "1.0.0");
    assert_eq!(strip_tag_prefix("v1.0.0", ""), "v1.0.0");
}

#[test]
fn name_without_prefix_is_still_parsed() {
    assert_eq!(parse_tag("2.3.4", "v"), Ok(Version::new(2, 3, 4)));
    assert_eq!(parse_tag("v2.3.4", "v"), Ok(Version::new(2, 3, 4)));
    assert!(parse_tag("v2.3", "v").is_err());
}

#[test]
fn parse_keeps_numeric_and_build_identifiers() {
    let x = parse_tag("v1.0.0-alpha.7+exp.sha.5114f85", "v").unwrap();
    assert_eq!(
        x.pre,
        vec![Identifier::AlphaNumeric("alpha".to_string()), Identifier::Numeric(7)]
    );
    assert_eq!(x.build.len(), 3);
    assert_eq!(x.build[2], Identifier::AlphaNumeric("5114f85".to_string()));
}

#[test]
fn malformed_tags_carry_a_reason() {
    let tags = names(&["v1.2", "va.b.c", "v1.2.3-", "v1.2.3 x", "v01.0.0", "v98765432109876543210.0.0"]);
    let (valid, errors) = parse_tags(&tags, "v");
    assert!(valid.is_empty());
    let reasons: Vec<ParseFailure> = errors.iter().map(|e| e.reason).collect();
    assert_eq!(
        reasons,
        vec![
            ParseFailure::MissingComponent,
            ParseFailure::InvalidComponent,
            ParseFailure::MalformedSuffix,
            ParseFailure::MalformedSuffix,
            ParseFailure::MissingComponent,
            ParseFailure::InvalidComponent,
        ]
    );
}

#[test]
fn reason_from_message() {
    assert_eq!(ParseFailure::from_message("Expected dot"), ParseFailure::MissingComponent);
    assert_eq!(ParseFailure::from_message("Error parsing minor identifier"), ParseFailure::InvalidComponent);
    assert_eq!(ParseFailure::from_message("Error parsing prerelease"), ParseFailure::MalformedSuffix);
    assert_eq!(ParseFailure::from_message("Extra junk after valid version: x"), ParseFailure::MalformedSuffix);
    assert_eq!(ParseFailure::from_message("something else"), ParseFailure::Other);
}
