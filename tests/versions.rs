use git_bump::select::{select_current, sort_versions};
use git_bump::version::{Bump, Identifier, Version};
use std::cmp::Ordering;

fn v(text: &str) -> Version {
    git_bump::tags::parse_tag(text, "").unwrap()
}

#[test]
fn bump_patch_minor_major() {
    let base = v("1.2.3");
    assert_eq!(base.bumped(Bump::Patch), Version::new(1, 2, 4));
    assert_eq!(base.bumped(Bump::Minor), Version::new(1, 3, 0));
    assert_eq!(base.bumped(Bump::Major), Version::new(2, 0, 0));
}

#[test]
fn bump_drops_prerelease_and_build() {
    let rc = v("1.2.3-rc1+build.7");
    assert_eq!(rc.pre, vec![Identifier::AlphaNumeric("rc1".to_string())]);
    assert_eq!(rc.bumped(Bump::Patch), Version::new(1, 2, 4));
    assert!(rc.bumped(Bump::Patch).pre.is_empty());
    assert!(rc.bumped(Bump::Patch).build.is_empty());
}

#[test]
fn bumped_is_greater_for_every_level() {
    for text in ["0.0.0", "1.2.3-rc1", "9.9.9+meta", "3.0.0-alpha.1"] {
        let cur = v(text);
        for level in [Bump::Major, Bump::Minor, Bump::Patch] {
            let next = cur.bumped(level);
            assert!(cur.precedes(&next));
            assert_eq!(next.precedence(&cur), Ordering::Greater);
        }
    }
}

#[test]
fn bump_overflow_is_reported() {
    let top = Version::new(u64::MAX, 1, 1);
    assert!(!top.can_bump(Bump::Major));
    assert!(top.can_bump(Bump::Minor));
    assert_eq!(
        git_bump::workflow::bump_version(&top, Bump::Major),
        Err(git_bump::workflow::BumpError::VersionOverflow)
    );
    assert_eq!(
        git_bump::workflow::bump_version(&top, Bump::Patch),
        Ok(Version::new(u64::MAX, 1, 2))
    );
}

#[test]
fn precedence_follows_semver_rules() {
    let chain = [
        "1.0.0-alpha",
        "1.0.0-alpha.1",
        "1.0.0-alpha.beta",
        "1.0.0-beta",
        "1.0.0-beta.2",
        "1.0.0-beta.11",
        "1.0.0-rc.1",
        "1.0.0",
        "1.0.1",
        "1.1.0",
        "2.0.0",
    ];
    for i in 0..chain.len() {
        for j in 0..chain.len() {
            let expected = i.cmp(&j);
            assert_eq!(v(chain[i]).precedence(&v(chain[j])), expected, "{} vs {}", chain[i], chain[j]);
        }
    }
}

#[test]
fn build_metadata_does_not_count() {
    assert_eq!(v("1.0.0+a").precedence(&v("1.0.0+b")), Ordering::Equal);
    assert!(!v("1.0.0+a").precedes(&v("1.0.0+b")));
}

#[test]
fn identifier_precedence() {
    let n = Identifier::Numeric(10);
    let a = Identifier::AlphaNumeric("a".to_string());
    assert_eq!(n.precedence(&a), Ordering::Less);
    assert_eq!(a.precedence(&n), Ordering::Greater);
    assert_eq!(Identifier::Numeric(2).precedence(&n), Ordering::Less);
}

#[test]
fn sort_orders_by_precedence() {
    let sorted = sort_versions(vec![v("1.2.0"), v("1.0.0"), v("1.1.0-beta"), v("1.1.0")]);
    assert_eq!(sorted, vec![v("1.0.0"), v("1.1.0-beta"), v("1.1.0"), v("1.2.0")]);
}

#[test]
fn sorting_sorted_list_keeps_it() {
    let list = vec![v("0.1.0"), v("1.0.0+a"), v("1.0.0+b"), v("2.0.0-rc.1"), v("2.0.0")];
    let once = sort_versions(list.clone());
    assert_eq!(once, list);
    assert_eq!(sort_versions(once.clone()), once);
}

#[test]
fn sort_keeps_order_of_equal_versions() {
    let sorted = sort_versions(vec![v("1.0.0+b"), v("0.9.0"), v("1.0.0+a")]);
    assert_eq!(sorted, vec![v("0.9.0"), v("1.0.0+b"), v("1.0.0+a")]);
}

#[test]
fn select_current_of_singleton_and_empty() {
    assert_eq!(select_current(vec![v("3.1.4")]), Some(v("3.1.4")));
    assert_eq!(select_current(vec![]), None);
    assert_eq!(select_current(vec![v("1.0.0"), v("0.5.0"), v("1.0.0-rc.1")]), Some(v("1.0.0")));
}

#[test]
fn new_version_has_no_identifiers() {
    let x = Version::new(4, 5, 6);
    assert_eq!((x.major, x.minor, x.patch), (4, 5, 6));
    assert!(x.pre.is_empty() && x.build.is_empty());
}
