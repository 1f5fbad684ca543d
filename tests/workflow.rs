use git_bump::config::Config;
use git_bump::version::{Bump, Version};
use git_bump::workflow::{
    candidate_user_name, decide, plan_tag, refspec, tag_name, AllowedTypes, BumpError,
    CredentialStrategy, Decision, Outcome,
};

#[test]
fn declining_answers_cancel() {
    for a in ["n", "N", "no", "No", "NO", "nO", "", "maybe", "yess", " y"] {
        assert_eq!(decide(a), Decision::Cancel, "{:?}", a);
    }
    assert_eq!(Outcome::Canceled.exit_code(), 0);
}

#[test]
fn agreeing_answers_proceed() {
    for a in ["y", "Y", "yes", "YES", "yEs"] {
        assert_eq!(decide(a), Decision::Proceed, "{:?}", a);
    }
}

#[test]
fn detached_head_is_invalid_state() {
    let v = Version::new(1, 2, 4);
    assert_eq!(plan_tag(false, "v", &v), Err(BumpError::InvalidState));
    assert_eq!(plan_tag(true, "v", &v), Ok("v1.2.4".to_string()));
    assert_eq!(Outcome::Failed(BumpError::InvalidState).exit_code(), 1);
}

#[test]
fn tag_name_and_refspec() {
    let rc = git_bump::tags::parse_tag("2.0.0-rc.1+b9", "").unwrap();
    assert_eq!(tag_name("release-", &rc), "release-2.0.0-rc.1+b9");
    assert_eq!(tag_name("", &Version::new(0, 1, 0)), "0.1.0");
    assert_eq!(refspec("v1.2.4"), "refs/tags/v1.2.4:refs/tags/v1.2.4");
}

#[test]
fn bump_level_choices() {
    assert_eq!(Bump::from_index(0), Some(Bump::Major));
    assert_eq!(Bump::from_index(1), Some(Bump::Minor));
    assert_eq!(Bump::from_index(2), Some(Bump::Patch));
    assert_eq!(Bump::from_index(3), None);
    assert_eq!(Bump::from_name("MAJOR"), Some(Bump::Major));
    assert_eq!(Bump::from_name("minor"), Some(Bump::Minor));
    assert_eq!(Bump::from_name("Patch"), Some(Bump::Patch));
    assert_eq!(Bump::from_name("micro"), None);
}

fn walk(allowed: AllowedTypes) -> Vec<CredentialStrategy> {
    let mut seen = Vec::new();
    let mut last = None;
    while let Some(s) = CredentialStrategy::next(allowed, last) {
        seen.push(s);
        last = Some(s);
    }
    seen
}

#[test]
fn credential_chain_order() {
    assert_eq!(walk(AllowedTypes { user_pass: true, ssh_key: true }), vec![CredentialStrategy::Helper, CredentialStrategy::Prompt, CredentialStrategy::SshAgent]);
    assert_eq!(walk(AllowedTypes { user_pass: true, ssh_key: false }), vec![CredentialStrategy::Helper, CredentialStrategy::Prompt]);
    assert_eq!(walk(AllowedTypes { user_pass: false, ssh_key: true }), vec![CredentialStrategy::SshAgent]);
    assert_eq!(walk(AllowedTypes { user_pass: false, ssh_key: false }), vec![]);
}

#[test]
fn user_name_from_url_first() {
    let u = Some("alice".to_string());
    let c = Some("bob".to_string());
    assert_eq!(candidate_user_name(u.clone(), c.clone()), u);
    assert_eq!(candidate_user_name(None, c.clone()), c);
    assert_eq!(candidate_user_name(None, None), None);
}

#[test]
fn default_config() {
    let c = Config::default();
    assert_eq!(c.prefix.as_deref(), Some("v"));
    assert_eq!(c.repository_path, None);
    assert!(!c.no_push);
    assert_eq!(c.tag_prefix(), "v");
    assert_eq!(c.tag_pattern(), Some("v*".to_string()));
    assert_eq!(c.level, None);
    let none = Config { prefix: None, ..Config::default() };
    assert_eq!(none.tag_prefix(), "");
    assert_eq!(none.tag_pattern(), None);
}
