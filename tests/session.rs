use git_bump::config::Config;
use git_bump::tags::resolve_tags;
use git_bump::version::{Bump, Version};
use git_bump::workflow::{Action, BumpError, Decision, Event, Outcome, Stage, Workflow};

fn start(config: &Config, tags: &[&str]) -> (Workflow, Action) {
    let names: Vec<String> = tags.iter().map(|s| s.to_string()).collect();
    let r = resolve_tags(&names, config.tag_prefix());
    Workflow::new(config).step(Event::Resolved(r.current))
}

#[test]
fn full_run_with_push() {
    let config = Config::default();
    let (w, a) = start(&config, &["v1.0.0", "v1.2.0", "v1.1.0-beta", "xyz"]);
    assert_eq!(a, Action::AskLevel { current_tag: "v1.2.0".to_string() });
    let (w, a) = w.step(Event::LevelChosen(Bump::Minor));
    assert_eq!(
        a,
        Action::Confirm { current_tag: "v1.2.0".to_string(), bumped_tag: "v1.3.0".to_string() }
    );
    let (w, a) = w.step(Event::Answered(Decision::Proceed));
    assert_eq!(a, Action::CheckHead);
    let (w, a) = w.step(Event::HeadFound { is_branch: true });
    assert_eq!(a, Action::CreateTag { name: "v1.3.0".to_string() });
    let (w, a) = w.step(Event::TagCreated);
    assert_eq!(a, Action::Push { refspec: "refs/tags/v1.3.0:refs/tags/v1.3.0".to_string() });
    let (w, a) = w.step(Event::Pushed);
    assert_eq!(a, Action::Stop(Outcome::Bumped));
    assert_eq!(w.stage, Stage::Finished(Outcome::Bumped));
}

#[test]
fn preset_level_skips_the_question_and_no_push_stops_after_tagging() {
    let config = Config {
        prefix: Some("release-".to_string()),
        no_push: true,
        level: Some(Bump::Patch),
        ..Config::default()
    };
    let (w, a) = start(&config, &["release-1.2.3-rc1", "release-1.2.2"]);
    assert_eq!(
        a,
        Action::Confirm {
            current_tag: "release-1.2.3-rc1".to_string(),
            bumped_tag: "release-1.2.4".to_string()
        }
    );
    let (w, _) = w.step(Event::Answered(Decision::Proceed));
    let (w, a) = w.step(Event::HeadFound { is_branch: true });
    assert_eq!(a, Action::CreateTag { name: "release-1.2.4".to_string() });
    let (_, a) = w.step(Event::TagCreated);
    assert_eq!(a, Action::Stop(Outcome::Bumped));
}

#[test]
fn declined_confirmation_creates_no_tag() {
    for answer in ["n", "no", "NO", "No"] {
        let config = Config::default();
        let (w, _) = start(&config, &["v0.1.0"]);
        let (w, _) = w.step(Event::LevelChosen(Bump::Major));
        let (w, a) = w.step(Event::Answered(git_bump::workflow::decide(answer)));
        assert_eq!(a, Action::Stop(Outcome::Canceled));
        assert_eq!(Outcome::Canceled.exit_code(), 0);
        let (_, a) = w.step(Event::HeadFound { is_branch: true });
        assert_eq!(a, Action::Stop(Outcome::Canceled));
    }
}

#[test]
fn detached_head_fails_with_invalid_state() {
    let config = Config::default();
    let (w, _) = start(&config, &["v2.0.0"]);
    let (w, _) = w.step(Event::LevelChosen(Bump::Patch));
    let (w, _) = w.step(Event::Answered(Decision::Proceed));
    let (w, a) = w.step(Event::HeadFound { is_branch: false });
    let failed = Outcome::Failed(BumpError::InvalidState);
    assert_eq!(a, Action::Stop(failed));
    assert_eq!(failed.exit_code(), 1);
    let (_, a) = w.step(Event::TagCreated);
    assert_eq!(a, Action::Stop(failed));
}

#[test]
fn no_matching_tag_ends_quietly() {
    let (w, a) = start(&Config::default(), &["xyz", "vbad"]);
    assert_eq!(a, Action::Stop(Outcome::NotFound));
    assert_eq!(Outcome::NotFound.exit_code(), 0);
    assert_eq!(w.stage, Stage::Finished(Outcome::NotFound));
}

#[test]
fn overflowing_level_fails() {
    let config = Config { level: Some(Bump::Minor), ..Config::default() };
    let top = Version::new(1, u64::MAX, 0);
    let (_, a) = Workflow::new(&config).step(Event::Resolved(Some(top)));
    assert_eq!(a, Action::Stop(Outcome::Failed(BumpError::VersionOverflow)));
}

#[test]
fn out_of_order_event_fails() {
    let (_, a) = Workflow::new(&Config::default()).step(Event::TagCreated);
    assert_eq!(a, Action::Stop(Outcome::Failed(BumpError::UnexpectedEvent)));
}
