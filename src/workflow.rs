//! The decisions of a bump: which level, whether to go on, how the tag is
//! named and pushed, and which credential to try next.
use crate::config::{prefix_of, Config};
use crate::version::{can_bump, bump_spec, version_lt, Bump, SemVer, Version};
use vstd::prelude::*;
use vstd::string::StringExecFns;

verus! {

/// The text that semver's `Display` gives a version: `1.2.3-rc.1+b5`.
pub uninterp spec fn semver_text(v: SemVer) -> Seq<char>;

/// A failure that ends a bump.
#[derive(Clone, Copy, Debug, PartialEq, Eq, Structural)]
pub enum BumpError {
    /// HEAD does not point at a branch.
    InvalidState,
    /// The component to increment is already at its largest value.
    VersionOverflow,
    /// An event came that the current stage does not wait for.
    UnexpectedEvent,
}

/// What the operator's answer to the confirmation leads to.
#[derive(Clone, Copy, Debug, PartialEq, Eq, Structural)]
pub enum Decision {
    /// Create the tag.
    Proceed,
    /// Stop without creating anything; not an error.
    Cancel,
}

/// How a run ends.
#[derive(Clone, Copy, Debug, PartialEq, Eq, Structural)]
pub enum Outcome {
    /// The tag was created, and pushed unless pushing was turned off.
    Bumped,
    /// No tag held a version.
    NotFound,
    /// The operator declined.
    Canceled,
    /// A fatal condition.
    Failed(BumpError),
}

/// A way of obtaining credentials for a push, in the order they are tried.
#[derive(Clone, Copy, Debug, PartialEq, Eq, Structural)]
pub enum CredentialStrategy {
    /// The git credential helper, for a user name and password.
    Helper,
    /// Asking the operator for a user name and password.
    Prompt,
    /// An identity held by the SSH agent.
    SshAgent,
}

/// The kinds of credential a remote accepts.
#[derive(Clone, Copy, Debug, PartialEq, Eq, Structural)]
pub struct AllowedTypes {
    /// A plaintext user name and password.
    pub user_pass: bool,
    /// An SSH key.
    pub ssh_key: bool,
}

/// The ASCII letters of a text folded to lower case, as code points.
pub open spec fn ascii_fold(s: Seq<char>) -> Seq<u32> {
    s.map_values(
        |c: char|
            if 65 <= (c as u32) && (c as u32) <= 90 {
                ((c as u32) + 32) as u32
            } else {
                c as u32
            },
    )
}

/// Two texts are equal but for the case of ASCII letters.
pub open spec fn same_ignoring_case(a: Seq<char>, b: Seq<char>) -> bool {
    ascii_fold(a) == ascii_fold(b)
}

/// An answer that agrees: "y" or "yes", in any case.
pub open spec fn affirmative(answer: Seq<char>) -> bool {
    same_ignoring_case(answer, seq!['y']) || same_ignoring_case(answer, seq!['y', 'e', 's'])
}

pub open spec fn decision_of(answer: Seq<char>) -> Decision {
    if affirmative(answer) {
        Decision::Proceed
    } else {
        Decision::Cancel
    }
}

pub open spec fn bump_of_index(index: int) -> Option<Bump> {
    if index == 0 {
        Some(Bump::Major)
    } else if index == 1 {
        Some(Bump::Minor)
    } else if index == 2 {
        Some(Bump::Patch)
    } else {
        None
    }
}

pub open spec fn bump_of_name(name: Seq<char>) -> Option<Bump> {
    if same_ignoring_case(name, seq!['m', 'a', 'j', 'o', 'r']) {
        Some(Bump::Major)
    } else if same_ignoring_case(name, seq!['m', 'i', 'n', 'o', 'r']) {
        Some(Bump::Minor)
    } else if same_ignoring_case(name, seq!['p', 'a', 't', 'c', 'h']) {
        Some(Bump::Patch)
    } else {
        None
    }
}

/// The tag that a version is released under.
pub open spec fn tag_name_spec(prefix: Seq<char>, v: SemVer) -> Seq<char> {
    prefix + semver_text(v)
}

/// The ref-spec that pushes a tag onto the tag of the same name.
pub open spec fn refspec_spec(tag: Seq<char>) -> Seq<char> {
    seq!['r', 'e', 'f', 's', '/', 't', 'a', 'g', 's', '/'] + tag + seq![
        ':',
        'r',
        'e',
        'f',
        's',
        '/',
        't',
        'a',
        'g',
        's',
        '/',
    ] + tag
}

pub open spec fn rank(s: CredentialStrategy) -> int {
    match s {
        CredentialStrategy::Helper => 0,
        CredentialStrategy::Prompt => 1,
        CredentialStrategy::SshAgent => 2,
    }
}

pub open spec fn strategy_at(i: int) -> CredentialStrategy {
    if i == 0 {
        CredentialStrategy::Helper
    } else if i == 1 {
        CredentialStrategy::Prompt
    } else {
        CredentialStrategy::SshAgent
    }
}

/// A strategy can only be tried when the remote accepts what it yields.
pub open spec fn applicable(s: CredentialStrategy, allowed: AllowedTypes) -> bool {
    match s {
        CredentialStrategy::Helper => allowed.user_pass,
        CredentialStrategy::Prompt => allowed.user_pass,
        CredentialStrategy::SshAgent => allowed.ssh_key,
    }
}

/// The first applicable strategy at position `i` or later.
pub open spec fn first_applicable(allowed: AllowedTypes, i: int) -> Option<CredentialStrategy>
    decreases 3 - i,
{
    if i >= 3 || i < 0 {
        None
    } else if applicable(strategy_at(i), allowed) {
        Some(strategy_at(i))
    } else {
        first_applicable(allowed, i + 1)
    }
}

/// The strategy to try after `last` failed, or the first one when nothing
/// was tried yet.
pub open spec fn next_strategy_spec(
    allowed: AllowedTypes,
    last: Option<CredentialStrategy>,
) -> Option<CredentialStrategy> {
    match last {
        None => first_applicable(allowed, 0),
        Some(s) => first_applicable(allowed, rank(s) + 1),
    }
}

/// The strategies that a push goes through, in order, when each one fails.
pub open spec fn credential_chain(allowed: AllowedTypes) -> Seq<CredentialStrategy> {
    let h = if allowed.user_pass {
        seq![CredentialStrategy::Helper, CredentialStrategy::Prompt]
    } else {
        Seq::empty()
    };
    if allowed.ssh_key {
        h.push(CredentialStrategy::SshAgent)
    } else {
        h
    }
}

/// Relies on semver's `Display` for `Version`: the text of a version.
#[verifier::external_body]
fn version_text(v: &Version) -> (r: String)
    ensures
        r@ == semver_text(v@),
{
    let ids = |l: &Vec<crate::version::Identifier>| -> Vec<semver::Identifier> {
        l.iter().map(|i| match i {
            crate::version::Identifier::Numeric(n) => semver::Identifier::Numeric(*n),
            crate::version::Identifier::AlphaNumeric(s) => semver::Identifier::AlphaNumeric(s.clone()),
        }).collect()
    };
    let s = semver::Version { major: v.major, minor: v.minor, patch: v.patch, pre: ids(&v.pre), build: ids(&v.build) };
    s.to_string()
}

/// Relies on `str::eq_ignore_ascii_case`: equality once ASCII letters are
/// folded to lower case.
#[verifier::external_body]
fn eq_ignore_ascii_case(a: &str, b: &str) -> (r: bool)
    ensures
        r == same_ignoring_case(a@, b@),
{
    a.eq_ignore_ascii_case(b)
}

impl Bump {
    /// The level at a position of the selection list: major, minor, patch.
    pub fn from_index(index: usize) -> (r: Option<Bump>)
        ensures
            r == bump_of_index(index as int),
    {
        if index == 0 {
            Some(Bump::Major)
        } else if index == 1 {
            Some(Bump::Minor)
        } else if index == 2 {
            Some(Bump::Patch)
        } else {
            None
        }
    }

    /// The level named by a word, in any case: "major", "minor" or "patch".
    pub fn from_name(name: &str) -> (r: Option<Bump>)
        ensures
            r == bump_of_name(name@),
    {
        proof {
            reveal_strlit("major");
            reveal_strlit("minor");
            reveal_strlit("patch");
        }
        assert("major"@ =~= seq!['m', 'a', 'j', 'o', 'r']);
        assert("minor"@ =~= seq!['m', 'i', 'n', 'o', 'r']);
        assert("patch"@ =~= seq!['p', 'a', 't', 'c', 'h']);
        if eq_ignore_ascii_case(name, "major") {
            Some(Bump::Major)
        } else if eq_ignore_ascii_case(name, "minor") {
            Some(Bump::Minor)
        } else if eq_ignore_ascii_case(name, "patch") {
            Some(Bump::Patch)
        } else {
            None
        }
    }
}

/// The bumped version, or `VersionOverflow` when the component to increment
/// cannot grow.
pub fn bump_version(current: &Version, level: Bump) -> (r: Result<Version, BumpError>)
    ensures
        r is Err <==> !can_bump(current@, level),
        r matches Err(e) ==> e == BumpError::VersionOverflow,
        r matches Ok(v) ==> v@ == bump_spec(current@, level) && version_lt(current@, v@),
{
    if current.can_bump(level) {
        Ok(current.bumped(level))
    } else {
        Err(BumpError::VersionOverflow)
    }
}

/// Reads the operator's answer to "bump version?": only "y" or "yes", in
/// any case, goes on.
pub fn decide(answer: &str) -> (r: Decision)
    ensures
        r == decision_of(answer@),
{
    proof {
        reveal_strlit("y");
        reveal_strlit("yes");
    }
    assert("y"@ =~= seq!['y']);
    assert("yes"@ =~= seq!['y', 'e', 's']);
    if eq_ignore_ascii_case(answer, "y") || eq_ignore_ascii_case(answer, "yes") {
        Decision::Proceed
    } else {
        Decision::Cancel
    }
}

/// The name of the tag for a version: the prefix, then the version.
pub fn tag_name(prefix: &str, v: &Version) -> (r: String)
    ensures
        r@ == tag_name_spec(prefix@, v@),
{
    let mut name = String::from_str(prefix);
    let text = version_text(v);
    name.append(text.as_str());
    name
}

/// The ref-spec that pushes the tag `tag` to the remote tag of that name.
pub fn refspec(tag: &str) -> (r: String)
    ensures
        r@ == refspec_spec(tag@),
{
    proof {
        reveal_strlit("refs/tags/");
        reveal_strlit(":refs/tags/");
    }
    let mut r = String::from_str("refs/tags/");
    r.append(tag);
    r.append(":refs/tags/");
    r.append(tag);
    assert(r@ =~= refspec_spec(tag@));
    r
}

/// The tag to create at HEAD: refused with `InvalidState` unless HEAD is a
/// branch, so that nothing is created on a detached HEAD.
pub fn plan_tag(head_is_branch: bool, prefix: &str, v: &Version) -> (r: Result<String, BumpError>)
    ensures
        head_is_branch <==> r is Ok,
        !head_is_branch ==> r == Err::<String, BumpError>(BumpError::InvalidState),
        r matches Ok(name) ==> name@ == tag_name_spec(prefix@, v@),
{
    if !head_is_branch {
        Err(BumpError::InvalidState)
    } else {
        Ok(tag_name(prefix, v))
    }
}

/// The user name to ask the credential helper about: the one in the URL,
/// else the configured one.
pub fn candidate_user_name(from_url: Option<String>, configured: Option<String>) -> (r: Option<
    String,
>)
    ensures
        r == (if from_url is Some {
            from_url
        } else {
            configured
        }),
{
    match from_url {
        Some(u) => Some(u),
        None => configured,
    }
}

fn first_applicable_from(allowed: AllowedTypes, start: u8) -> (r: Option<CredentialStrategy>)
    requires
        start <= 3,
    ensures
        r == first_applicable(allowed, start as int),
    decreases 3 - start,
{
    if start >= 3 {
        None
    } else {
        let s = if start == 0 {
            CredentialStrategy::Helper
        } else if start == 1 {
            CredentialStrategy::Prompt
        } else {
            CredentialStrategy::SshAgent
        };
        let ok = match s {
            CredentialStrategy::Helper => allowed.user_pass,
            CredentialStrategy::Prompt => allowed.user_pass,
            CredentialStrategy::SshAgent => allowed.ssh_key,
        };
        if ok {
            Some(s)
        } else {
            first_applicable_from(allowed, start + 1)
        }
    }
}

impl CredentialStrategy {
    /// The strategy to try after `last` failed (the first one when `last` is
    /// `None`), skipping those the remote does not accept; `None` when all are
    /// spent.
    pub fn next(allowed: AllowedTypes, last: Option<CredentialStrategy>) -> (r: Option<
        CredentialStrategy,
    >)
        ensures
            r == next_strategy_spec(allowed, last),
    {
        match last {
            None => first_applicable_from(allowed, 0),
            Some(CredentialStrategy::Helper) => first_applicable_from(allowed, 1),
            Some(CredentialStrategy::Prompt) => first_applicable_from(allowed, 2),
            Some(CredentialStrategy::SshAgent) => first_applicable_from(allowed, 3),
        }
    }
}

/// The exit status of a run that ends in `o`.
pub open spec fn exit_status(o: Outcome) -> i32 {
    if o is Failed {
        1
    } else {
        0
    }
}

/// Answering "n" or "no", in any case, cancels the bump, and a canceled run
/// exits with the status of success.
pub proof fn lemma_declining_cancels(answer: Seq<char>)
    requires
        same_ignoring_case(answer, seq!['n']) || same_ignoring_case(answer, seq!['n', 'o']),
    ensures
        decision_of(answer) == Decision::Cancel,
        exit_status(Outcome::Canceled) == 0,
{
    let f = ascii_fold(answer);
    if same_ignoring_case(answer, seq!['y']) {
        assert(f[0] == ascii_fold(seq!['y'])[0]);
    }
    if same_ignoring_case(answer, seq!['y', 'e', 's']) {
        assert(f.len() == 3);
        assert(ascii_fold(seq!['n']).len() == 1);
        assert(ascii_fold(seq!['n', 'o']).len() == 2);
    }
}

/// Credentials are sought from the helper, then by asking, then from the SSH
/// agent, each only where the remote accepts what it yields; the search gives
/// up only once every applicable strategy was tried.
pub proof fn lemma_credential_chain(allowed: AllowedTypes)
    ensures
        ({
            let c = credential_chain(allowed);
            &&& c.len() == 0 ==> next_strategy_spec(allowed, None) is None
            &&& c.len() > 0 ==> next_strategy_spec(allowed, None) == Some(c[0])
            &&& forall|i: int|
                0 <= i < c.len() - 1 ==> next_strategy_spec(allowed, Some(#[trigger] c[i])) == Some(
                    c[i + 1],
                )
            &&& c.len() > 0 ==> next_strategy_spec(allowed, Some(c.last())) is None
            &&& forall|i: int| 0 <= i < c.len() ==> applicable(#[trigger] c[i], allowed)
            &&& forall|i: int, j: int| 0 <= i < j < c.len() ==> rank(c[i]) < rank(c[j])
        }),
{
    reveal_with_fuel(first_applicable, 4);
}

impl Outcome {
    /// The process exit status: zero unless the run failed.
    pub fn exit_code(&self) -> (r: i32)
        ensures
            r == exit_status(*self),
    {
        match self {
            Outcome::Failed(_) => 1,
            _ => 0,
        }
    }
}

/// Where a bump run stands.
#[derive(Debug, PartialEq, Eq)]
pub enum Stage {
    /// Waiting for the current version.
    Start,
    /// Waiting for the operator to pick a level.
    ChoosingLevel { current: Version },
    /// Waiting for the operator to confirm the bump.
    Confirming { bumped: Version },
    /// Waiting to learn whether HEAD is a branch.
    Tagging { bumped: Version },
    /// Waiting for the tag to be written.
    Creating { tag: String },
    /// Waiting for the push to finish.
    Pushing,
    /// The run is over.
    Finished(Outcome),
}

/// What the outside world reports back to a run.
#[derive(Debug, PartialEq, Eq)]
pub enum Event {
    /// The highest version among the tags, if any.
    Resolved(Option<Version>),
    /// The level the operator picked.
    LevelChosen(Bump),
    /// The operator's answer to the confirmation.
    Answered(Decision),
    /// Whether HEAD points at a branch.
    HeadFound { is_branch: bool },
    /// The tag object and reference were written.
    TagCreated,
    /// The push went through.
    Pushed,
}

/// What a run asks the outside world to do next.
#[derive(Debug, PartialEq, Eq)]
pub enum Action {
    /// Ask for a bump level, showing the current tag.
    AskLevel { current_tag: String },
    /// Ask whether to go from one tag to the other.
    Confirm { current_tag: String, bumped_tag: String },
    /// Find out whether HEAD points at a branch.
    CheckHead,
    /// Write an annotated tag of this name at HEAD.
    CreateTag { name: String },
    /// Push with this ref-spec to the remote.
    Push { refspec: String },
    /// Stop, with this outcome.
    Stop(Outcome),
}

/// A bump run: its settings and its stage.
#[derive(Debug)]
pub struct Workflow {
    pub prefix: String,
    pub level: Option<Bump>,
    pub no_push: bool,
    pub stage: Stage,
}

pub open spec fn finishes(w2: Workflow, a: Action, o: Outcome) -> bool {
    w2.stage == Stage::Finished(o) && a == Action::Stop(o)
}

/// What follows once a level is known for the current version.
pub open spec fn level_known(w: Workflow, v: Version, l: Bump, w2: Workflow, a: Action) -> bool {
    if !can_bump(v@, l) {
        finishes(w2, a, Outcome::Failed(BumpError::VersionOverflow))
    } else {
        &&& w2.stage matches Stage::Confirming { bumped } && bumped@ == bump_spec(v@, l)
        &&& a matches Action::Confirm { current_tag, bumped_tag } && current_tag@ == tag_name_spec(
            w.prefix@,
            v@,
        ) && bumped_tag@ == tag_name_spec(w.prefix@, bump_spec(v@, l))
    }
}

/// One step of a run: from `w`, on `e`, to `w2`, asking for `a`.
pub open spec fn step_post(w: Workflow, e: Event, w2: Workflow, a: Action) -> bool {
    &&& w2.prefix == w.prefix
    &&& w2.level == w.level
    &&& w2.no_push == w.no_push
    &&& match (w.stage, e) {
        (Stage::Finished(o), _) => finishes(w2, a, o),
        (Stage::Start, Event::Resolved(None)) => finishes(w2, a, Outcome::NotFound),
        (Stage::Start, Event::Resolved(Some(v))) => match w.level {
            None => {
                &&& w2.stage == (Stage::ChoosingLevel { current: v })
                &&& a matches Action::AskLevel { current_tag } && current_tag@ == tag_name_spec(
                    w.prefix@,
                    v@,
                )
            },
            Some(l) => level_known(w, v, l, w2, a),
        },
        (Stage::ChoosingLevel { current }, Event::LevelChosen(l)) => level_known(
            w,
            current,
            l,
            w2,
            a,
        ),
        (Stage::Confirming { bumped }, Event::Answered(d)) => if d == Decision::Cancel {
            finishes(w2, a, Outcome::Canceled)
        } else {
            w2.stage == (Stage::Tagging { bumped }) && a == Action::CheckHead
        },
        (Stage::Tagging { bumped }, Event::HeadFound { is_branch }) => if !is_branch {
            finishes(w2, a, Outcome::Failed(BumpError::InvalidState))
        } else {
            &&& w2.stage matches Stage::Creating { tag } && tag@ == tag_name_spec(w.prefix@, bumped@)
            &&& a matches Action::CreateTag { name } && name@ == tag_name_spec(w.prefix@, bumped@)
        },
        (Stage::Creating { tag }, Event::TagCreated) => if w.no_push {
            finishes(w2, a, Outcome::Bumped)
        } else {
            &&& w2.stage == Stage::Pushing
            &&& a matches Action::Push { refspec } && refspec@ == refspec_spec(tag@)
        },
        (Stage::Pushing, Event::Pushed) => finishes(w2, a, Outcome::Bumped),
        _ => finishes(w2, a, Outcome::Failed(BumpError::UnexpectedEvent)),
    }
}

/// Declining the confirmation ends the run as canceled, with the status of
/// success; a finished run stays finished whatever comes, so no tag is
/// created after it.
pub proof fn lemma_cancel_creates_no_tag(w: Workflow, e: Event, w2: Workflow, a: Action)
    requires
        step_post(w, e, w2, a),
    ensures
        w.stage is Confirming && e == Event::Answered(Decision::Cancel) ==> w2.stage
            == Stage::Finished(Outcome::Canceled) && a == Action::Stop(Outcome::Canceled)
            && exit_status(Outcome::Canceled) == 0,
        w.stage is Finished ==> w2.stage == w.stage && !(a is CreateTag),
{
}

/// On a detached HEAD the run fails with `InvalidState` instead of creating
/// a tag.
pub proof fn lemma_detached_head_fails(w: Workflow, w2: Workflow, a: Action)
    requires
        w.stage is Tagging,
        step_post(w, Event::HeadFound { is_branch: false }, w2, a),
    ensures
        w2.stage == Stage::Finished(Outcome::Failed(BumpError::InvalidState)),
        a == Action::Stop(Outcome::Failed(BumpError::InvalidState)),
        !(a is CreateTag),
        exit_status(Outcome::Failed(BumpError::InvalidState)) == 1,
{
}

impl Workflow {
    /// A run with the settings of `config`, waiting for the current version.
    pub fn new(config: &Config) -> (r: Workflow)
        ensures
            r.prefix@ == prefix_of(*config),
            r.level == config.level,
            r.no_push == config.no_push,
            r.stage == Stage::Start,
    {
        Workflow {
            prefix: String::from_str(config.tag_prefix()),
            level: config.level,
            no_push: config.no_push,
            stage: Stage::Start,
        }
    }

    fn finish(prefix: String, level: Option<Bump>, no_push: bool, o: Outcome) -> (r: (
        Workflow,
        Action,
    ))
        ensures
            r.0.prefix == prefix,
            r.0.level == level,
            r.0.no_push == no_push,
            finishes(r.0, r.1, o),
    {
        (Workflow { prefix, level, no_push, stage: Stage::Finished(o) }, Action::Stop(o))
    }

    fn with_level(prefix: String, level: Option<Bump>, no_push: bool, current: Version, l: Bump) -> (r: (
        Workflow,
        Action,
    ))
        ensures
            r.0.prefix == prefix,
            r.0.level == level,
            r.0.no_push == no_push,
            level_known((Workflow { prefix, level, no_push, stage: Stage::Start }), current, l, r.0, r.1),
    {
        match bump_version(&current, l) {
            Ok(bumped) => {
                let current_tag = tag_name(prefix.as_str(), &current);
                let bumped_tag = tag_name(prefix.as_str(), &bumped);
                (
                    Workflow { prefix, level, no_push, stage: Stage::Confirming { bumped } },
                    Action::Confirm { current_tag, bumped_tag },
                )
            },
            Err(e) => Workflow::finish(prefix, level, no_push, Outcome::Failed(e)),
        }
    }

    /// Takes one event: the next state of the run and what it asks for.
    pub fn step(self, event: Event) -> (r: (Workflow, Action))
        ensures
            step_post(self, event, r.0, r.1),
    {
        let Workflow { prefix, level, no_push, stage } = self;
        match (stage, event) {
            (Stage::Finished(o), _) => Workflow::finish(prefix, level, no_push, o),
            (Stage::Start, Event::Resolved(None)) => Workflow::finish(
                prefix,
                level,
                no_push,
                Outcome::NotFound,
            ),
            (Stage::Start, Event::Resolved(Some(v))) => match level {
                None => {
                    let current_tag = tag_name(prefix.as_str(), &v);
                    (
                        Workflow { prefix, level, no_push, stage: Stage::ChoosingLevel { current: v } },
                        Action::AskLevel { current_tag },
                    )
                },
                Some(l) => Workflow::with_level(prefix, level, no_push, v, l),
            },
            (Stage::ChoosingLevel { current }, Event::LevelChosen(l)) => Workflow::with_level(
                prefix,
                level,
                no_push,
                current,
                l,
            ),
            (Stage::Confirming { bumped }, Event::Answered(d)) => match d {
                Decision::Cancel => Workflow::finish(prefix, level, no_push, Outcome::Canceled),
                Decision::Proceed => (
                    Workflow { prefix, level, no_push, stage: Stage::Tagging { bumped } },
                    Action::CheckHead,
                ),
            },
            (Stage::Tagging { bumped }, Event::HeadFound { is_branch }) => {
                match plan_tag(is_branch, prefix.as_str(), &bumped) {
                    Ok(name) => {
                        let tag = String::from_str(name.as_str());
                        (
                            Workflow { prefix, level, no_push, stage: Stage::Creating { tag } },
                            Action::CreateTag { name },
                        )
                    },
                    Err(e) => Workflow::finish(prefix, level, no_push, Outcome::Failed(e)),
                }
            },
            (Stage::Creating { tag }, Event::TagCreated) => {
                if no_push {
                    Workflow::finish(prefix, level, no_push, Outcome::Bumped)
                } else {
                    let spec = refspec(tag.as_str());
                    (
                        Workflow { prefix, level, no_push, stage: Stage::Pushing },
                        Action::Push { refspec: spec },
                    )
                }
            },
            (Stage::Pushing, Event::Pushed) => Workflow::finish(
                prefix,
                level,
                no_push,
                Outcome::Bumped,
            ),
            _ => Workflow::finish(
                prefix,
                level,
                no_push,
                Outcome::Failed(BumpError::UnexpectedEvent),
            ),
        }
    }
}

} // verus!
