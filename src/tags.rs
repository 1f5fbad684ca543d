//! Turning tag names into versions: strip the prefix, parse the rest.
use crate::select::{is_maximum, select_current};
use crate::version::{version_le, Identifier, SemVer, Version};
use vstd::prelude::*;

verus! {

/// What `semver::Version::parse` makes of a text: the version, or `None`
/// when the text is not a semantic version.
pub uninterp spec fn semver_parse(text: Seq<char>) -> Option<SemVer>;

/// Why a text is not a semantic version.
#[derive(Clone, Copy, Debug, PartialEq, Eq, Structural)]
pub enum ParseFailure {
    /// A dot is not where the next component should begin (`1.2`,
    /// `01.0.0`).
    MissingComponent,
    /// A major, minor or patch component is not a number that fits in 64
    /// bits (`a.b.c`).
    InvalidComponent,
    /// What follows `major.minor.patch` is not a valid pre-release or build
    /// part (`1.2.3-`, `1.2.3 x`).
    MalformedSuffix,
    /// Any other failure.
    Other,
}

/// The reason that a parser message gives, read from how it begins.
pub open spec fn failure_of(message: Seq<char>) -> ParseFailure {
    if "Expected dot"@.is_prefix_of(message) {
        ParseFailure::MissingComponent
    } else if "Error parsing prerelease"@.is_prefix_of(message) {
        ParseFailure::MalformedSuffix
    } else if "Error parsing "@.is_prefix_of(message) {
        ParseFailure::InvalidComponent
    } else if "Extra junk after valid version"@.is_prefix_of(message) {
        ParseFailure::MalformedSuffix
    } else {
        ParseFailure::Other
    }
}

/// A tag whose name, once the prefix is stripped, is not a semantic version.
#[derive(Clone, Debug, PartialEq, Eq)]
pub struct TagError {
    /// The full tag name.
    pub tag: String,
    /// Why the rest of the name is not a semantic version.
    pub reason: ParseFailure,
    /// The parser's own words.
    pub message: String,
}

impl ParseFailure {
    /// Reads the reason from a message of the semantic-version parser.
    pub fn from_message(message: &str) -> (r: ParseFailure)
        ensures
            r == failure_of(message@),
    {
        if strip_prefix(message, "Expected dot").is_some() {
            ParseFailure::MissingComponent
        } else if strip_prefix(message, "Error parsing prerelease").is_some() {
            ParseFailure::MalformedSuffix
        } else if strip_prefix(message, "Error parsing ").is_some() {
            ParseFailure::InvalidComponent
        } else if strip_prefix(message, "Extra junk after valid version").is_some() {
            ParseFailure::MalformedSuffix
        } else {
            ParseFailure::Other
        }
    }
}

/// The versions found among the tags, and the tags that held none.
#[derive(Clone, Debug, PartialEq, Eq)]
pub struct Resolution {
    /// The highest version found, if any.
    pub current: Option<Version>,
    /// The malformed tags, in the order of the input.
    pub malformed: Vec<TagError>,
}

/// The name with the prefix taken off once, or unchanged when it does not
/// start with the prefix.
pub open spec fn strip_prefix_spec(name: Seq<char>, prefix: Seq<char>) -> Seq<char> {
    if prefix.is_prefix_of(name) {
        name.skip(prefix.len() as int)
    } else {
        name
    }
}

/// What the tag name stands for: the version that follows the prefix.
pub open spec fn tag_version(name: Seq<char>, prefix: Seq<char>) -> Option<SemVer> {
    semver_parse(strip_prefix_spec(name, prefix))
}

pub open spec fn names_view(names: Seq<String>) -> Seq<Seq<char>> {
    names.map_values(|s: String| s@)
}

/// The versions of the well-formed tags, in the order of the names.
pub open spec fn valid_versions(names: Seq<Seq<char>>, prefix: Seq<char>) -> Seq<SemVer>
    decreases names.len(),
{
    if names.len() == 0 {
        Seq::empty()
    } else {
        let rest = valid_versions(names.drop_last(), prefix);
        match tag_version(names.last(), prefix) {
            Some(v) => rest.push(v),
            None => rest,
        }
    }
}

/// The malformed tag names, in the order of the names.
pub open spec fn malformed_tags(names: Seq<Seq<char>>, prefix: Seq<char>) -> Seq<Seq<char>>
    decreases names.len(),
{
    if names.len() == 0 {
        Seq::empty()
    } else {
        let rest = malformed_tags(names.drop_last(), prefix);
        match tag_version(names.last(), prefix) {
            Some(_) => rest,
            None => rest.push(names.last()),
        }
    }
}

/// A highest of the versions: one of them, of no lower precedence than any.
pub open spec fn is_highest(v: SemVer, s: Seq<SemVer>) -> bool {
    &&& s.contains(v)
    &&& forall|i: int| 0 <= i < s.len() ==> version_le(#[trigger] s[i], v)
}

/// Each tag name lands on exactly one side of the split: a name whose rest
/// is a semantic version gives that version among the valid ones, any other
/// name is among the malformed ones, and no name is counted twice.
pub proof fn lemma_tag_partition(names: Seq<Seq<char>>, prefix: Seq<char>)
    ensures
        valid_versions(names, prefix).len() + malformed_tags(names, prefix).len() == names.len(),
        forall|i: int|
            0 <= i < names.len() && #[trigger] tag_version(names[i], prefix) is Some
                ==> valid_versions(names, prefix).contains(tag_version(names[i], prefix)->Some_0),
        forall|i: int|
            0 <= i < names.len() && #[trigger] tag_version(names[i], prefix) is None
                ==> malformed_tags(names, prefix).contains(names[i]),
    decreases names.len(),
{
    if names.len() > 0 {
        let rest = names.drop_last();
        lemma_tag_partition(rest, prefix);
        let vs = valid_versions(rest, prefix);
        let ms = malformed_tags(rest, prefix);
        assert forall|i: int|
            0 <= i < names.len() && #[trigger] tag_version(names[i], prefix) is Some
                implies valid_versions(names, prefix).contains(tag_version(names[i], prefix)->Some_0) by {
            if i < names.len() - 1 {
                assert(rest[i] == names[i]);
                let w = tag_version(names[i], prefix)->Some_0;
                let k = choose|k: int| 0 <= k < vs.len() && vs[k] == w;
                assert(valid_versions(names, prefix)[k] == w);
            } else {
                let n = valid_versions(names, prefix).len();
                assert(valid_versions(names, prefix)[n - 1] == tag_version(names[i], prefix)->Some_0);
            }
        }
        assert forall|i: int|
            0 <= i < names.len() && #[trigger] tag_version(names[i], prefix) is None
                implies malformed_tags(names, prefix).contains(names[i]) by {
            if i < names.len() - 1 {
                assert(rest[i] == names[i]);
                let k = choose|k: int| 0 <= k < ms.len() && ms[k] == names[i];
                assert(malformed_tags(names, prefix)[k] == names[i]);
            } else {
                let n = malformed_tags(names, prefix).len();
                assert(malformed_tags(names, prefix)[n - 1] == names[i]);
            }
        }
    }
}

/// Relies on `str::strip_prefix`: the text after `prefix` when `s` starts
/// with it, and `None` when it does not.
#[verifier::external_body]
fn strip_prefix<'a>(s: &'a str, prefix: &str) -> (r: Option<&'a str>)
    ensures
        prefix@.is_prefix_of(s@) <==> r is Some,
        r matches Some(t) ==> t@ == s@.skip(prefix@.len() as int),
{
    s.strip_prefix(prefix)
}

/// Relies on `semver::Version::parse`: whether a text is a semantic version,
/// and which one; on failure, the parser's message.
#[verifier::external_body]
fn parse_semver(text: &str) -> (r: Result<Version, String>)
    ensures
        r is Ok <==> semver_parse(text@) is Some,
        r matches Ok(v) ==> semver_parse(text@) == Some(v@),
{
    let ids = |l: Vec<semver::Identifier>| -> Vec<Identifier> {
        l.into_iter().map(|i| match i {
            semver::Identifier::Numeric(n) => Identifier::Numeric(n),
            semver::Identifier::AlphaNumeric(s) => Identifier::AlphaNumeric(s),
        }).collect()
    };
    match semver::Version::parse(text) {
        Ok(v) => Ok(Version { major: v.major, minor: v.minor, patch: v.patch, pre: ids(v.pre), build: ids(v.build) }),
        Err(semver::SemVerError::ParseError(m)) => Err(m),
    }
}

/// Takes the prefix off a tag name once; a name without it is kept whole.
pub fn strip_tag_prefix<'a>(name: &'a str, prefix: &str) -> (r: &'a str)
    ensures
        r@ == strip_prefix_spec(name@, prefix@),
{
    match strip_prefix(name, prefix) {
        Some(rest) => rest,
        None => name,
    }
}

/// Parses one tag name: the version after the prefix, or the reason it is
/// not one.
pub fn parse_tag(name: &str, prefix: &str) -> (r: Result<Version, String>)
    ensures
        r is Ok <==> tag_version(name@, prefix@) is Some,
        r matches Ok(v) ==> tag_version(name@, prefix@) == Some(v@),
{
    parse_semver(strip_tag_prefix(name, prefix))
}

/// Splits tag names into the versions they hold and the malformed ones, each
/// in the order of the input.
pub fn parse_tags(names: &Vec<String>, prefix: &str) -> (r: (Vec<Version>, Vec<TagError>))
    ensures
        r.0@.map_values(|v: Version| v@) == valid_versions(names_view(names@), prefix@),
        r.1@.map_values(|e: TagError| e.tag@) == malformed_tags(names_view(names@), prefix@),
        forall|i: int| 0 <= i < r.1@.len() ==> #[trigger] r.1@[i].reason == failure_of(r.1@[i].message@),
{
    let ghost all = names_view(names@);
    let mut versions: Vec<Version> = Vec::new();
    let mut errors: Vec<TagError> = Vec::new();
    let mut i: usize = 0;
    while i < names.len()
        invariant
            i <= names@.len(),
            all == names_view(names@),
            versions@.map_values(|v: Version| v@) == valid_versions(all.take(i as int), prefix@),
            errors@.map_values(|e: TagError| e.tag@) == malformed_tags(all.take(i as int), prefix@),
            forall|j: int| 0 <= j < errors@.len() ==> #[trigger] errors@[j].reason == failure_of(errors@[j].message@),
        decreases names@.len() - i,
    {
        let name = &names[i];
        assert(all.take(i + 1).drop_last() =~= all.take(i as int));
        assert(all.take(i + 1).last() == name@);
        match parse_tag(name.as_str(), prefix) {
            Ok(v) => {
                versions.push(v);
            },
            Err(message) => {
                let reason = ParseFailure::from_message(message.as_str());
                errors.push(TagError { tag: name.clone(), reason, message });
            },
        }
        assert(versions@.map_values(|v: Version| v@) =~= valid_versions(all.take(i + 1), prefix@));
        assert(errors@.map_values(|e: TagError| e.tag@) =~= malformed_tags(all.take(i + 1), prefix@));
        i = i + 1;
    }
    assert(all.take(i as int) =~= all);
    (versions, errors)
}

/// Finds the current version among tag names: the highest version that a
/// name holds after the prefix, with the malformed names set apart.
pub fn resolve_tags(names: &Vec<String>, prefix: &str) -> (r: Resolution)
    ensures
        r.malformed@.map_values(|e: TagError| e.tag@) == malformed_tags(names_view(names@), prefix@),
        r.current is None <==> valid_versions(names_view(names@), prefix@).len() == 0,
        r.current matches Some(v) ==> is_highest(v@, valid_versions(names_view(names@), prefix@)),
        forall|i: int|
            0 <= i < r.malformed@.len() ==> #[trigger] r.malformed@[i].reason == failure_of(
                r.malformed@[i].message@,
            ),
{
    let (versions, malformed) = parse_tags(names, prefix);
    let ghost vs = versions@;
    let ghost valid = valid_versions(names_view(names@), prefix@);
    assert(vs.map_values(|v: Version| v@).len() == vs.len());
    let current = select_current(versions);
    proof {
        if current is Some {
            let v = current->Some_0;
            assert(is_maximum(v, vs));
            let k = choose|k: int| 0 <= k < vs.len() && vs[k] == v;
            assert(valid[k] == v@);
            assert forall|i: int| 0 <= i < valid.len() implies version_le(#[trigger] valid[i], v@) by {
                assert(valid[i] == vs[i]@);
            }
        }
    }
    Resolution { current, malformed }
}

} // verus!
