//! Semantic versions, their precedence, and version bumps.
use core::cmp::Ordering;
use vstd::prelude::*;
use vstd::utf8::{decode_utf8, encode_utf8, encode_utf8_decode_utf8};

verus! {

/// One dot-separated pre-release or build identifier, as a mathematical value.
pub ghost enum IdentView {
    Numeric(u64),
    AlphaNumeric(Seq<char>),
}

/// A semantic version as a mathematical value.
pub ghost struct SemVer {
    pub major: u64,
    pub minor: u64,
    pub patch: u64,
    pub pre: Seq<IdentView>,
    pub build: Seq<IdentView>,
}

/// A pre-release or build identifier.
#[derive(Clone, Debug, PartialEq, Eq)]
pub enum Identifier {
    /// An identifier made of digits only.
    Numeric(u64),
    /// An identifier holding letters or hyphens.
    AlphaNumeric(String),
}

impl View for Identifier {
    type V = IdentView;

    open spec fn view(&self) -> IdentView {
        match self {
            Identifier::Numeric(n) => IdentView::Numeric(*n),
            Identifier::AlphaNumeric(s) => IdentView::AlphaNumeric(s@),
        }
    }
}

/// A semantic version: `major.minor.patch[-pre][+build]`.
#[derive(Clone, Debug, PartialEq, Eq)]
pub struct Version {
    pub major: u64,
    pub minor: u64,
    pub patch: u64,
    pub pre: Vec<Identifier>,
    pub build: Vec<Identifier>,
}

pub open spec fn idents_view(s: Seq<Identifier>) -> Seq<IdentView> {
    s.map_values(|i: Identifier| i@)
}

impl View for Version {
    type V = SemVer;

    open spec fn view(&self) -> SemVer {
        SemVer {
            major: self.major,
            minor: self.minor,
            patch: self.patch,
            pre: idents_view(self.pre@),
            build: idents_view(self.build@),
        }
    }
}

/// The level of a version bump.
#[derive(Clone, Copy, Debug, PartialEq, Eq, Structural)]
pub enum Bump {
    Major,
    Minor,
    Patch,
}

pub open spec fn ord_of(a: int, b: int) -> Ordering {
    if a < b {
        Ordering::Less
    } else if a > b {
        Ordering::Greater
    } else {
        Ordering::Equal
    }
}

pub open spec fn reversed(o: Ordering) -> Ordering {
    match o {
        Ordering::Less => Ordering::Greater,
        Ordering::Greater => Ordering::Less,
        Ordering::Equal => Ordering::Equal,
    }
}

/// Lexicographic order of byte strings, a proper prefix coming first.
pub open spec fn bytes_cmp(a: Seq<u8>, b: Seq<u8>) -> Ordering
    decreases a.len(),
{
    if a.len() == 0 {
        if b.len() == 0 {
            Ordering::Equal
        } else {
            Ordering::Less
        }
    } else if b.len() == 0 {
        Ordering::Greater
    } else if a[0] != b[0] {
        ord_of(a[0] as int, b[0] as int)
    } else {
        bytes_cmp(a.drop_first(), b.drop_first())
    }
}

/// Identifier precedence: numeric ones by value and before alphanumeric ones,
/// alphanumeric ones by the bytes of their text.
pub open spec fn ident_cmp(a: IdentView, b: IdentView) -> Ordering {
    match (a, b) {
        (IdentView::Numeric(x), IdentView::Numeric(y)) => ord_of(x as int, y as int),
        (IdentView::Numeric(_), IdentView::AlphaNumeric(_)) => Ordering::Less,
        (IdentView::AlphaNumeric(_), IdentView::Numeric(_)) => Ordering::Greater,
        (IdentView::AlphaNumeric(x), IdentView::AlphaNumeric(y)) => bytes_cmp(
            encode_utf8(x),
            encode_utf8(y),
        ),
    }
}

/// Lexicographic order of identifier lists, a proper prefix coming first.
pub open spec fn idents_cmp(a: Seq<IdentView>, b: Seq<IdentView>) -> Ordering
    decreases a.len(),
{
    if a.len() == 0 {
        if b.len() == 0 {
            Ordering::Equal
        } else {
            Ordering::Less
        }
    } else if b.len() == 0 {
        Ordering::Greater
    } else if ident_cmp(a[0], b[0]) != Ordering::Equal {
        ident_cmp(a[0], b[0])
    } else {
        idents_cmp(a.drop_first(), b.drop_first())
    }
}

/// Pre-release precedence: a version without pre-release identifiers ranks
/// above any with them.
pub open spec fn pre_cmp(a: Seq<IdentView>, b: Seq<IdentView>) -> Ordering {
    if a.len() == 0 && b.len() == 0 {
        Ordering::Equal
    } else if a.len() == 0 {
        Ordering::Greater
    } else if b.len() == 0 {
        Ordering::Less
    } else {
        idents_cmp(a, b)
    }
}

/// Semantic-version precedence: major, minor, patch, then pre-release.
/// Build metadata takes no part.
pub open spec fn version_cmp(a: SemVer, b: SemVer) -> Ordering {
    if a.major != b.major {
        ord_of(a.major as int, b.major as int)
    } else if a.minor != b.minor {
        ord_of(a.minor as int, b.minor as int)
    } else if a.patch != b.patch {
        ord_of(a.patch as int, b.patch as int)
    } else {
        pre_cmp(a.pre, b.pre)
    }
}

pub open spec fn version_le(a: SemVer, b: SemVer) -> bool {
    version_cmp(a, b) != Ordering::Greater
}

pub open spec fn version_lt(a: SemVer, b: SemVer) -> bool {
    version_cmp(a, b) == Ordering::Less
}

/// The version that a bump of the given level makes of `v`; pre-release and
/// build metadata are dropped.
pub open spec fn bump_spec(v: SemVer, level: Bump) -> SemVer {
    match level {
        Bump::Major => SemVer {
            major: (v.major + 1) as u64,
            minor: 0,
            patch: 0,
            pre: Seq::empty(),
            build: Seq::empty(),
        },
        Bump::Minor => SemVer {
            major: v.major,
            minor: (v.minor + 1) as u64,
            patch: 0,
            pre: Seq::empty(),
            build: Seq::empty(),
        },
        Bump::Patch => SemVer {
            major: v.major,
            minor: v.minor,
            patch: (v.patch + 1) as u64,
            pre: Seq::empty(),
            build: Seq::empty(),
        },
    }
}

/// The component that a bump of the given level increments is below its
/// largest value.
pub open spec fn can_bump(v: SemVer, level: Bump) -> bool {
    match level {
        Bump::Major => v.major < u64::MAX,
        Bump::Minor => v.minor < u64::MAX,
        Bump::Patch => v.patch < u64::MAX,
    }
}

// Properties of the orders: each is an antisymmetric, transitive total order
// up to equality of the compared values.

proof fn lemma_bytes_cmp_props(a: Seq<u8>, b: Seq<u8>)
    ensures
        bytes_cmp(b, a) == reversed(bytes_cmp(a, b)),
        bytes_cmp(a, b) == Ordering::Equal ==> a == b,
    decreases a.len(),
{
    if a.len() > 0 && b.len() > 0 && a[0] == b[0] {
        lemma_bytes_cmp_props(a.drop_first(), b.drop_first());
        if bytes_cmp(a, b) == Ordering::Equal {
            assert(a =~= seq![a[0]] + a.drop_first());
            assert(b =~= seq![b[0]] + b.drop_first());
        }
    }
}

proof fn lemma_bytes_cmp_trans(a: Seq<u8>, b: Seq<u8>, c: Seq<u8>)
    requires
        bytes_cmp(a, b) == Ordering::Less,
        bytes_cmp(b, c) == Ordering::Less,
    ensures
        bytes_cmp(a, c) == Ordering::Less,
    decreases a.len(),
{
    if a.len() > 0 && b.len() > 0 && c.len() > 0 && a[0] == b[0] && b[0] == c[0] {
        lemma_bytes_cmp_trans(a.drop_first(), b.drop_first(), c.drop_first());
    }
}

proof fn lemma_ident_cmp_props(a: IdentView, b: IdentView)
    ensures
        ident_cmp(b, a) == reversed(ident_cmp(a, b)),
        ident_cmp(a, b) == Ordering::Equal ==> a == b,
{
    match (a, b) {
        (IdentView::AlphaNumeric(x), IdentView::AlphaNumeric(y)) => {
            lemma_bytes_cmp_props(encode_utf8(x), encode_utf8(y));
            if ident_cmp(a, b) == Ordering::Equal {
                encode_utf8_decode_utf8(x);
                encode_utf8_decode_utf8(y);
            }
        },
        _ => {},
    }
}

proof fn lemma_ident_cmp_trans(a: IdentView, b: IdentView, c: IdentView)
    requires
        ident_cmp(a, b) == Ordering::Less,
        ident_cmp(b, c) == Ordering::Less,
    ensures
        ident_cmp(a, c) == Ordering::Less,
{
    match (a, b, c) {
        (
            IdentView::AlphaNumeric(x),
            IdentView::AlphaNumeric(y),
            IdentView::AlphaNumeric(z),
        ) => {
            lemma_bytes_cmp_trans(encode_utf8(x), encode_utf8(y), encode_utf8(z));
        },
        _ => {},
    }
}

proof fn lemma_idents_cmp_props(a: Seq<IdentView>, b: Seq<IdentView>)
    ensures
        idents_cmp(b, a) == reversed(idents_cmp(a, b)),
        idents_cmp(a, b) == Ordering::Equal ==> a == b,
    decreases a.len(),
{
    if a.len() > 0 && b.len() > 0 {
        lemma_ident_cmp_props(a[0], b[0]);
        if ident_cmp(a[0], b[0]) == Ordering::Equal {
            lemma_idents_cmp_props(a.drop_first(), b.drop_first());
            if idents_cmp(a, b) == Ordering::Equal {
                assert(a =~= seq![a[0]] + a.drop_first());
                assert(b =~= seq![b[0]] + b.drop_first());
            }
        }
    }
}

proof fn lemma_idents_cmp_trans(a: Seq<IdentView>, b: Seq<IdentView>, c: Seq<IdentView>)
    requires
        idents_cmp(a, b) == Ordering::Less,
        idents_cmp(b, c) == Ordering::Less,
    ensures
        idents_cmp(a, c) == Ordering::Less,
    decreases a.len(),
{
    if a.len() > 0 && b.len() > 0 && c.len() > 0 {
        lemma_ident_cmp_props(a[0], b[0]);
        lemma_ident_cmp_props(b[0], c[0]);
        if ident_cmp(a[0], b[0]) == Ordering::Less && ident_cmp(b[0], c[0]) == Ordering::Less {
            lemma_ident_cmp_trans(a[0], b[0], c[0]);
        } else if ident_cmp(a[0], b[0]) == Ordering::Equal && ident_cmp(b[0], c[0])
            == Ordering::Equal {
            lemma_idents_cmp_trans(a.drop_first(), b.drop_first(), c.drop_first());
        }
    }
}

proof fn lemma_pre_cmp_props(a: Seq<IdentView>, b: Seq<IdentView>)
    ensures
        pre_cmp(b, a) == reversed(pre_cmp(a, b)),
        pre_cmp(a, b) == Ordering::Equal ==> a == b,
{
    lemma_idents_cmp_props(a, b);
    if pre_cmp(a, b) == Ordering::Equal && a.len() == 0 {
        assert(a =~= b);
    }
}

proof fn lemma_pre_cmp_trans(a: Seq<IdentView>, b: Seq<IdentView>, c: Seq<IdentView>)
    requires
        pre_cmp(a, b) == Ordering::Less,
        pre_cmp(b, c) == Ordering::Less,
    ensures
        pre_cmp(a, c) == Ordering::Less,
{
    if a.len() > 0 && b.len() > 0 && c.len() > 0 {
        lemma_idents_cmp_trans(a, b, c);
    }
}

/// Precedence is antisymmetric, and versions of equal precedence differ at
/// most in build metadata.
pub proof fn lemma_version_cmp_antisym(a: SemVer, b: SemVer)
    ensures
        version_cmp(b, a) == reversed(version_cmp(a, b)),
        version_cmp(a, b) == Ordering::Equal ==> a.major == b.major && a.minor == b.minor
            && a.patch == b.patch && a.pre == b.pre,
{
    lemma_pre_cmp_props(a.pre, b.pre);
}

/// Precedence is transitive.
pub proof fn lemma_version_le_trans(a: SemVer, b: SemVer, c: SemVer)
    requires
        version_le(a, b),
        version_le(b, c),
    ensures
        version_le(a, c),
        version_lt(a, b) || version_lt(b, c) ==> version_lt(a, c),
{
    lemma_version_cmp_antisym(a, b);
    lemma_version_cmp_antisym(b, c);
    lemma_version_cmp_antisym(a, c);
    if version_lt(a, b) && version_lt(b, c) && a.major == b.major && b.major == c.major
        && a.minor == b.minor && b.minor == c.minor && a.patch == b.patch && b.patch == c.patch {
        lemma_pre_cmp_trans(a.pre, b.pre, c.pre);
    }
}

/// A bump of any level gives a version of strictly higher precedence.
pub proof fn lemma_bump_increases(v: SemVer, level: Bump)
    requires
        can_bump(v, level),
    ensures
        version_lt(v, bump_spec(v, level)),
{
}

/// Any two versions are ordered one way or the other.
pub proof fn lemma_version_le_total(a: SemVer, b: SemVer)
    ensures
        version_le(a, b) || version_le(b, a),
        !version_le(a, b) ==> version_lt(b, a),
{
    lemma_version_cmp_antisym(a, b);
}


fn compare_u64(a: u64, b: u64) -> (r: Ordering)
    ensures
        r == ord_of(a as int, b as int),
{
    if a < b {
        Ordering::Less
    } else if a > b {
        Ordering::Greater
    } else {
        Ordering::Equal
    }
}

fn compare_bytes(a: &[u8], b: &[u8]) -> (r: Ordering)
    ensures
        r == bytes_cmp(a@, b@),
{
    let mut i: usize = 0;
    assert(a@.skip(0) =~= a@);
    assert(b@.skip(0) =~= b@);
    while i < a.len() && i < b.len() && a[i] == b[i]
        invariant
            i <= a@.len(),
            i <= b@.len(),
            bytes_cmp(a@, b@) == bytes_cmp(a@.skip(i as int), b@.skip(i as int)),
        decreases a@.len() - i,
    {
        assert(a@.skip(i as int).drop_first() =~= a@.skip(i + 1));
        assert(b@.skip(i as int).drop_first() =~= b@.skip(i + 1));
        i = i + 1;
    }
    if i == a.len() && i == b.len() {
        Ordering::Equal
    } else if i == a.len() {
        Ordering::Less
    } else if i == b.len() {
        Ordering::Greater
    } else {
        compare_u64(a[i] as u64, b[i] as u64)
    }
}

impl Identifier {
    /// Compares two identifiers by pre-release precedence.
    pub fn precedence(&self, other: &Identifier) -> (r: Ordering)
        ensures
            r == ident_cmp(self@, other@),
    {
        match (self, other) {
            (Identifier::Numeric(x), Identifier::Numeric(y)) => compare_u64(*x, *y),
            (Identifier::Numeric(_), Identifier::AlphaNumeric(_)) => Ordering::Less,
            (Identifier::AlphaNumeric(_), Identifier::Numeric(_)) => Ordering::Greater,
            (Identifier::AlphaNumeric(x), Identifier::AlphaNumeric(y)) => {
                compare_bytes(x.as_str().as_bytes(), y.as_str().as_bytes())
            },
        }
    }
}

fn compare_identifiers(a: &Vec<Identifier>, b: &Vec<Identifier>) -> (r: Ordering)
    ensures
        r == idents_cmp(idents_view(a@), idents_view(b@)),
{
    let ghost va = idents_view(a@);
    let ghost vb = idents_view(b@);
    let mut i: usize = 0;
    assert(va.skip(0) =~= va);
    assert(vb.skip(0) =~= vb);
    while i < a.len() && i < b.len()
        invariant
            i <= a@.len(),
            i <= b@.len(),
            va == idents_view(a@),
            vb == idents_view(b@),
            va.len() == a@.len(),
            vb.len() == b@.len(),
            idents_cmp(va, vb) == idents_cmp(va.skip(i as int), vb.skip(i as int)),
        decreases a@.len() - i,
    {
        let o = a[i].precedence(&b[i]);
        proof {
            let sa = va.skip(i as int);
            let sb = vb.skip(i as int);
            assert(sa[0] == a@[i as int]@);
            assert(sb[0] == b@[i as int]@);
            assert(idents_cmp(sa, sb) == if ident_cmp(sa[0], sb[0]) != Ordering::Equal {
                ident_cmp(sa[0], sb[0])
            } else {
                idents_cmp(sa.drop_first(), sb.drop_first())
            });
        }
        match o {
            Ordering::Equal => {},
            _ => {
                return o;
            },
        }
        assert(va.skip(i as int).drop_first() =~= va.skip(i + 1));
        assert(vb.skip(i as int).drop_first() =~= vb.skip(i + 1));
        i = i + 1;
    }
    if i == a.len() && i == b.len() {
        Ordering::Equal
    } else if i == a.len() {
        Ordering::Less
    } else {
        Ordering::Greater
    }
}

impl Version {
    /// A release version `major.minor.patch`, without pre-release or build
    /// identifiers.
    pub fn new(major: u64, minor: u64, patch: u64) -> (r: Version)
        ensures
            r@ == (SemVer { major, minor, patch, pre: Seq::empty(), build: Seq::empty() }),
    {
        let r = Version { major, minor, patch, pre: Vec::new(), build: Vec::new() };
        assert(r@.pre =~= Seq::empty());
        assert(r@.build =~= Seq::empty());
        r
    }

    /// Compares two versions by semantic-version precedence.
    pub fn precedence(&self, other: &Version) -> (r: Ordering)
        ensures
            r == version_cmp(self@, other@),
    {
        if self.major != other.major {
            compare_u64(self.major, other.major)
        } else if self.minor != other.minor {
            compare_u64(self.minor, other.minor)
        } else if self.patch != other.patch {
            compare_u64(self.patch, other.patch)
        } else if self.pre.len() == 0 && other.pre.len() == 0 {
            Ordering::Equal
        } else if self.pre.len() == 0 {
            Ordering::Greater
        } else if other.pre.len() == 0 {
            Ordering::Less
        } else {
            compare_identifiers(&self.pre, &other.pre)
        }
    }

    /// Whether `self` has lower precedence than `other`.
    pub fn precedes(&self, other: &Version) -> (r: bool)
        ensures
            r == version_lt(self@, other@),
    {
        match self.precedence(other) {
            Ordering::Less => true,
            _ => false,
        }
    }

    /// Whether the component that `level` increments can still grow.
    pub fn can_bump(&self, level: Bump) -> (r: bool)
        ensures
            r == can_bump(self@, level),
    {
        match level {
            Bump::Major => self.major < u64::MAX,
            Bump::Minor => self.minor < u64::MAX,
            Bump::Patch => self.patch < u64::MAX,
        }
    }

    /// The version after a bump of the given level: the chosen component
    /// grows by one, lower components reset to zero, and pre-release and build
    /// identifiers are dropped.
    pub fn bumped(&self, level: Bump) -> (r: Version)
        requires
            can_bump(self@, level),
        ensures
            r@ == bump_spec(self@, level),
            version_lt(self@, r@),
    {
        match level {
            Bump::Major => Version::new(self.major + 1, 0, 0),
            Bump::Minor => Version::new(self.major, self.minor + 1, 0),
            Bump::Patch => Version::new(self.major, self.minor, self.patch + 1),
        }
    }
}

} // verus!
