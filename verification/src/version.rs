use vstd::prelude::*;

use crate::text::{concat, decimal, decimal_string, push_char};

verus! {

/// What `semver::Version::parse` gives for a text: the major, minor and patch numbers, the
/// pre-release and the build metadata as text; or the message of its error.
pub uninterp spec fn semver_parse(text: Seq<char>) -> Result<(u64, u64, u64, Seq<char>, Seq<char>), Seq<char>>;

/// A version whose pre-release and build metadata semver accepts.
pub open spec fn is_version(v: VersionView) -> bool {
    is_prerelease_text(v.pre) && is_build_text(v.build)
}

/// The order of `semver::Prerelease` on two pre-release texts: `-1`, `0` or `1` for less,
/// equal and greater.
pub uninterp spec fn semver_prerelease_order(a: Seq<char>, b: Seq<char>) -> i8;

/// The order of `semver::BuildMetadata` on two build metadata texts: `-1`, `0` or `1` for
/// less, equal and greater.
pub uninterp spec fn semver_build_order(a: Seq<char>, b: Seq<char>) -> i8;

/// A pre-release text that semver accepts: empty, or the pre-release of a version it parsed.
pub open spec fn is_prerelease_text(s: Seq<char>) -> bool {
    s.len() == 0 || exists|t: Seq<char>| #[trigger] semver_parse(t) matches Ok(p) && p.3 == s
}

/// A build metadata text that semver accepts: empty, or the build metadata of a version it parsed.
pub open spec fn is_build_text(s: Seq<char>) -> bool {
    s.len() == 0 || exists|t: Seq<char>| #[trigger] semver_parse(t) matches Ok(p) && p.4 == s
}

/// A semantic version: three numbers, a pre-release and build metadata.
#[derive(Debug, PartialEq, Eq)]
pub struct Version {
    major: u64,
    minor: u64,
    patch: u64,
    pre: String,
    build: String,
}

/// The mathematical value of a [`Version`].
pub struct VersionView {
    pub major: u64,
    pub minor: u64,
    pub patch: u64,
    pub pre: Seq<char>,
    pub build: Seq<char>,
}

impl View for Version {
    type V = VersionView;

    closed spec fn view(&self) -> VersionView {
        VersionView {
            major: self.major,
            minor: self.minor,
            patch: self.patch,
            pre: self.pre@,
            build: self.build@,
        }
    }
}

/// The view of the version that semver parsed into the given parts.
pub open spec fn parts_view(p: (u64, u64, u64, Seq<char>, Seq<char>)) -> VersionView {
    VersionView { major: p.0, minor: p.1, patch: p.2, pre: p.3, build: p.4 }
}

/// How `semver::Version` orders two versions, as `-1`, `0` or `1`: by major, minor and patch
/// number, then by pre-release, then by build metadata (the fields in turn, as its derived
/// `Ord` does).
pub open spec fn version_order(a: VersionView, b: VersionView) -> int {
    if a.major != b.major {
        if a.major < b.major { -1 } else { 1 }
    } else if a.minor != b.minor {
        if a.minor < b.minor { -1 } else { 1 }
    } else if a.patch != b.patch {
        if a.patch < b.patch { -1 } else { 1 }
    } else if semver_prerelease_order(a.pre, b.pre) != 0 {
        semver_prerelease_order(a.pre, b.pre) as int
    } else {
        semver_build_order(a.build, b.build) as int
    }
}

/// The text that semver prints for a version: `major.minor.patch`, then `-pre` and `+build`
/// where they are not empty.
pub open spec fn version_text(v: VersionView) -> Seq<char> {
    decimal(v.major as nat) + seq!['.'] + decimal(v.minor as nat) + seq!['.'] + decimal(
        v.patch as nat,
    ) + (if v.pre.len() > 0 {
        seq!['-'] + v.pre
    } else {
        Seq::empty()
    }) + (if v.build.len() > 0 {
        seq!['+'] + v.build
    } else {
        Seq::empty()
    })
}

/// Parses a version with `semver::Version::parse`.
/// The contract claims that what it returns is what [`semver_parse`] names for the text: on
/// success the three numbers and the texts of the pre-release and the build metadata of the
/// parsed version, on failure the message that semver's error displays.
#[verifier::external_body]
fn semver_parse_text(text: &str) -> (r: Result<Version, String>)
    ensures
        match r {
            Ok(v) => semver_parse(text@) == Ok::<_, Seq<char>>(
                (v@.major, v@.minor, v@.patch, v@.pre, v@.build),
            ),
            Err(e) => semver_parse(text@) == Err::<(u64, u64, u64, Seq<char>, Seq<char>), _>(e@),
        },
{
    match semver::Version::parse(text) {
        Ok(v) => Ok(
            Version {
                major: v.major,
                minor: v.minor,
                patch: v.patch,
                pre: v.pre.as_str().to_string(),
                build: v.build.as_str().to_string(),
            },
        ),
        Err(e) => Err(e.to_string()),
    }
}

/// Compares two pre-release texts with the `Ord` of `semver::Prerelease`, after building each
/// with `semver::Prerelease::new` (which accepts them: they are empty or come from a version
/// that semver parsed, see [`is_prerelease_text`]).
/// The contract claims that the result is what [`semver_prerelease_order`] names, as `-1`, `0`
/// or `1`, and facts that the `Ord` trait asks of every implementation: swapping the
/// arguments reverses the result; it is `Equal` exactly for equal values (for `Prerelease`,
/// whose `Eq` compares the text, equal texts); and the order is transitive, stated for the four
/// ways in which `a` and `b` can stand in a chain with a third accepted text.
#[verifier::external_body]
fn prerelease_order(a: &str, b: &str) -> (r: i8)
    requires
        is_prerelease_text(a@),
        is_prerelease_text(b@),
    ensures
        r == semver_prerelease_order(a@, b@),
        -1 <= r <= 1,
        semver_prerelease_order(b@, a@) == -r,
        (r == 0) == (a@ == b@),
        r < 0 ==> forall|c: Seq<char>|
            #![trigger semver_prerelease_order(b@, c)]
            #![trigger semver_prerelease_order(a@, c)]
            is_prerelease_text(c) && semver_prerelease_order(b@, c) <= 0 ==> semver_prerelease_order(a@, c) < 0,
        r < 0 ==> forall|c: Seq<char>|
            #![trigger semver_prerelease_order(c, a@)]
            #![trigger semver_prerelease_order(c, b@)]
            is_prerelease_text(c) && semver_prerelease_order(c, a@) <= 0 ==> semver_prerelease_order(c, b@) < 0,
        r > 0 ==> forall|c: Seq<char>|
            #![trigger semver_prerelease_order(a@, c)]
            #![trigger semver_prerelease_order(b@, c)]
            is_prerelease_text(c) && semver_prerelease_order(a@, c) <= 0 ==> semver_prerelease_order(b@, c) < 0,
        r > 0 ==> forall|c: Seq<char>|
            #![trigger semver_prerelease_order(c, b@)]
            #![trigger semver_prerelease_order(c, a@)]
            is_prerelease_text(c) && semver_prerelease_order(c, b@) <= 0 ==> semver_prerelease_order(c, a@) < 0,
{
    match (semver::Prerelease::new(a), semver::Prerelease::new(b)) {
        (Ok(x), Ok(y)) => match x.cmp(&y) {
            std::cmp::Ordering::Less => -1,
            std::cmp::Ordering::Equal => 0,
            std::cmp::Ordering::Greater => 1,
        },
        _ => 0,
    }
}

/// Compares two build metadata texts with the `Ord` of `semver::BuildMetadata`, after building
/// each with `semver::BuildMetadata::new` (which accepts them: they are empty or come from a
/// version that semver parsed, see [`is_build_text`]).
/// The contract claims that the result is what [`semver_build_order`] names, as `-1`, `0` or
/// `1`, and facts that the `Ord` trait asks of every implementation: swapping the arguments
/// reverses the result; it is `Equal` exactly for equal values (for `BuildMetadata`, whose
/// `Eq` compares the text, equal texts); and the order is transitive, stated for the four
/// ways in which `a` and `b` can stand in a chain with a third accepted text.
#[verifier::external_body]
fn build_order(a: &str, b: &str) -> (r: i8)
    requires
        is_build_text(a@),
        is_build_text(b@),
    ensures
        r == semver_build_order(a@, b@),
        -1 <= r <= 1,
        semver_build_order(b@, a@) == -r,
        (r == 0) == (a@ == b@),
        r < 0 ==> forall|c: Seq<char>|
            #![trigger semver_build_order(b@, c)]
            #![trigger semver_build_order(a@, c)]
            is_build_text(c) && semver_build_order(b@, c) <= 0 ==> semver_build_order(a@, c) < 0,
        r < 0 ==> forall|c: Seq<char>|
            #![trigger semver_build_order(c, a@)]
            #![trigger semver_build_order(c, b@)]
            is_build_text(c) && semver_build_order(c, a@) <= 0 ==> semver_build_order(c, b@) < 0,
        r > 0 ==> forall|c: Seq<char>|
            #![trigger semver_build_order(a@, c)]
            #![trigger semver_build_order(b@, c)]
            is_build_text(c) && semver_build_order(a@, c) <= 0 ==> semver_build_order(b@, c) < 0,
        r > 0 ==> forall|c: Seq<char>|
            #![trigger semver_build_order(c, b@)]
            #![trigger semver_build_order(c, a@)]
            is_build_text(c) && semver_build_order(c, b@) <= 0 ==> semver_build_order(c, a@) < 0,
{
    match (semver::BuildMetadata::new(a), semver::BuildMetadata::new(b)) {
        (Ok(x), Ok(y)) => match x.cmp(&y) {
            std::cmp::Ordering::Less => -1,
            std::cmp::Ordering::Equal => 0,
            std::cmp::Ordering::Greater => 1,
        },
        _ => 0,
    }
}

impl Version {
    #[verifier::type_invariant]
    spec fn accepted(self) -> bool {
        is_prerelease_text(self.pre@) && is_build_text(self.build@)
    }

    /// The version `major.minor.patch`, with no pre-release and no build metadata.
    pub fn new(major: u64, minor: u64, patch: u64) -> (r: Version)
        ensures
            r@ == (VersionView { major, minor, patch, pre: Seq::empty(), build: Seq::empty() }),
    {
        Version { major, minor, patch, pre: String::new(), build: String::new() }
    }

    /// Parses a semantic version.
    pub fn parse(text: &str) -> (r: Result<Version, String>)
        ensures
            match semver_parse(text@) {
                Ok(p) => r matches Ok(v) && v@ == parts_view(p),
                Err(e) => r matches Err(m) && m@ == e,
            },
    {
        semver_parse_text(text)
    }

    /// The major version number.
    pub fn major(&self) -> (r: u64)
        ensures
            r == self@.major,
    {
        self.major
    }

    /// The minor version number.
    pub fn minor(&self) -> (r: u64)
        ensures
            r == self@.minor,
    {
        self.minor
    }

    /// The patch number.
    pub fn patch(&self) -> (r: u64)
        ensures
            r == self@.patch,
    {
        self.patch
    }

    /// The pre-release, empty where there is none.
    pub fn pre(&self) -> (r: &str)
        ensures
            r@ == self@.pre,
    {
        self.pre.as_str()
    }

    /// The build metadata, empty where there is none.
    pub fn build(&self) -> (r: &str)
        ensures
            r@ == self@.build,
    {
        self.build.as_str()
    }

    /// Where `self` stands against `other` in semver's order: `-1`, `0` or `1` for older,
    /// the same and newer. The order is total: swapping the versions reverses it, it is `0`
    /// only for equal versions, and it is transitive.
    pub fn order(&self, other: &Version) -> (r: i8)
        ensures
            r == version_order(self@, other@),
            version_order(other@, self@) == -r,
            (r == 0) == (self@ == other@),
            is_version(self@),
            is_version(other@),
            r < 0 ==> forall|c: VersionView|
                #![trigger version_order(other@, c)]
                #![trigger version_order(self@, c)]
                is_version(c) && version_order(other@, c) <= 0 ==> version_order(self@, c) < 0,
            r < 0 ==> forall|c: VersionView|
                #![trigger version_order(c, self@)]
                #![trigger version_order(c, other@)]
                is_version(c) && version_order(c, self@) <= 0 ==> version_order(c, other@) < 0,
            r > 0 ==> forall|c: VersionView|
                #![trigger version_order(self@, c)]
                #![trigger version_order(other@, c)]
                is_version(c) && version_order(self@, c) <= 0 ==> version_order(other@, c) < 0,
            r > 0 ==> forall|c: VersionView|
                #![trigger version_order(c, other@)]
                #![trigger version_order(c, self@)]
                is_version(c) && version_order(c, other@) <= 0 ==> version_order(c, self@) < 0,
    {
        proof {
            use_type_invariant(self);
            use_type_invariant(other);
        }
        let ghost a = self@;
        let ghost b = other@;
        if self.major != other.major || self.minor != other.minor || self.patch != other.patch {
            if self.major != other.major {
                if self.major < other.major { -1 } else { 1 }
            } else if self.minor != other.minor {
                if self.minor < other.minor { -1 } else { 1 }
            } else {
                if self.patch < other.patch { -1 } else { 1 }
            }
        } else {
            let p = prerelease_order(self.pre.as_str(), other.pre.as_str());
            if p != 0 {
                proof {
                    lemma_order_by_pre(a, b);
                }
                p
            } else {
                let q = build_order(self.build.as_str(), other.build.as_str());
                proof {
                    lemma_order_by_build(a, b);
                }
                q
            }
        }
    }

    /// The text of the version, as semver prints it.
    pub fn to_string(&self) -> (r: String)
        ensures
            r@ == version_text(self@),
    {
        let mut r = decimal_string(self.major);
        push_char(&mut r, '.');
        r = concat(r.as_str(), decimal_string(self.minor).as_str());
        push_char(&mut r, '.');
        r = concat(r.as_str(), decimal_string(self.patch).as_str());
        let ghost numbers = r@;
        if !self.pre.as_str().is_empty() {
            push_char(&mut r, '-');
            r = concat(r.as_str(), self.pre.as_str());
        }
        if !self.build.as_str().is_empty() {
            push_char(&mut r, '+');
            r = concat(r.as_str(), self.build.as_str());
        }
        proof {
            assert(numbers =~= decimal(self.major as nat) + seq!['.'] + decimal(self.minor as nat)
                + seq!['.'] + decimal(self.patch as nat));
        }
        assert(r@ =~= version_text(self@));
        r
    }
}

impl Clone for Version {
    fn clone(&self) -> (r: Version)
        ensures
            r@ == self@,
            is_version(self@),
    {
        proof {
            use_type_invariant(self);
        }
        Version {
            major: self.major,
            minor: self.minor,
            patch: self.patch,
            pre: self.pre.clone(),
            build: self.build.clone(),
        }
    }
}

/// Versions equal in their numbers stand as their pre-releases do, where those differ; the
/// transitivity of the order of pre-releases carries over.
proof fn lemma_order_by_pre(a: VersionView, b: VersionView)
    requires
        is_version(a),
        is_version(b),
        a.major == b.major && a.minor == b.minor && a.patch == b.patch,
        semver_prerelease_order(a.pre, b.pre) != 0,
        semver_prerelease_order(b.pre, a.pre) == -semver_prerelease_order(a.pre, b.pre),
        semver_prerelease_order(a.pre, b.pre) < 0 ==> forall|c: Seq<char>|
            #![trigger semver_prerelease_order(b.pre, c)]
            #![trigger semver_prerelease_order(a.pre, c)]
            is_prerelease_text(c) && semver_prerelease_order(b.pre, c) <= 0
                ==> semver_prerelease_order(a.pre, c) < 0,
        semver_prerelease_order(a.pre, b.pre) < 0 ==> forall|c: Seq<char>|
            #![trigger semver_prerelease_order(c, a.pre)]
            #![trigger semver_prerelease_order(c, b.pre)]
            is_prerelease_text(c) && semver_prerelease_order(c, a.pre) <= 0
                ==> semver_prerelease_order(c, b.pre) < 0,
        semver_prerelease_order(a.pre, b.pre) > 0 ==> forall|c: Seq<char>|
            #![trigger semver_prerelease_order(a.pre, c)]
            #![trigger semver_prerelease_order(b.pre, c)]
            is_prerelease_text(c) && semver_prerelease_order(a.pre, c) <= 0
                ==> semver_prerelease_order(b.pre, c) < 0,
        semver_prerelease_order(a.pre, b.pre) > 0 ==> forall|c: Seq<char>|
            #![trigger semver_prerelease_order(c, b.pre)]
            #![trigger semver_prerelease_order(c, a.pre)]
            is_prerelease_text(c) && semver_prerelease_order(c, b.pre) <= 0
                ==> semver_prerelease_order(c, a.pre) < 0,
    ensures
        version_order(a, b) < 0 ==> forall|c: VersionView|
            #![trigger version_order(b, c)]
            #![trigger version_order(a, c)]
            is_version(c) && version_order(b, c) <= 0 ==> version_order(a, c) < 0,
        version_order(a, b) < 0 ==> forall|c: VersionView|
            #![trigger version_order(c, a)]
            #![trigger version_order(c, b)]
            is_version(c) && version_order(c, a) <= 0 ==> version_order(c, b) < 0,
        version_order(a, b) > 0 ==> forall|c: VersionView|
            #![trigger version_order(a, c)]
            #![trigger version_order(b, c)]
            is_version(c) && version_order(a, c) <= 0 ==> version_order(b, c) < 0,
        version_order(a, b) > 0 ==> forall|c: VersionView|
            #![trigger version_order(c, b)]
            #![trigger version_order(c, a)]
            is_version(c) && version_order(c, b) <= 0 ==> version_order(c, a) < 0,
{
}

/// Versions equal in their numbers and pre-release stand as their build metadata do; the
/// transitivity of the order of build metadata carries over.
proof fn lemma_order_by_build(a: VersionView, b: VersionView)
    requires
        is_version(a),
        is_version(b),
        a.major == b.major && a.minor == b.minor && a.patch == b.patch,
        a.pre == b.pre,
        semver_prerelease_order(a.pre, b.pre) == 0,
        semver_build_order(b.build, a.build) == -semver_build_order(a.build, b.build),
        semver_build_order(a.build, b.build) < 0 ==> forall|c: Seq<char>|
            #![trigger semver_build_order(b.build, c)]
            #![trigger semver_build_order(a.build, c)]
            is_build_text(c) && semver_build_order(b.build, c) <= 0
                ==> semver_build_order(a.build, c) < 0,
        semver_build_order(a.build, b.build) < 0 ==> forall|c: Seq<char>|
            #![trigger semver_build_order(c, a.build)]
            #![trigger semver_build_order(c, b.build)]
            is_build_text(c) && semver_build_order(c, a.build) <= 0
                ==> semver_build_order(c, b.build) < 0,
        semver_build_order(a.build, b.build) > 0 ==> forall|c: Seq<char>|
            #![trigger semver_build_order(a.build, c)]
            #![trigger semver_build_order(b.build, c)]
            is_build_text(c) && semver_build_order(a.build, c) <= 0
                ==> semver_build_order(b.build, c) < 0,
        semver_build_order(a.build, b.build) > 0 ==> forall|c: Seq<char>|
            #![trigger semver_build_order(c, b.build)]
            #![trigger semver_build_order(c, a.build)]
            is_build_text(c) && semver_build_order(c, b.build) <= 0
                ==> semver_build_order(c, a.build) < 0,
    ensures
        version_order(a, b) < 0 ==> forall|c: VersionView|
            #![trigger version_order(b, c)]
            #![trigger version_order(a, c)]
            is_version(c) && version_order(b, c) <= 0 ==> version_order(a, c) < 0,
        version_order(a, b) < 0 ==> forall|c: VersionView|
            #![trigger version_order(c, a)]
            #![trigger version_order(c, b)]
            is_version(c) && version_order(c, a) <= 0 ==> version_order(c, b) < 0,
        version_order(a, b) > 0 ==> forall|c: VersionView|
            #![trigger version_order(a, c)]
            #![trigger version_order(b, c)]
            is_version(c) && version_order(a, c) <= 0 ==> version_order(b, c) < 0,
        version_order(a, b) > 0 ==> forall|c: VersionView|
            #![trigger version_order(c, b)]
            #![trigger version_order(c, a)]
            is_version(c) && version_order(c, b) <= 0 ==> version_order(c, a) < 0,
{
}

} // verus!
