//! Semantic versions: parsing, precedence, and the decision whether a
//! candidate version is an update over the installed one.
//!
//! Parsing and the comparison of pre-release and build identifiers are done
//! by the `semver` crate; the comparison of the numeric components and the
//! fail-closed update decision are verified here.

use vstd::prelude::*;

verus! {

/// A parsed semantic version. `pre` and `build` hold the pre-release and
/// build-metadata identifiers as text (empty when absent).
#[derive(Debug, Clone, PartialEq, Eq)]
pub struct SemVer {
    pub major: u64,
    pub minor: u64,
    pub patch: u64,
    pub pre: String,
    pub build: String,
}

/// Mathematical value of a [`SemVer`].
pub struct SemVerView {
    pub major: u64,
    pub minor: u64,
    pub patch: u64,
    pub pre: Seq<char>,
    pub build: Seq<char>,
}

impl View for SemVer {
    type V = SemVerView;

    open spec fn view(&self) -> SemVerView {
        SemVerView {
            major: self.major,
            minor: self.minor,
            patch: self.patch,
            pre: self.pre@,
            build: self.build@,
        }
    }
}

/// Why a version text was not accepted.
#[derive(Debug, Clone, Copy, PartialEq, Eq, Structural)]
pub enum VersionError {
    /// The running version is not a semantic version.
    InvalidCurrent,
    /// The offered version is not a semantic version.
    InvalidLatest,
}

#[verifier::external_type_specification]
#[verifier::external_body]
pub struct ExSemverError(semver::Error);

/// The version that `semver::Version::parse` reads from `text`, or `None`
/// where it rejects the text.
pub uninterp spec fn semver_parse(text: Seq<char>) -> Option<SemVerView>;

/// The result of `semver::Prerelease::cmp` on two pre-release texts, as -1,
/// 0 or 1; `None` where `semver::Prerelease::new` rejects one of them.
pub uninterp spec fn prerelease_order(a: Seq<char>, b: Seq<char>) -> Option<i8>;

/// The result of `semver::BuildMetadata::cmp` on two build-metadata texts,
/// as -1, 0 or 1; `None` where `semver::BuildMetadata::new` rejects one of
/// them.
pub uninterp spec fn build_order(a: Seq<char>, b: Seq<char>) -> Option<i8>;

/// The opposite outcome of a comparison.
pub open spec fn reversed(o: Option<i8>) -> Option<i8> {
    match o {
        None => None,
        Some(v) => Some(
            if v < 0 {
                1i8
            } else if v > 0 {
                -1i8
            } else {
                0i8
            },
        ),
    }
}

/// Calls `semver::Version::parse`. Trusted: the call succeeds exactly on the
/// texts that [`semver_parse`] accepts, and the components handed back are
/// those of the parsed version.
#[verifier::external_body]
fn parse_with_semver(text: &str) -> (r: Result<SemVer, semver::Error>)
    ensures
        r is Ok == semver_parse(text@) is Some,
        r matches Ok(v) ==> semver_parse(text@) == Some(v@),
{
    let v = semver::Version::parse(text)?;
    Ok(
        SemVer {
            major: v.major,
            minor: v.minor,
            patch: v.patch,
            pre: v.pre.as_str().to_string(),
            build: v.build.as_str().to_string(),
        },
    )
}

/// Calls `semver::Prerelease::cmp` on the two texts. Trusted: the outcome is
/// -1, 0 or 1 and is [`prerelease_order`] of the texts; two empty texts
/// compare equal; an empty text, which stands for a release, compares
/// greater than any pre-release that the crate accepts; and comparing the
/// same texts the other way round gives the opposite outcome, as `Ord`
/// demands of every implementation.
#[verifier::external_body]
fn prerelease_order_of(a: &str, b: &str) -> (r: Option<i8>)
    ensures
        r == prerelease_order(a@, b@),
        r matches Some(o) ==> -1 <= o <= 1,
        a@.len() == 0 && b@.len() == 0 ==> r == Some(0i8),
        a@.len() == 0 && b@.len() > 0 && r is Some ==> r == Some(1i8),
        prerelease_order(b@, a@) == reversed(r),
{
    let x = semver::Prerelease::new(a).ok()?;
    let y = semver::Prerelease::new(b).ok()?;
    Some(
        match x.cmp(&y) {
            std::cmp::Ordering::Less => -1,
            std::cmp::Ordering::Equal => 0,
            std::cmp::Ordering::Greater => 1,
        },
    )
}

/// Calls `semver::BuildMetadata::cmp` on the two texts. Trusted: the outcome
/// is -1, 0 or 1 and is [`build_order`] of the texts; two empty texts compare
/// equal; and comparing the same texts the other way round gives the
/// opposite outcome, as `Ord` demands of every implementation.
#[verifier::external_body]
fn build_order_of(a: &str, b: &str) -> (r: Option<i8>)
    ensures
        r == build_order(a@, b@),
        r matches Some(o) ==> -1 <= o <= 1,
        a@.len() == 0 && b@.len() == 0 ==> r == Some(0i8),
        build_order(b@, a@) == reversed(r),
{
    let x = semver::BuildMetadata::new(a).ok()?;
    let y = semver::BuildMetadata::new(b).ok()?;
    Some(
        match x.cmp(&y) {
            std::cmp::Ordering::Less => -1,
            std::cmp::Ordering::Equal => 0,
            std::cmp::Ordering::Greater => 1,
        },
    )
}

/// Outcome of comparing two numbers: -1, 0 or 1.
pub open spec fn number_order(a: u64, b: u64) -> i8 {
    if a < b {
        -1i8
    } else if a > b {
        1i8
    } else {
        0i8
    }
}

/// Precedence of `a` against `b`: -1 where `a` is the older version, 1 where
/// it is the newer, 0 where they are the same. Major, minor and patch decide
/// in that order; among versions that agree on all three the pre-release
/// identifiers decide, then the build metadata. `None` where an identifier
/// text is not one that the `semver` crate accepts.
pub open spec fn version_order(a: SemVerView, b: SemVerView) -> Option<i8> {
    if a.major != b.major {
        Some(number_order(a.major, b.major))
    } else if a.minor != b.minor {
        Some(number_order(a.minor, b.minor))
    } else if a.patch != b.patch {
        Some(number_order(a.patch, b.patch))
    } else {
        match prerelease_order(a.pre, b.pre) {
            None => None,
            Some(o) => if o != 0 {
                Some(o)
            } else {
                build_order(a.build, b.build)
            },
        }
    }
}

/// `candidate` is strictly newer than `current`.
pub open spec fn is_newer(candidate: SemVerView, current: SemVerView) -> bool {
    version_order(candidate, current) == Some(1i8)
}

/// The update decision on version texts: both texts parse and the candidate
/// is strictly newer. An unknown installed version, or a text that does not
/// parse, never calls for an update.
pub open spec fn update_needed(installed: Option<Seq<char>>, candidate: Seq<char>) -> bool {
    match installed {
        None => false,
        Some(current) => match (semver_parse(current), semver_parse(candidate)) {
            (Some(c), Some(n)) => is_newer(n, c),
            _ => false,
        },
    }
}

/// The update decision for a running version and a release tag, which may
/// carry leading `v`s. An error where one of the two is no semantic version.
pub open spec fn tag_is_update(current: Seq<char>, tag: Seq<char>) -> Result<bool, VersionError> {
    match semver_parse(current) {
        None => Err(VersionError::InvalidCurrent),
        Some(c) => match semver_parse(crate::text::strip_leading(tag, 'v')) {
            None => Err(VersionError::InvalidLatest),
            Some(n) => Ok(is_newer(n, c)),
        },
    }
}

/// `a` and `b` agree in major, minor and patch.
pub open spec fn same_numbers(a: SemVerView, b: SemVerView) -> bool {
    a.major == b.major && a.minor == b.minor && a.patch == b.patch
}

/// `a` comes before `b` by its numbers alone: by major, minor and patch in
/// that order.
pub open spec fn numbers_precede(a: SemVerView, b: SemVerView) -> bool {
    a.major < b.major || (a.major == b.major && (a.minor < b.minor || (a.minor == b.minor
        && a.patch < b.patch)))
}

/// Where two versions differ in major, minor or patch, these numbers decide
/// which is the newer, and exactly one of the two is.
pub proof fn lemma_numbers_decide(a: SemVerView, b: SemVerView)
    requires
        numbers_precede(a, b),
    ensures
        is_newer(b, a),
        !is_newer(a, b),
{
}

/// For versions that differ in their numbers: where the installed
/// version comes before the candidate by major, minor or patch,
/// the candidate is an update over it, and it is no update over the
/// candidate.
pub proof fn lemma_update_follows_numbers(current: Seq<char>, candidate: Seq<char>)
    requires
        semver_parse(current) is Some,
        semver_parse(candidate) is Some,
        numbers_precede(semver_parse(current).unwrap(), semver_parse(candidate).unwrap()),
    ensures
        update_needed(Some(current), candidate),
        !update_needed(Some(candidate), current),
{
    lemma_numbers_decide(semver_parse(current).unwrap(), semver_parse(candidate).unwrap());
}

impl SemVer {
    /// Parses `text` as a semantic version.
    pub fn parse(text: &str) -> (r: Option<SemVer>)
        ensures
            r is Some == semver_parse(text@) is Some,
            r matches Some(v) ==> semver_parse(text@) == Some(v@),
    {
        match parse_with_semver(text) {
            Ok(v) => Some(v),
            Err(_) => None,
        }
    }

    /// Compares `self` with `other` by precedence. The outcome is that of
    /// [`version_order`]. The contract also records that the reverse
    /// comparison has the opposite outcome, that two versions without
    /// pre-release and build identifiers can always be compared, and that a
    /// release is newer than its pre-releases.
    pub fn compare(&self, other: &SemVer) -> (r: Option<i8>)
        ensures
            r == version_order(self@, other@),
            r matches Some(o) ==> -1 <= o <= 1,
            version_order(other@, self@) == reversed(r),
            self@.pre.len() == 0 && other@.pre.len() == 0 && self@.build.len() == 0
                && other@.build.len() == 0 ==> r is Some,
            same_numbers(self@, other@) && self@.pre.len() == 0 && other@.pre.len() > 0
                && r is Some ==> r == Some(1i8),
    {
        if self.major != other.major {
            Some(if self.major < other.major { -1 } else { 1 })
        } else if self.minor != other.minor {
            Some(if self.minor < other.minor { -1 } else { 1 })
        } else if self.patch != other.patch {
            Some(if self.patch < other.patch { -1 } else { 1 })
        } else {
            match prerelease_order_of(self.pre.as_str(), other.pre.as_str()) {
                None => None,
                Some(o) => if o != 0 {
                    Some(o)
                } else {
                    build_order_of(self.build.as_str(), other.build.as_str())
                },
            }
        }
    }

    /// Whether `self` is strictly newer than `other`.
    pub fn newer_than(&self, other: &SemVer) -> (r: bool)
        ensures
            r == is_newer(self@, other@),
            r ==> !is_newer(other@, self@),
    {
        match self.compare(other) {
            Some(o) => o == 1,
            None => false,
        }
    }
}

/// Whether `candidate` is an update over the installed version. Fails closed:
/// `false` where the installed version is unknown or either text is no
/// semantic version. Where the answer is `true`, the same question with the
/// two versions exchanged has the answer `false`.
pub fn needs_update(installed: Option<&str>, candidate: &str) -> (r: bool)
    ensures
        r == update_needed(crate::text::opt_str(installed), candidate@),
        r ==> installed is Some && !update_needed(Some(candidate@), installed.unwrap()@),
{
    match installed {
        None => false,
        Some(current) => match (SemVer::parse(current), SemVer::parse(candidate)) {
            (Some(c), Some(n)) => n.newer_than(&c),
            _ => false,
        },
    }
}

/// Whether the release tagged `tag` is newer than the running version
/// `current`. Leading `v`s of the tag are not part of its version.
pub fn tag_needs_update(current: &str, tag: &str) -> (r: Result<bool, VersionError>)
    ensures
        r == tag_is_update(current@, tag@),
{
    let c = match parse_with_semver(current) {
        Ok(v) => v,
        Err(_) => {
            return Err(VersionError::InvalidCurrent);
        },
    };
    let bare = crate::text::trim_leading(tag, 'v');
    let n = match parse_with_semver(bare.as_str()) {
        Ok(v) => v,
        Err(_) => {
            return Err(VersionError::InvalidLatest);
        },
    };
    Ok(n.newer_than(&c))
}

} // verus!
