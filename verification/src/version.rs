//! Versions, parsed and compared by the `semver` crate.

use vstd::prelude::*;

use crate::text::{append_decimal, decimal, same};

verus! {

/// The parts of a version.
pub struct VersionView {
    /// First number.
    pub major: nat,
    /// Second number.
    pub minor: nat,
    /// Third number.
    pub patch: nat,
    /// Prerelease identifiers, empty for a release.
    pub pre: Seq<char>,
    /// Build metadata, often empty.
    pub build: Seq<char>,
}

/// What `semver::Version::parse` makes of a text.
pub uninterp spec fn semver_parsed(text: Seq<char>) -> Option<VersionView>;

/// Whether `semver` orders the first prerelease and build metadata after the
/// second, for two versions with the same three numbers of which both or
/// neither are prereleases.
pub uninterp spec fn semver_tail_newer(
    pre: Seq<char>,
    build: Seq<char>,
    other_pre: Seq<char>,
    other_build: Seq<char>,
) -> bool;

/// Whether two versions have the same three numbers, and both or neither are
/// prereleases.
pub open spec fn tied(left: VersionView, right: VersionView) -> bool {
    &&& left.major == right.major
    &&& left.minor == right.minor
    &&& left.patch == right.patch
    &&& (left.pre.len() == 0) == (right.pre.len() == 0)
}

/// Whether `left` is newer than `right`: the three numbers decide from left to
/// right, and of two versions with the same numbers a release is newer than a
/// prerelease.
pub open spec fn newer(left: VersionView, right: VersionView) -> bool {
    if left.major != right.major {
        left.major > right.major
    } else if left.minor != right.minor {
        left.minor > right.minor
    } else if left.patch != right.patch {
        left.patch > right.patch
    } else if (left.pre.len() == 0) != (right.pre.len() == 0) {
        left.pre.len() == 0
    } else {
        semver_tail_newer(left.pre, left.build, right.pre, right.build)
    }
}

/// The text of a version.
pub open spec fn version_text(v: VersionView) -> Seq<char> {
    decimal(v.major) + "."@ + decimal(v.minor) + "."@ + decimal(v.patch) + (if v.pre.len() == 0 {
        Seq::empty()
    } else {
        "-"@ + v.pre
    }) + (if v.build.len() == 0 {
        Seq::empty()
    } else {
        "+"@ + v.build
    })
}

/// Whether `v` is a version: its text parses to it.
pub open spec fn is_semver(v: VersionView) -> bool {
    semver_parsed(version_text(v)) == Some(v)
}

/// A version as `semver` understands it.
#[derive(Debug, PartialEq, Eq)]
pub struct Version {
    major: u64,
    minor: u64,
    patch: u64,
    pre: String,
    build: String,
}

impl View for Version {
    type V = VersionView;

    closed spec fn view(&self) -> VersionView {
        VersionView {
            major: self.major as nat,
            minor: self.minor as nat,
            patch: self.patch as nat,
            pre: self.pre@,
            build: self.build@,
        }
    }
}

/// `semver::Version::parse`: the parts of a version, if the text is one. The
/// result is named; a text that is a version is written exactly as the version
/// is displayed.
#[verifier::external_body]
fn semver_parse(text: &str) -> (r: Option<(u64, u64, u64, String, String)>)
    ensures
        semver_parsed(text@) == (match r {
            Some(v) => Some(
                VersionView {
                    major: v.0 as nat,
                    minor: v.1 as nat,
                    patch: v.2 as nat,
                    pre: v.3@,
                    build: v.4@,
                },
            ),
            None => None,
        }),
        r is Some ==> text@ == version_text(semver_parsed(text@)->0),
{
    let v = semver::Version::parse(text).ok()?;
    Some((v.major, v.minor, v.patch, v.pre.to_string(), v.build.to_string()))
}

/// The order of `semver::Version` (`>`): the numbers decide first, a release is
/// newer than a prerelease with the same numbers, and the rest is named. The
/// order is asymmetric and transitive.
#[verifier::external_body]
fn semver_newer(left: &Version, right: &Version) -> (r: bool)
    requires
        is_semver(left@),
        is_semver(right@),
    ensures
        !tied(left@, right@) ==> r == newer(left@, right@),
        tied(left@, right@) ==> r == semver_tail_newer(
            left@.pre,
            left@.build,
            right@.pre,
            right@.build,
        ),
        r ==> !newer(right@, left@),
        r ==> forall|other: VersionView|
            is_semver(other) && #[trigger] newer(other, left@) ==> newer(other, right@),
{
    let whole = |v: &Version| semver::Version {
        major: v.major,
        minor: v.minor,
        patch: v.patch,
        pre: semver::Prerelease::new(&v.pre).unwrap(),
        build: semver::BuildMetadata::new(&v.build).unwrap(),
    };
    whole(left) > whole(right)
}

impl Version {
    #[verifier::type_invariant]
    spec fn well_formed(self) -> bool {
        is_semver(self@)
    }

    /// The version that `text` stands for.
    pub fn parse(text: &str) -> (r: Option<Version>)
        ensures
            (match r {
                Some(v) => Some(v@),
                None => None,
            }) == semver_parsed(text@),
            r matches Some(v) ==> text@ == version_text(v@) && is_semver(v@),
    {
        match semver_parse(text) {
            Some((major, minor, patch, pre, build)) => {
                let ghost view = VersionView {
                    major: major as nat,
                    minor: minor as nat,
                    patch: patch as nat,
                    pre: pre@,
                    build: build@,
                };
                assert(is_semver(view));
                Some(Version { major, minor, patch, pre, build })
            },
            None => None,
        }
    }

    /// Whether this version is newer than `other`.
    pub fn is_newer_than(&self, other: &Version) -> (r: bool)
        ensures
            r == newer(self@, other@),
            r ==> !newer(other@, self@),
            r ==> forall|third: VersionView|
                is_semver(third) && #[trigger] newer(third, self@) ==> newer(third, other@),
    {
        proof {
            use_type_invariant(self);
            use_type_invariant(other);
        }
        semver_newer(self, other)
    }

    /// Whether this is a prerelease.
    pub fn is_prerelease(&self) -> (r: bool)
        ensures
            r == (self@.pre.len() > 0),
    {
        !self.pre.as_str().is_empty()
    }

    /// Whether both versions have the same parts.
    pub fn same_as(&self, other: &Version) -> (r: bool)
        ensures
            r == (self@ == other@),
    {
        self.major == other.major && self.minor == other.minor && self.patch == other.patch && same(
            self.pre.as_str(),
            other.pre.as_str(),
        ) && same(self.build.as_str(), other.build.as_str())
    }

    /// The text of this version, which parses to it again.
    pub fn text(&self) -> (r: String)
        ensures
            r@ == version_text(self@),
            semver_parsed(r@) == Some(self@),
    {
        proof {
            use_type_invariant(self);
        }
        let mut out = String::new();
        append_decimal(&mut out, self.major);
        assert(out@ =~= decimal(self.major as nat));
        out.append(".");
        append_decimal(&mut out, self.minor);
        out.append(".");
        append_decimal(&mut out, self.patch);
        let ghost numbers = out@;
        if !self.pre.as_str().is_empty() {
            out.append("-");
            out.append(self.pre.as_str());
        }
        let ghost before_build = out@;
        assert(before_build =~= numbers + (if self@.pre.len() == 0 {
            Seq::empty()
        } else {
            "-"@ + self@.pre
        }));
        if !self.build.as_str().is_empty() {
            out.append("+");
            out.append(self.build.as_str());
        }
        assert(out@ =~= before_build + (if self@.build.len() == 0 {
            Seq::empty()
        } else {
            "+"@ + self@.build
        }));
        out
    }
}

impl Clone for Version {
    fn clone(&self) -> (r: Self)
        ensures
            r@ == self@,
    {
        proof {
            use_type_invariant(self);
        }
        Version {
            major: self.major,
            minor: self.minor,
            patch: self.patch,
            pre: self.pre.clone(),
            build: self.build.clone(),
        }
    }
}

} // verus!
