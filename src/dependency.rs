//! Dependency resolution against the run's manifest of available
//! dependencies, and the manifest's `name=version` entries.
use vstd::prelude::*;

use crate::text::{chars_of, digits_of, owned, string_of, sub_chars, text_eq, trim_text, trimmed, unsigned_text};

verus! {

/// What `semver::Version::parse` makes of a text: `None` when it refuses it,
/// otherwise the major, minor and patch numbers and the pre-release and build
/// texts. It depends on the text alone.
pub uninterp spec fn semver_parse(s: Seq<char>) -> Option<(u64, u64, u64, Seq<char>, Seq<char>)>;

/// Whether `semver::Prerelease::new` accepts the text.
pub uninterp spec fn semver_pre_accepts(s: Seq<char>) -> bool;

/// Whether `semver::VersionReq::parse` accepts the text.
pub uninterp spec fn semver_req_accepts(s: Seq<char>) -> bool;

/// Whether the requirement `req`, as `semver::VersionReq::parse` reads it,
/// matches the version with these numbers and pre-release text, as
/// `semver::VersionReq::matches` decides (build metadata plays no part).
pub uninterp spec fn semver_matches(req: Seq<char>, major: u64, minor: u64, patch: u64, pre: Seq<char>) -> bool;

/// A semantic version: major, minor and patch numbers, pre-release and build
/// texts (empty when absent).
pub struct SemVersion {
    pub major: u64,
    pub minor: u64,
    pub patch: u64,
    pub pre: String,
    pub build: String,
}

/// `v` holds the parts `t` that `semver_parse` gives.
pub open spec fn holds_parts(v: SemVersion, t: (u64, u64, u64, Seq<char>, Seq<char>)) -> bool {
    &&& v.major == t.0
    &&& v.minor == t.1
    &&& v.patch == t.2
    &&& v.pre@ == t.3
    &&& v.build@ == t.4
}

/// The text of a version: `major.minor.patch`, then `-pre` and `+build` when
/// present.
pub open spec fn version_text(v: SemVersion) -> Seq<char> {
    digits_of(v.major as nat) + "."@ + digits_of(v.minor as nat) + "."@ + digits_of(v.patch as nat)
        + (if v.pre@.len() > 0 {
        "-"@ + v.pre@
    } else {
        Seq::empty()
    }) + (if v.build@.len() > 0 {
        "+"@ + v.build@
    } else {
        Seq::empty()
    })
}

impl SemVersion {
    /// The two versions have the same parts.
    pub open spec fn same(&self, o: SemVersion) -> bool {
        &&& self.major == o.major
        &&& self.minor == o.minor
        &&& self.patch == o.patch
        &&& self.pre@ == o.pre@
        &&& self.build@ == o.build@
    }

    /// Version 0.0.0.
    pub fn zero() -> (r: SemVersion)
        ensures
            r.major == 0 && r.minor == 0 && r.patch == 0,
            r.pre@.len() == 0 && r.build@.len() == 0,
    {
        SemVersion { major: 0, minor: 0, patch: 0, pre: String::new(), build: String::new() }
    }

    /// A copy of the version.
    pub fn copy(&self) -> (r: SemVersion)
        ensures
            r.same(*self),
    {
        SemVersion {
            major: self.major,
            minor: self.minor,
            patch: self.patch,
            pre: self.pre.clone(),
            build: self.build.clone(),
        }
    }

    /// The version's text, as `semver` displays it.
    pub fn text(&self) -> (r: String)
        ensures
            r@ == version_text(*self),
    {
        let mut r = unsigned_text(self.major);
        r.append(".");
        r.append(unsigned_text(self.minor).as_str());
        r.append(".");
        r.append(unsigned_text(self.patch).as_str());
        if self.pre.as_str().unicode_len() > 0 {
            r.append("-");
            r.append(self.pre.as_str());
        }
        if self.build.as_str().unicode_len() > 0 {
            r.append("+");
            r.append(self.build.as_str());
        }
        r
    }
}

/// Relies on `semver::Version::parse`, whose parts are read back through the
/// public fields and `as_str` of its pre-release and build parts. The
/// pre-release part is read by the same routine as in `Prerelease::new`,
/// which therefore accepts its text.
#[verifier::external_body]
fn parse_version(s: &str) -> (r: Option<SemVersion>)
    ensures
        match semver_parse(s@) {
            None => r is None,
            Some(t) => r matches Some(v) && holds_parts(v, t),
        },
        r matches Some(v) ==> semver_pre_accepts(v.pre@),
{
    match semver::Version::parse(s) {
        Ok(v) => Some(SemVersion {
            major: v.major,
            minor: v.minor,
            patch: v.patch,
            pre: v.pre.as_str().to_string(),
            build: v.build.as_str().to_string(),
        }),
        Err(_) => None,
    }
}

/// Why `requirement_matches` could not compare.
enum MatchRefusal {
    Requirement,
    Prerelease,
}

/// Relies on `semver::VersionReq::matches`, with the requirement read by
/// `semver::VersionReq::parse` and the pre-release part by
/// `semver::Prerelease::new`; build metadata does not take part in matching.
#[verifier::external_body]
fn requirement_matches(req: &str, v: &SemVersion) -> (r: Result<bool, MatchRefusal>)
    ensures
        match r {
            Ok(b) => semver_req_accepts(req@) && semver_pre_accepts(v.pre@) && b == semver_matches(
                req@,
                v.major,
                v.minor,
                v.patch,
                v.pre@,
            ),
            Err(MatchRefusal::Requirement) => !semver_req_accepts(req@),
            Err(MatchRefusal::Prerelease) => semver_req_accepts(req@) && !semver_pre_accepts(v.pre@),
        },
{
    let q = match semver::VersionReq::parse(req) {
        Ok(q) => q,
        Err(_) => return Err(MatchRefusal::Requirement),
    };
    let pre = match semver::Prerelease::new(v.pre.as_str()) {
        Ok(p) => p,
        Err(_) => return Err(MatchRefusal::Prerelease),
    };
    let build = semver::BuildMetadata::EMPTY;
    Ok(q.matches(&semver::Version { major: v.major, minor: v.minor, patch: v.patch, pre, build }))
}

/// A dependency that the manifest declares available.
pub struct DependencySpec {
    pub name: String,
    pub version: SemVersion,
}

/// The outcome of a `dependency()` lookup.
pub struct DependencyValue {
    pub name: String,
    pub found: bool,
    pub version: SemVersion,
}

/// Why a manifest entry was refused.
pub enum ManifestError {
    /// The entry does not hold exactly one `=`.
    InvalidFormat(String),
    /// The name or the version is empty.
    EmptyField(String),
    /// The version is not a semantic version.
    InvalidVersion(String),
}

/// Why a dependency operation failed.
pub enum DependencyError {
    /// A required dependency is not in the manifest.
    Missing(String),
    /// A version requirement could not be parsed.
    InvalidRequirement(String),
    /// A version's pre-release text is not one.
    InvalidPrerelease(String),
}

/// The number of times `c` occurs in `s`.
pub open spec fn count_char(s: Seq<char>, c: char) -> nat
    decreases s.len(),
{
    if s.len() == 0 {
        0
    } else {
        count_char(s.drop_last(), c) + if s.last() == c {
            1nat
        } else {
            0nat
        }
    }
}

/// The index of the first `=` in `s`, or its length.
pub open spec fn eq_index(s: Seq<char>) -> int
    decreases s.len(),
{
    if s.len() == 0 {
        0
    } else if count_char(s.drop_last(), '=') > 0 {
        eq_index(s.drop_last())
    } else if s.last() == '=' {
        s.len() - 1
    } else {
        s.len() as int
    }
}

/// The name part of an entry: before the `=`, trimmed.
pub open spec fn entry_name(s: Seq<char>) -> Seq<char> {
    trimmed(s.subrange(0, eq_index(s)))
}

/// The version part of an entry: after the `=`, trimmed.
pub open spec fn entry_version(s: Seq<char>) -> Seq<char> {
    trimmed(s.subrange(eq_index(s) + 1, s.len() as int))
}

/// An entry `name=version` is accepted: one `=`, a name and a version that
/// are not empty once trimmed, and a version that is a semantic version.
pub open spec fn entry_accepted(s: Seq<char>) -> bool {
    &&& count_char(s, '=') == 1
    &&& entry_name(s).len() > 0
    &&& entry_version(s).len() > 0
    &&& semver_parse(entry_version(s)) is Some
}

proof fn lemma_eq_index(s: Seq<char>)
    ensures
        count_char(s, '=') > 0 ==> 0 <= eq_index(s) < s.len() && s[eq_index(s)] == '=',
        count_char(s, '=') == 0 ==> eq_index(s) == s.len(),
    decreases s.len(),
{
    if s.len() > 0 {
        lemma_eq_index(s.drop_last());
    }
}

/// Parses a manifest entry `name=version`.
pub fn parse_manifest_entry(s: &str) -> (r: Result<DependencySpec, ManifestError>)
    ensures
        count_char(s@, '=') != 1 ==> (r matches Err(ManifestError::InvalidFormat(x)) && x@ == s@),
        count_char(s@, '=') == 1 && (entry_name(s@).len() == 0 || entry_version(s@).len() == 0)
            ==> (r matches Err(ManifestError::EmptyField(x)) && x@ == s@),
        count_char(s@, '=') == 1 && entry_name(s@).len() > 0 && entry_version(s@).len() > 0
            && semver_parse(entry_version(s@)) is None ==> (r matches Err(
            ManifestError::InvalidVersion(x),
        ) && x@ == entry_version(s@)),
        entry_accepted(s@) ==> (r matches Ok(d) && d.name@ == entry_name(s@) && holds_parts(
            d.version,
            semver_parse(entry_version(s@))->Some_0,
        )),
{
    let v = chars_of(s);
    let mut count: usize = 0;
    let mut first: usize = v.len();
    let mut i: usize = 0;
    while i < v.len()
        invariant
            i <= v.len(),
            v@ == s@,
            count == count_char(v@.take(i as int), '='),
            count <= i,
            first == if count == 0 {
                v.len() as int
            } else {
                eq_index(v@.take(i as int))
            },
        decreases v.len() - i,
    {
        assert(v@.take(i + 1).drop_last() =~= v@.take(i as int));
        if v[i] == '=' {
            if count == 0 {
                first = i;
            }
            count = count + 1;
        }
        proof {
            lemma_eq_index(v@.take(i as int));
        }
        i = i + 1;
    }
    assert(v@.take(v.len() as int) =~= v@);
    if count != 1 {
        return Err(ManifestError::InvalidFormat(owned(s)));
    }
    proof {
        lemma_eq_index(v@);
    }
    let before = string_of(&sub_chars(&v, 0, first));
    let after = string_of(&sub_chars(&v, first + 1, v.len()));
    let name = trim_text(before.as_str());
    let version = trim_text(after.as_str());
    if name.as_str().unicode_len() == 0 || version.as_str().unicode_len() == 0 {
        return Err(ManifestError::EmptyField(owned(s)));
    }
    match parse_version(version.as_str()) {
        None => Err(ManifestError::InvalidVersion(version)),
        Some(parsed) => Ok(DependencySpec { name, version: parsed }),
    }
}

/// The position of the last manifest entry named `name`, or -1 when none is;
/// a later entry overrides an earlier one.
pub open spec fn last_named(m: Seq<DependencySpec>, name: Seq<char>) -> int
    decreases m.len(),
{
    if m.len() == 0 {
        -1
    } else if m.last().name@ == name {
        m.len() - 1
    } else {
        last_named(m.drop_last(), name)
    }
}

/// Looks `name` up in the manifest. A dependency that is there is found
/// with its version; one that is not is refused with `Missing` when
/// `required`, and otherwise comes back not found, with version 0.0.0.
pub fn dependency(manifest: &Vec<DependencySpec>, name: &str, required: bool) -> (r: Result<DependencyValue, DependencyError>)
    ensures
        last_named(manifest@, name@) >= 0 ==> (r matches Ok(d) && d.name@ == name@ && d.found
            && d.version.same(manifest@[last_named(manifest@, name@)].version)),
        last_named(manifest@, name@) < 0 && required ==> (r matches Err(DependencyError::Missing(n))
            && n@ == name@),
        last_named(manifest@, name@) < 0 && !required ==> (r matches Ok(d) && d.name@ == name@
            && !d.found && d.version.major == 0 && d.version.minor == 0 && d.version.patch == 0
            && d.version.pre@.len() == 0 && d.version.build@.len() == 0),
{
    let mut i: usize = manifest.len();
    assert(manifest@.take(i as int) =~= manifest@);
    while i > 0
        invariant
            i <= manifest.len(),
            last_named(manifest@, name@) == last_named(manifest@.take(i as int), name@),
        decreases i,
    {
        assert(manifest@.take(i as int).drop_last() =~= manifest@.take(i - 1));
        if text_eq(manifest[i - 1].name.as_str(), name) {
            return Ok(
                DependencyValue {
                    name: owned(name),
                    found: true,
                    version: manifest[i - 1].version.copy(),
                },
            );
        }
        i = i - 1;
    }
    assert(manifest@.take(0).len() == 0);
    if required {
        Err(DependencyError::Missing(owned(name)))
    } else {
        Ok(DependencyValue { name: owned(name), found: false, version: SemVersion::zero() })
    }
}

/// The names the manifest declares, in order, for reporting what is
/// available when a dependency is not found.
pub fn manifest_names(manifest: &Vec<DependencySpec>) -> (r: Vec<String>)
    ensures
        r@.len() == manifest@.len(),
        forall|i: int| 0 <= i < manifest@.len() ==> r@[i]@ == manifest@[i].name@,
{
    let mut r: Vec<String> = Vec::new();
    let mut i: usize = 0;
    while i < manifest.len()
        invariant
            i <= manifest.len(),
            r@.len() == i,
            forall|j: int| 0 <= j < i ==> r@[j]@ == manifest@[j].name@,
        decreases manifest.len() - i,
    {
        r.push(manifest[i].name.clone());
        i = i + 1;
    }
    r
}

impl DependencyValue {
    /// Whether the dependency was found.
    pub fn found(&self) -> (r: bool)
        ensures
            r == self.found,
    {
        self.found
    }
}

/// Whether `version` satisfies the requirement `req`, such as `>=0.4.0`. A
/// requirement that does not parse is refused, and so is a version whose
/// pre-release text is not one.
pub fn version_compare(version: &SemVersion, req: &str) -> (r: Result<bool, DependencyError>)
    ensures
        semver_req_accepts(req@) && semver_pre_accepts(version.pre@) ==> r == Ok::<
            bool,
            DependencyError,
        >(semver_matches(req@, version.major, version.minor, version.patch, version.pre@)),
        !semver_req_accepts(req@) ==> (r matches Err(DependencyError::InvalidRequirement(x)) && x@
            == req@),
        semver_req_accepts(req@) && !semver_pre_accepts(version.pre@) ==> (r matches Err(
            DependencyError::InvalidPrerelease(x),
        ) && x@ == version.pre@),
{
    match requirement_matches(req, version) {
        Ok(b) => Ok(b),
        Err(MatchRefusal::Requirement) => Err(DependencyError::InvalidRequirement(owned(req))),
        Err(MatchRefusal::Prerelease) => Err(DependencyError::InvalidPrerelease(version.pre.clone())),
    }
}

} // verus!
