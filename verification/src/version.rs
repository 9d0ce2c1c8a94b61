//! The version model: "unreleased" or a concrete semantic version, with a
//! total order used to list releases newest first.
use vstd::prelude::*;

verus! {

/// A parsed semantic version: the numeric triple plus the raw pre-release and
/// build metadata identifiers, kept as bytes.
#[derive(Clone, Debug, PartialEq, Eq)]
pub struct Semver {
    pub major: u64,
    pub minor: u64,
    pub patch: u64,
    pub pre: Vec<u8>,
    pub build: Vec<u8>,
}

#[verifier::ext_equal]
pub ghost struct SemverV {
    pub major: u64,
    pub minor: u64,
    pub patch: u64,
    pub pre: Seq<u8>,
    pub build: Seq<u8>,
}

impl View for Semver {
    type V = SemverV;

    open spec fn view(&self) -> SemverV {
        SemverV {
            major: self.major,
            minor: self.minor,
            patch: self.patch,
            pre: self.pre@,
            build: self.build@,
        }
    }
}

/// A release name: either the pending "unreleased" block or a concrete version.
#[derive(Clone, Debug, PartialEq, Eq)]
pub enum Version {
    Unreleased,
    Semantic(Semver),
}

#[verifier::ext_equal]
pub ghost enum VersionV {
    Unreleased,
    Semantic(SemverV),
}

impl View for Version {
    type V = VersionV;

    open spec fn view(&self) -> VersionV {
        match self {
            Version::Unreleased => VersionV::Unreleased,
            Version::Semantic(s) => VersionV::Semantic(s@),
        }
    }
}

/// Strict lexicographic order on byte sequences: a shorter sequence sorts
/// before any of its extensions.
pub open spec fn lex_lt(a: Seq<u8>, b: Seq<u8>) -> bool
    decreases a.len(),
{
    if b.len() == 0 {
        false
    } else if a.len() == 0 {
        true
    } else if a[0] < b[0] {
        true
    } else if a[0] > b[0] {
        false
    } else {
        lex_lt(a.skip(1), b.skip(1))
    }
}

/// Strict order on semantic versions: the numeric triple decides first; on a
/// tie a version without pre-release identifiers ranks above one with them,
/// and remaining ties fall back to byte order of the raw identifiers.
pub open spec fn semver_lt(a: SemverV, b: SemverV) -> bool {
    if a.major != b.major {
        a.major < b.major
    } else if a.minor != b.minor {
        a.minor < b.minor
    } else if a.patch != b.patch {
        a.patch < b.patch
    } else if (a.pre.len() == 0) != (b.pre.len() == 0) {
        b.pre.len() == 0
    } else if a.pre != b.pre {
        lex_lt(a.pre, b.pre)
    } else {
        lex_lt(a.build, b.build)
    }
}

/// Strict order on release names: `Unreleased` ranks above every semantic
/// version, so it is listed topmost in the newest-first display order.
pub open spec fn version_lt(a: VersionV, b: VersionV) -> bool {
    match (a, b) {
        (VersionV::Unreleased, _) => false,
        (VersionV::Semantic(_), VersionV::Unreleased) => true,
        (VersionV::Semantic(x), VersionV::Semantic(y)) => semver_lt(x, y),
    }
}

/// Byte-for-byte equality of two slices.
pub fn bytes_eq(a: &[u8], b: &[u8]) -> (r: bool)
    ensures
        r == (a@ == b@),
{
    if a.len() != b.len() {
        assert(a@.len() != b@.len());
        return false;
    }
    let mut i: usize = 0;
    while i < a.len()
        invariant
            a@.len() == b@.len(),
            i <= a@.len(),
            forall|j: int| 0 <= j < i ==> a@[j] == b@[j],
        decreases a@.len() - i,
    {
        if a[i] != b[i] {
            return false;
        }
        i += 1;
    }
    proof {
        assert(a@ =~= b@);
    }
    true
}

/// Decides the strict lexicographic byte order.
pub fn lex_lt_bytes(a: &[u8], b: &[u8]) -> (r: bool)
    ensures
        r == lex_lt(a@, b@),
{
    let mut i: usize = 0;
    proof {
        assert(a@.skip(0) =~= a@);
        assert(b@.skip(0) =~= b@);
    }
    loop
        invariant
            i <= a@.len(),
            i <= b@.len(),
            lex_lt(a@, b@) == lex_lt(a@.skip(i as int), b@.skip(i as int)),
        decreases a@.len() - i,
    {
        if i >= b.len() {
            assert(b@.skip(i as int).len() == 0);
            return false;
        }
        if i >= a.len() {
            assert(a@.skip(i as int).len() == 0);
            return true;
        }
        let x = a[i];
        let y = b[i];
        assert(a@.skip(i as int)[0] == a@[i as int]);
        assert(b@.skip(i as int)[0] == b@[i as int]);
        if x < y {
            return true;
        }
        if x > y {
            return false;
        }
        proof {
            assert(a@.skip(i as int).skip(1) =~= a@.skip(i as int + 1));
            assert(b@.skip(i as int).skip(1) =~= b@.skip(i as int + 1));
        }
        i += 1;
    }
}

/// Decides the strict order on semantic versions.
pub fn semver_lt_exec(a: &Semver, b: &Semver) -> (r: bool)
    ensures
        r == semver_lt(a@, b@),
{
    if a.major != b.major {
        return a.major < b.major;
    }
    if a.minor != b.minor {
        return a.minor < b.minor;
    }
    if a.patch != b.patch {
        return a.patch < b.patch;
    }
    let a_release = a.pre.len() == 0;
    let b_release = b.pre.len() == 0;
    if a_release != b_release {
        return b_release;
    }
    if !bytes_eq(a.pre.as_slice(), b.pre.as_slice()) {
        return lex_lt_bytes(a.pre.as_slice(), b.pre.as_slice());
    }
    lex_lt_bytes(a.build.as_slice(), b.build.as_slice())
}

/// Structural equality of release names.
pub fn version_eq(a: &Version, b: &Version) -> (r: bool)
    ensures
        r == (a@ == b@),
{
    match (a, b) {
        (Version::Unreleased, Version::Unreleased) => true,
        (Version::Semantic(x), Version::Semantic(y)) => {
            let r = x.major == y.major && x.minor == y.minor && x.patch == y.patch && bytes_eq(
                x.pre.as_slice(),
                y.pre.as_slice(),
            ) && bytes_eq(x.build.as_slice(), y.build.as_slice());
            proof {
                if r {
                    assert(x@ =~= y@);
                }
            }
            r
        },
        _ => false,
    }
}

/// Decides the strict order on release names.
pub fn version_lt_exec(a: &Version, b: &Version) -> (r: bool)
    ensures
        r == version_lt(a@, b@),
{
    match (a, b) {
        (Version::Unreleased, _) => false,
        (Version::Semantic(_), Version::Unreleased) => true,
        (Version::Semantic(x), Version::Semantic(y)) => semver_lt_exec(x, y),
    }
}

/// The meaning of an optional parsed version, for contracts.
pub open spec fn opt_semver_view(r: Option<Semver>) -> Option<SemverV> {
    match r {
        Some(v) => Some(v@),
        None => None,
    }
}

/// What `semver::Version::parse` returns on a given token: `Some` exactly for
/// a well-formed SemVer version, `None` otherwise. The result is a function
/// of the token text alone.
pub uninterp spec fn semver_of(token: Seq<u8>) -> Option<SemverV>;

/// Relies on `semver::Version::parse`: it accepts exactly the SemVer grammar
/// (`major.minor.patch` with optional pre-release and build identifiers) and
/// its result depends on the token text alone. A token that is not UTF-8 is
/// never a version.
#[verifier::external_body]
pub(crate) fn parse_semver(token: &[u8]) -> (r: Option<Semver>)
    ensures
        opt_semver_view(r) == semver_of(token@),
{
    let s = match std::str::from_utf8(token) {
        Ok(s) => s,
        Err(_) => return None,
    };
    match semver::Version::parse(s) {
        Ok(v) => Some(Semver {
            major: v.major,
            minor: v.minor,
            patch: v.patch,
            pre: v.pre.as_str().as_bytes().to_vec(),
            build: v.build.as_str().as_bytes().to_vec(),
        }),
        Err(_) => None,
    }
}

} // verus!
