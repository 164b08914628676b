use vstd::prelude::*;

verus! {

/// A semantic version. The engine compares versions with pre-release and
/// build metadata already stripped, so only the three numbers are kept.
#[derive(Clone, Copy, Debug, PartialEq, Eq, Structural)]
pub struct Version {
    pub major: u64,
    pub minor: u64,
    pub patch: u64,
}

impl Version {
    /// The same version with patch cleared: the platform ignores patch
    /// numbers when it decides whether a policy is compatible.
    pub fn sanitized(&self) -> (r: Version)
        ensures
            r == (Version { major: self.major, minor: self.minor, patch: 0u64 }),
    {
        Version { major: self.major, minor: self.minor, patch: 0 }
    }
}

/// `a` precedes `b` when both are compared on (major, minor) alone.
pub open spec fn lt_major_minor(a: Version, b: Version) -> bool {
    a.major < b.major || (a.major == b.major && a.minor < b.minor)
}

/// The running platform satisfies a minimum-version demand exactly when the
/// demand's (major, minor) does not exceed the running (major, minor).
pub open spec fn satisfies_minimum(running: Version, minimum: Version) -> bool {
    !lt_major_minor(running, minimum)
}

/// Compare two versions on (major, minor) alone.
pub fn version_lt_major_minor(a: &Version, b: &Version) -> (r: bool)
    ensures
        r == lt_major_minor(*a, *b),
{
    a.major < b.major || (a.major == b.major && a.minor < b.minor)
}

} // verus!
