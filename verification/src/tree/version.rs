//! Class file versions and their order.
use vstd::prelude::*;
use core::cmp::Ordering;

verus! {

/// Represents a class file version, ordered by major then minor version.
#[derive(Debug, Clone, Copy, PartialEq, Eq, Structural, Ord)]
pub struct Version {
    pub major: u16,
    pub minor: u16,
}

/// Whether version `a` comes strictly before version `b`.
pub open spec fn version_lt(a: Version, b: Version) -> bool {
    a.major < b.major || (a.major == b.major && a.minor < b.minor)
}

impl Version {
    /// The class file version `45.3`.
    #[allow(non_snake_case)]
    pub fn V1_1() -> (r: Version)
        ensures
            r.major == 45 && r.minor == 3,
    {
        Version { major: 45, minor: 3 }
    }
    /// The class file version `46.0`.
    #[allow(non_snake_case)]
    pub fn V1_2() -> (r: Version)
        ensures
            r.major == 46 && r.minor == 0,
    {
        Version { major: 46, minor: 0 }
    }
    /// The class file version `47.0`.
    #[allow(non_snake_case)]
    pub fn V1_3() -> (r: Version)
        ensures
            r.major == 47 && r.minor == 0,
    {
        Version { major: 47, minor: 0 }
    }
    /// The class file version `48.0`.
    #[allow(non_snake_case)]
    pub fn V1_4() -> (r: Version)
        ensures
            r.major == 48 && r.minor == 0,
    {
        Version { major: 48, minor: 0 }
    }
    /// The class file version `49.0`.
    #[allow(non_snake_case)]
    pub fn V1_5() -> (r: Version)
        ensures
            r.major == 49 && r.minor == 0,
    {
        Version { major: 49, minor: 0 }
    }
    /// The class file version `50.0`.
    #[allow(non_snake_case)]
    pub fn V1_6() -> (r: Version)
        ensures
            r.major == 50 && r.minor == 0,
    {
        Version { major: 50, minor: 0 }
    }
    /// The class file version `51.0`.
    #[allow(non_snake_case)]
    pub fn V1_7() -> (r: Version)
        ensures
            r.major == 51 && r.minor == 0,
    {
        Version { major: 51, minor: 0 }
    }
    /// The class file version `52.0`.
    #[allow(non_snake_case)]
    pub fn V1_8() -> (r: Version)
        ensures
            r.major == 52 && r.minor == 0,
    {
        Version { major: 52, minor: 0 }
    }
    /// The class file version `53.0`.
    #[allow(non_snake_case)]
    pub fn V9() -> (r: Version)
        ensures
            r.major == 53 && r.minor == 0,
    {
        Version { major: 53, minor: 0 }
    }
    /// The class file version `54.0`.
    #[allow(non_snake_case)]
    pub fn V10() -> (r: Version)
        ensures
            r.major == 54 && r.minor == 0,
    {
        Version { major: 54, minor: 0 }
    }
    /// The class file version `55.0`.
    #[allow(non_snake_case)]
    pub fn V11() -> (r: Version)
        ensures
            r.major == 55 && r.minor == 0,
    {
        Version { major: 55, minor: 0 }
    }
    /// The class file version `56.0`.
    #[allow(non_snake_case)]
    pub fn V12() -> (r: Version)
        ensures
            r.major == 56 && r.minor == 0,
    {
        Version { major: 56, minor: 0 }
    }
    /// The class file version `57.0`.
    #[allow(non_snake_case)]
    pub fn V13() -> (r: Version)
        ensures
            r.major == 57 && r.minor == 0,
    {
        Version { major: 57, minor: 0 }
    }
    /// The class file version `58.0`.
    #[allow(non_snake_case)]
    pub fn V14() -> (r: Version)
        ensures
            r.major == 58 && r.minor == 0,
    {
        Version { major: 58, minor: 0 }
    }
    /// The class file version `59.0`.
    #[allow(non_snake_case)]
    pub fn V15() -> (r: Version)
        ensures
            r.major == 59 && r.minor == 0,
    {
        Version { major: 59, minor: 0 }
    }
    /// The class file version `60.0`.
    #[allow(non_snake_case)]
    pub fn V16() -> (r: Version)
        ensures
            r.major == 60 && r.minor == 0,
    {
        Version { major: 60, minor: 0 }
    }
    /// The class file version `61.0`.
    #[allow(non_snake_case)]
    pub fn V17() -> (r: Version)
        ensures
            r.major == 61 && r.minor == 0,
    {
        Version { major: 61, minor: 0 }
    }
    /// The class file version `62.0`.
    #[allow(non_snake_case)]
    pub fn V18() -> (r: Version)
        ensures
            r.major == 62 && r.minor == 0,
    {
        Version { major: 62, minor: 0 }
    }
    /// The class file version `63.0`.
    #[allow(non_snake_case)]
    pub fn V19() -> (r: Version)
        ensures
            r.major == 63 && r.minor == 0,
    {
        Version { major: 63, minor: 0 }
    }
    /// The class file version `64.0`.
    #[allow(non_snake_case)]
    pub fn V20() -> (r: Version)
        ensures
            r.major == 64 && r.minor == 0,
    {
        Version { major: 64, minor: 0 }
    }
    /// The class file version `65.0`.
    #[allow(non_snake_case)]
    pub fn V21() -> (r: Version)
        ensures
            r.major == 65 && r.minor == 0,
    {
        Version { major: 65, minor: 0 }
    }
    /// The class file version `66.0`.
    #[allow(non_snake_case)]
    pub fn V22() -> (r: Version)
        ensures
            r.major == 66 && r.minor == 0,
    {
        Version { major: 66, minor: 0 }
    }
    /// The class file version `67.0`.
    #[allow(non_snake_case)]
    pub fn V23() -> (r: Version)
        ensures
            r.major == 67 && r.minor == 0,
    {
        Version { major: 67, minor: 0 }
    }

    /// Creates a version from its major and minor numbers.
    pub fn new(major: u16, minor: u16) -> (r: Version)
        ensures
            r.major == major,
            r.minor == minor,
    {
        Version { major, minor }
    }
}

impl PartialOrd for Version {
    fn partial_cmp(&self, other: &Self) -> (r: Option<Ordering>) {
        if self.major < other.major {
            Some(Ordering::Less)
        } else if self.major > other.major {
            Some(Ordering::Greater)
        } else if self.minor < other.minor {
            Some(Ordering::Less)
        } else if self.minor > other.minor {
            Some(Ordering::Greater)
        } else {
            Some(Ordering::Equal)
        }
    }
}

impl vstd::std_specs::cmp::PartialOrdSpecImpl for Version {
    open spec fn obeys_partial_cmp_spec() -> bool {
        true
    }

    open spec fn partial_cmp_spec(&self, other: &Self) -> Option<Ordering> {
        if version_lt(*self, *other) {
            Some(Ordering::Less)
        } else if version_lt(*other, *self) {
            Some(Ordering::Greater)
        } else {
            Some(Ordering::Equal)
        }
    }
}

/// The version order is a strict total order: irreflexive, transitive, and
/// any two different versions are ordered one way or the other.
pub proof fn lemma_version_order(a: Version, b: Version, c: Version)
    ensures
        !version_lt(a, a),
        version_lt(a, b) && version_lt(b, c) ==> version_lt(a, c),
        a != b ==> version_lt(a, b) || version_lt(b, a),
        !(version_lt(a, b) && version_lt(b, a)),
{
}

} // verus!
