//! Semantic versions of the launcher and its components: `major.minor.patch`.

use crate::text::{
    chars_of, decimal, lemma_decimal_roundtrip, parse_unsigned, push_decimal, spec_parse_unsigned, split,
    split_chars, string_push, views,
};
use std::cmp::Ordering;
use vstd::prelude::*;
use vstd::std_specs::cmp::PartialOrdSpecImpl;

verus! {

/// A version number.
#[derive(Debug, Clone, Copy, PartialEq, Eq, Structural, Ord, Hash)]
pub struct Version {
    pub major: usize,
    pub minor: usize,
    pub patch: usize,
}

/// The version that the text writes: three unsigned decimal numbers
/// separated by dots, nothing more.
pub open spec fn spec_parse_version(s: Seq<char>) -> Result<Version, ()> {
    let parts = split(s, '.');
    if parts.len() != 3 {
        Err(())
    } else {
        match (
            spec_parse_unsigned(parts[0], usize::MAX as nat),
            spec_parse_unsigned(parts[1], usize::MAX as nat),
            spec_parse_unsigned(parts[2], usize::MAX as nat),
        ) {
            (Some(a), Some(b), Some(c)) => Ok(Version { major: a as usize, minor: b as usize, patch: c as usize }),
            _ => Err(()),
        }
    }
}

/// The text of a version: `major.minor.patch` in decimal.
pub open spec fn spec_version_text(v: Version) -> Seq<char> {
    decimal(v.major as nat) + seq!['.'] + decimal(v.minor as nat) + seq!['.'] + decimal(v.patch as nat)
}

impl Version {
    /// The version that the text writes, or `Err(())`.
    pub fn parse_str(s: &str) -> (r: Result<Version, ()>)
        ensures
            r == spec_parse_version(s@),
    {
        let cs = chars_of(s);
        let parts = split_chars(cs.as_slice(), '.');
        proof {
            assert(views(parts@).len() == parts@.len());
        }
        if parts.len() != 3 {
            return Err(());
        }
        proof {
            assert(views(parts@)[0] == parts@[0]@);
            assert(views(parts@)[1] == parts@[1]@);
            assert(views(parts@)[2] == parts@[2]@);
        }
        let max = usize::MAX as u64;
        let a = parse_unsigned(parts[0].as_slice(), max);
        let b = parse_unsigned(parts[1].as_slice(), max);
        let c = parse_unsigned(parts[2].as_slice(), max);
        match (a, b, c) {
            (Some(a), Some(b), Some(c)) => Ok(Version { major: a as usize, minor: b as usize, patch: c as usize }),
            _ => Err(()),
        }
    }

    /// The version `major.minor.patch`.
    pub fn from_tuple(v: (usize, usize, usize)) -> (r: Version)
        ensures
            r == (Version { major: v.0, minor: v.1, patch: v.2 }),
    {
        Version { major: v.0, minor: v.1, patch: v.2 }
    }

    /// The version of the three numbers, major first.
    pub fn from_array(v: [usize; 3]) -> (r: Version)
        ensures
            r == (Version { major: v@[0], minor: v@[1], patch: v@[2] }),
    {
        Version { major: v[0], minor: v[1], patch: v[2] }
    }

    /// The version 0.0.0.
    pub fn zero() -> (r: Version)
        ensures
            r == (Version { major: 0, minor: 0, patch: 0 }),
    {
        Version { major: 0, minor: 0, patch: 0 }
    }

    /// The text of the version, `major.minor.patch`.
    pub fn to_string(&self) -> (r: String)
        ensures
            r@ == spec_version_text(*self),
    {
        let mut s = String::new();
        push_decimal(&mut s, self.major as u64);
        string_push(&mut s, '.');
        push_decimal(&mut s, self.minor as u64);
        string_push(&mut s, '.');
        push_decimal(&mut s, self.patch as u64);
        assert(s@ =~= spec_version_text(*self));
        s
    }
}

impl From<(usize, usize, usize)> for Version {
    fn from(v: (usize, usize, usize)) -> (r: Version) {
        Version::from_tuple(v)
    }
}

impl vstd::std_specs::convert::FromSpecImpl<(usize, usize, usize)> for Version {
    open spec fn obeys_from_spec() -> bool {
        true
    }

    open spec fn from_spec(v: (usize, usize, usize)) -> Version {
        Version { major: v.0, minor: v.1, patch: v.2 }
    }
}

impl From<[usize; 3]> for Version {
    fn from(v: [usize; 3]) -> (r: Version) {
        Version::from_array(v)
    }
}

impl vstd::std_specs::convert::FromSpecImpl<[usize; 3]> for Version {
    open spec fn obeys_from_spec() -> bool {
        true
    }

    open spec fn from_spec(v: [usize; 3]) -> Version {
        Version { major: v@[0], minor: v@[1], patch: v@[2] }
    }
}

impl Default for Version {
    fn default() -> (r: Version)
        ensures
            r == (Version { major: 0, minor: 0, patch: 0 }),
    {
        Version::zero()
    }
}

/// How two versions compare: by major, then minor, then patch number.
pub open spec fn version_order(a: Version, b: Version) -> Ordering {
    if a.major < b.major {
        Ordering::Less
    } else if a.major > b.major {
        Ordering::Greater
    } else if a.minor < b.minor {
        Ordering::Less
    } else if a.minor > b.minor {
        Ordering::Greater
    } else if a.patch < b.patch {
        Ordering::Less
    } else if a.patch > b.patch {
        Ordering::Greater
    } else {
        Ordering::Equal
    }
}

impl PartialOrd for Version {
    fn partial_cmp(&self, other: &Version) -> (r: Option<Ordering>) {
        if self.major < other.major {
            Some(Ordering::Less)
        } else if self.major > other.major {
            Some(Ordering::Greater)
        } else if self.minor < other.minor {
            Some(Ordering::Less)
        } else if self.minor > other.minor {
            Some(Ordering::Greater)
        } else if self.patch < other.patch {
            Some(Ordering::Less)
        } else if self.patch > other.patch {
            Some(Ordering::Greater)
        } else {
            Some(Ordering::Equal)
        }
    }
}

impl PartialOrdSpecImpl for Version {
    open spec fn obeys_partial_cmp_spec() -> bool {
        true
    }

    open spec fn partial_cmp_spec(&self, other: &Version) -> Option<Ordering> {
        Some(version_order(*self, *other))
    }
}

impl std::str::FromStr for Version {
    type Err = ();

    fn from_str(s: &str) -> (r: Result<Version, ()>)
        ensures
            r == spec_parse_version(s@),
    {
        Version::parse_str(s)
    }
}

/// Reading the text of a version gives the version back.
pub proof fn lemma_version_text_roundtrip(v: Version)
    ensures
        spec_parse_version(spec_version_text(v)) == Ok::<Version, ()>(v),
{
    let a = decimal(v.major as nat);
    let b = decimal(v.minor as nat);
    let c = decimal(v.patch as nat);
    lemma_decimal_roundtrip(v.major as nat, usize::MAX as nat);
    lemma_decimal_roundtrip(v.minor as nat, usize::MAX as nat);
    lemma_decimal_roundtrip(v.patch as nat, usize::MAX as nat);
    lemma_no_dot(v.major as nat);
    lemma_no_dot(v.minor as nat);
    lemma_no_dot(v.patch as nat);
    let s = spec_version_text(v);
    crate::text::lemma_split_after(a, b + seq!['.'] + c, '.');
    assert(s =~= a + seq!['.'] + (b + seq!['.'] + c));
    crate::text::lemma_split_after(b, c, '.');
    crate::text::lemma_split_none(c, '.');
    assert(split(s, '.') =~= seq![a, b, c]);
}

/// Decimal digits hold no dot.
proof fn lemma_no_dot(n: nat)
    ensures
        forall|i: int| 0 <= i < decimal(n).len() ==> decimal(n)[i] != '.',
{
    crate::text::lemma_decimal_all_digits(n);
}

} // verus!
