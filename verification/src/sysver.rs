//! Operating-system version detection: parsing the kernel release string
//! and the feature gates that depend on it.
//!
//! A release string looks like `15.0-RELEASE`, `16.0-CURRENT`,
//! `14.2-STABLE`, `15.0-RC2` or `15.0-RELEASE-p1`.  The caller obtains
//! the string from the kernel and hands it in; everything after that is
//! decided here.

use vstd::prelude::*;
use vstd::string::*;
use crate::errors::Error;
use crate::text::{all_digits, dec_value, spec_split};

verus! {

/// The release branch of a version.
#[derive(Clone, Copy, Debug, PartialEq, Eq, Structural)]
pub enum ReleaseType {
    /// The development branch.
    Current,
    /// A maintenance branch.
    Stable,
    /// An official release.
    Release,
    /// A release candidate with its number.
    Rc(u8),
}

impl ReleaseType {
    /// The textual label of the branch, as it appears in a version
    /// string.
    pub fn label(&self) -> (r: String)
        ensures
            r@ == self.spec_label(),
    {
        match self {
            ReleaseType::Current => String::from_str("CURRENT"),
            ReleaseType::Stable => String::from_str("STABLE"),
            ReleaseType::Release => String::from_str("RELEASE"),
            ReleaseType::Rc(n) => {
                let mut s = String::from_str("RC");
                crate::text::push_dec(&mut s, *n as u64);
                s
            }
        }
    }
}

/// The expected branch label for a parsed release type.
pub open spec fn spec_type_of(part: Seq<char>) -> Option<ReleaseType> {
    if part == "CURRENT"@ {
        Some(ReleaseType::Current)
    } else if part == "STABLE"@ {
        Some(ReleaseType::Stable)
    } else if part == "RELEASE"@ {
        Some(ReleaseType::Release)
    } else if "RC"@.is_prefix_of(part) {
        let num = part.skip(2);
        if num.len() > 0 && all_digits(num) && dec_value(num) <= 255 {
            Some(ReleaseType::Rc(dec_value(num) as u8))
        } else {
            Some(ReleaseType::Rc(1))
        }
    } else {
        None
    }
}

/// Whether a version string parses: at least two dash-separated parts,
/// the first two dot-separated decimal numbers fitting a byte, the
/// second a known branch label.
pub open spec fn spec_version_ok(s: Seq<char>) -> bool {
    let parts = spec_split(s, '-');
    let nums = spec_split(parts[0], '.');
    &&& parts.len() >= 2
    &&& nums.len() == 2
    &&& nums[0].len() > 0 && all_digits(nums[0]) && dec_value(nums[0]) <= 255
    &&& nums[1].len() > 0 && all_digits(nums[1]) && dec_value(nums[1]) <= 255
    &&& spec_type_of(parts[1]) is Some
}

/// The patch level of a parsed version string: the third part when it
/// starts with `p` followed by a decimal number fitting a byte.
pub open spec fn spec_patch_of(s: Seq<char>) -> Option<u8> {
    let parts = spec_split(s, '-');
    if parts.len() > 2 && parts[2].len() > 0 && parts[2][0] == 'p' {
        let num = parts[2].skip(1);
        if num.len() > 0 && all_digits(num) && dec_value(num) <= 255 {
            Some(dec_value(num) as u8)
        } else {
            None
        }
    } else {
        None
    }
}

/// An operating-system version.
#[derive(Clone, Copy, Debug, PartialEq, Eq, Structural)]
pub struct OsVersion {
    /// Major version number.
    pub major: u8,
    /// Minor version number.
    pub minor: u8,
    /// Patch level, from a `-pN` suffix.
    pub patch: Option<u8>,
    /// The release branch.
    pub release_type: ReleaseType,
}

impl OsVersion {
    /// Parse a kernel release string.  Succeeds exactly when the string
    /// has the recognised shape, and then every field is pinned by it.
    pub fn parse(s: &str) -> (r: Result<OsVersion, Error>)
        ensures
            r is Ok <==> spec_version_ok(s@),
            r matches Ok(v) ==> {
                let parts = spec_split(s@, '-');
                let nums = spec_split(parts[0], '.');
                &&& v.major == dec_value(nums[0])
                &&& v.minor == dec_value(nums[1])
                &&& Some(v.release_type) == spec_type_of(parts[1])
                &&& v.patch == spec_patch_of(s@)
            },
    {
        proof {
            reveal_strlit("CURRENT");
            reveal_strlit("STABLE");
            reveal_strlit("RELEASE");
            reveal_strlit("RC");
            assert("CURRENT"@.len() == 7);
            assert("STABLE"@.len() == 6);
            assert("RELEASE"@.len() == 7);
            assert("CURRENT"@[0] != "STABLE"@[0]);
            assert("CURRENT"@[0] != "RC"@[0]);
            assert("STABLE"@[0] != "RC"@[0]);
            assert("RELEASE"@[1] != "RC"@[1]);
            assert("CURRENT"@[1] != "RELEASE"@[1]);
        }
        let parts = crate::text::split_char(s, '-');
        proof {
            let sp = spec_split(s@, '-');
            assert forall|i: int| 0 <= i < parts@.len() implies (#[trigger] parts@[i])@
                == sp[i] by {
                assert(parts@.map_values(|t: String| t@)[i] == sp[i]);
            }
        }
        if parts.len() < 2 {
            return Err(Error::InvalidVersion(String::from_str(
                "version string needs a dash-separated branch")));
        }
        let nums = crate::text::split_char(parts[0].as_str(), '.');
        proof {
            let np = spec_split(spec_split(s@, '-')[0], '.');
            assert forall|i: int| 0 <= i < nums@.len() implies (#[trigger] nums@[i])@
                == np[i] by {
                assert(nums@.map_values(|t: String| t@)[i] == np[i]);
            }
        }
        if nums.len() != 2 {
            return Err(Error::InvalidVersion(String::from_str(
                "version number must be MAJOR.MINOR")));
        }
        let major = match crate::text::parse_u8(nums[0].as_str()) {
            Some(v) => v,
            None => {
                return Err(Error::InvalidVersion(String::from_str("invalid major version")));
            }
        };
        let minor = match crate::text::parse_u8(nums[1].as_str()) {
            Some(v) => v,
            None => {
                return Err(Error::InvalidVersion(String::from_str("invalid minor version")));
            }
        };
        let tpart = parts[1].as_str();
        let release_type: ReleaseType;
        if crate::text::str_eq(tpart, "CURRENT") {
            release_type = ReleaseType::Current;
        } else if crate::text::str_eq(tpart, "STABLE") {
            release_type = ReleaseType::Stable;
        } else if crate::text::str_eq(tpart, "RELEASE") {
            release_type = ReleaseType::Release;
        } else if crate::text::str_starts_with(tpart, "RC") {
            let digits = tpart.substring_char(2, tpart.unicode_len());
            proof {
                assert(digits@ =~= spec_split(s@, '-')[1].skip(2));
            }
            let num = match crate::text::parse_u8(digits) {
                Some(v) => v,
                None => 1,
            };
            release_type = ReleaseType::Rc(num);
        } else {
            return Err(Error::InvalidVersion(String::from_str("unknown release type")));
        }
        let patch: Option<u8> = if parts.len() > 2 {
            let ppart = parts[2].as_str();
            if ppart.unicode_len() > 0 && ppart.get_char(0) == 'p' {
                let digits = ppart.substring_char(1, ppart.unicode_len());
                proof {
                    assert(digits@ =~= spec_split(s@, '-')[2].skip(1));
                }
                crate::text::parse_u8(digits)
            } else {
                None
            }
        } else {
            None
        };
        Ok(OsVersion { major, minor, patch, release_type })
    }

    /// Whether the kernel supports VLAN filtering on bridges.
    pub fn supports_vlan_filtering(&self) -> (r: bool)
        ensures
            r == (self.major >= 15),
    {
        self.major >= 15
    }

    /// Whether the kernel supports service jails.
    pub fn supports_service_jails(&self) -> (r: bool)
        ensures
            r == (self.major >= 15),
    {
        self.major >= 15
    }

    /// Whether the kernel supports attaching ZFS datasets to jails.
    pub fn supports_zfs_dataset(&self) -> (r: bool)
        ensures
            r == (self.major >= 15),
    {
        self.major >= 15
    }

    /// Whether the system requires package-based base installation.
    pub fn requires_pkgbase(&self) -> (r: bool)
        ensures
            r == (self.major >= 16),
    {
        self.major >= 16
    }

    /// The version rendered back to its string form.
    pub open spec fn spec_version_string(self) -> Seq<char> {
        crate::text::dec_digits(self.major as nat) + seq!['.'] + crate::text::dec_digits(
            self.minor as nat) + seq!['-'] + self.release_type.spec_label() + (
        match self.patch {
            Some(p) => "-p"@ + crate::text::dec_digits(p as nat),
            None => Seq::<char>::empty(),
        })
    }

    /// The version rendered back to its string form.
    pub fn version_string(&self) -> (r: String)
        ensures
            r@ == self.spec_version_string(),
    {
        let mut s = crate::text::u64_to_string(self.major as u64);
        s.append(".");
        crate::text::push_dec(&mut s, self.minor as u64);
        s.append("-");
        let label = self.release_type.label();
        s.append(label.as_str());
        match self.patch {
            Some(p) => {
                s.append("-p");
                crate::text::push_dec(&mut s, p as u64);
            }
            None => {}
        }
        proof {
            reveal_strlit(".");
            reveal_strlit("-");
            reveal_strlit("-p");
            assert(s@ =~= self.spec_version_string());
        }
        s
    }
}

impl ReleaseType {
    /// The branch label as a character sequence (release candidates keep
    /// their number).
    pub open spec fn spec_label(self) -> Seq<char> {
        match self {
            ReleaseType::Current => "CURRENT"@,
            ReleaseType::Stable => "STABLE"@,
            ReleaseType::Release => "RELEASE"@,
            ReleaseType::Rc(n) => "RC"@ + crate::text::dec_digits(n as nat),
        }
    }
}

} // verus!
