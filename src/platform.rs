//! Operating-system platforms that some packages are restricted to.
use vstd::prelude::*;
use crate::strset::{insert_str, strs};

verus! {

pub const WINDOWS: u32 = 1;
pub const MACOS: u32 = 2;
pub const LINUX: u32 = 4;

/// A set of operating systems, one bit each.
#[derive(PartialEq, Eq, Structural, Clone, Copy, Debug)]
pub struct Platform {
    pub bits: u32,
}

/// The platform set holds all the bits of `flag`.
pub open spec fn has_flag(p: Platform, flag: u32) -> bool {
    p.bits & flag == flag
}

/// The platform constraints of `p`, as Buck2 labels.
pub open spec fn buck_platforms(p: Platform) -> Set<Seq<char>> {
    Set::new(
        |s: Seq<char>|
            (has_flag(p, WINDOWS) && s == "prelude//os:windows"@) || (has_flag(p, MACOS) && s
                == "prelude//os:macos"@) || (has_flag(p, LINUX) && s == "prelude//os:linux"@),
    )
}

/// The platforms that the packages known to need one are restricted to.
pub open spec fn platforms_of(name: Seq<char>) -> Option<Platform> {
    if name == "hyper-named-pipe"@ || name == "windows-future"@ || name == "windows"@ || name
        == "winreg"@ {
        Some(Platform { bits: WINDOWS })
    } else if name == "system-configuration"@ {
        Some(Platform { bits: MACOS })
    } else {
        None
    }
}

impl Platform {
    /// Whether every bit of `flag` is set.
    pub fn contains(self, flag: u32) -> (r: bool)
        ensures
            r == has_flag(self, flag),
    {
        self.bits & flag == flag
    }

    /// The platform constraints, as Buck2 labels.
    pub fn to_buck(self) -> (r: Vec<String>)
        ensures
            strs(r@) == buck_platforms(self),
    {
        let mut v: Vec<String> = Vec::new();
        let ghost e = Set::<Seq<char>>::empty();
        assert(strs(v@) =~= e);
        if self.contains(WINDOWS) {
            insert_str(&mut v, String::from_str("prelude//os:windows"));
        }
        if self.contains(MACOS) {
            insert_str(&mut v, String::from_str("prelude//os:macos"));
        }
        if self.contains(LINUX) {
            insert_str(&mut v, String::from_str("prelude//os:linux"));
        }
        assert(strs(v@) =~= buck_platforms(self));
        v
    }
}

/// The platforms that package `package_name` is restricted to, if it is one
/// of those known to need it.
pub fn lookup_platforms(package_name: &str) -> (r: Option<Platform>)
    ensures
        r == platforms_of(package_name@),
{
    let name = String::from_str(package_name);
    if name == String::from_str("hyper-named-pipe") || name == String::from_str("windows-future")
        || name == String::from_str("windows") || name == String::from_str("winreg") {
        Some(Platform { bits: WINDOWS })
    } else if name == String::from_str("system-configuration") {
        Some(Platform { bits: MACOS })
    } else {
        None
    }
}

} // verus!
