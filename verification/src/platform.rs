//! The platforms the runtime library is looked up on, and where each of them
//! keeps it by default.

use vstd::prelude::*;

verus! {

/// The target platform, as far as the location of the runtime library depends on it.
#[derive(Clone, Copy, Debug, PartialEq, Eq, Structural)]
pub enum Platform {
    /// Windows: the library is found through the system's search path.
    Windows,
    /// The Apple desktop platform: the library is part of a system framework.
    MacOs,
    /// Every other, Unix-like platform: a shared object on the loader's search path.
    Unix,
}

impl Platform {
    /// The platform that an operating system's name stands for: `windows` and
    /// `macos` name their own, every other name counts as Unix-like.
    pub open spec fn of_target_os(name: Seq<char>) -> Platform {
        if name == "windows"@ {
            Platform::Windows
        } else if name == "macos"@ {
            Platform::MacOs
        } else {
            Platform::Unix
        }
    }

    /// The platform of the target whose operating system is called `name`.
    pub fn from_target_os(name: &str) -> (platform: Platform)
        ensures
            platform == Platform::of_target_os(name@),
    {
        if same_text(name, "windows") {
            Platform::Windows
        } else if same_text(name, "macos") {
            Platform::MacOs
        } else {
            Platform::Unix
        }
    }
}

/// Whether two texts hold the same characters.
fn same_text(left: &str, right: &str) -> (same: bool)
    ensures
        same == (left@ == right@),
{
    left.to_owned() == right.to_owned()
}

/// The default location of the runtime library on `platform`.
pub open spec fn default_path(platform: Platform) -> Seq<char> {
    match platform {
        Platform::Windows => "OpenCL.dll"@,
        Platform::MacOs => "/System/Library/Frameworks/OpenCL.framework/OpenCL"@,
        Platform::Unix => "libOpenCL.so"@,
    }
}

/// The path that is tried when no override is set, or when every override candidate failed.
pub fn default_library_path(platform: Platform) -> (path: &'static str)
    ensures
        path@ == default_path(platform),
{
    match platform {
        Platform::Windows => "OpenCL.dll",
        Platform::MacOs => "/System/Library/Frameworks/OpenCL.framework/OpenCL",
        Platform::Unix => "libOpenCL.so",
    }
}

} // verus!
