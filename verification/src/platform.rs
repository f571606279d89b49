//! The platforms that a project is cooked for, and where the cooked files
//! of each are.

use vstd::prelude::*;
use vstd::string::StringExecFns;

verus! {

/// A platform that a project can be cooked for.
#[derive(Debug, Clone, Copy, PartialEq, Eq, Structural)]
pub enum Platform {
    Win64,
    Linux,
}

impl Platform {
    /// The name that the engine has for the cooked target of a platform.
    pub open spec fn spec_target(&self) -> Seq<char> {
        match self {
            Platform::Win64 => "WindowsNoEditor"@,
            Platform::Linux => "LinuxNoEditor"@,
        }
    }

    /// The name that the engine has for the cooked target of a platform.
    pub fn target(&self) -> (name: &str)
        ensures
            name@ == self.spec_target(),
    {
        match self {
            Platform::Win64 => "WindowsNoEditor",
            Platform::Linux => "LinuxNoEditor",
        }
    }
}

/// The directory, below the root of the project, that holds the cooked files
/// of a platform.
pub open spec fn cooked_dir(platform: Platform) -> Seq<char> {
    "Saved/Cooked/"@ + platform.spec_target()
}

/// The directory, below the root of the project, that holds the cooked files
/// of a platform, as a path relative to that root.
pub fn get_cooked_dir(platform: Platform) -> (dir: String)
    ensures
        dir@ == cooked_dir(platform),
{
    let mut dir = String::from_str("Saved/Cooked/");
    dir.append(platform.target());
    dir
}

/// The two platforms have different targets, and so different directories.
pub proof fn lemma_targets_differ()
    ensures
        Platform::Win64.spec_target() != Platform::Linux.spec_target(),
        cooked_dir(Platform::Win64) != cooked_dir(Platform::Linux),
{
    reveal_strlit("WindowsNoEditor");
    reveal_strlit("LinuxNoEditor");
    reveal_strlit("Saved/Cooked/");
    let w = cooked_dir(Platform::Win64);
    let l = cooked_dir(Platform::Linux);
    assert(Platform::Win64.spec_target()[0] == 'W');
    assert(Platform::Linux.spec_target()[0] == 'L');
    assert(w[13] == 'W');
    assert(l[13] == 'L');
}

} // verus!
