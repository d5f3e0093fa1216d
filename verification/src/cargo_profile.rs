//! The profile that the program was built with.

use vstd::prelude::*;

verus! {

/// Cargo build profile
/// <https://doc.rust-lang.org/cargo/reference/profiles.html>
#[derive(Debug, Clone, Copy, PartialEq, Eq, Structural)]
pub enum CargoProfile {
    /// cargo build --release
    Release,
    /// cargo build
    Dev,
    /// cargo test
    Test,
}

/// The profile of a build: `Test` where the build is one for tests, else
/// `Dev` where it keeps debug assertions, else `Release`.
pub open spec fn spec_profile(test_build: bool, debug_assertions: bool) -> CargoProfile {
    if test_build {
        CargoProfile::Test
    } else if debug_assertions {
        CargoProfile::Dev
    } else {
        CargoProfile::Release
    }
}

/// Returns whether the build profile is test
pub fn is_profile_test(test_build: bool, debug_assertions: bool) -> (r: bool)
    ensures
        r == (spec_profile(test_build, debug_assertions) == CargoProfile::Test),
        r == test_build,
{
    get_profile(test_build, debug_assertions) == CargoProfile::Test
}

/// Returns a `CargoProfile` value according to the cargo command that made
/// the build: whether it is a build for tests, and whether it keeps debug
/// assertions.
pub fn get_profile(test_build: bool, debug_assertions: bool) -> (r: CargoProfile)
    ensures
        r == spec_profile(test_build, debug_assertions),
{
    if test_build {
        return CargoProfile::Test;
    }
    if debug_assertions {
        return CargoProfile::Dev;
    }
    CargoProfile::Release
}

} // verus!
