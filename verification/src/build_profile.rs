//! The profile of a build, for callers that speak of the build rather than
//! of cargo.

use crate::cargo_profile::get_profile;
use crate::cargo_profile::is_profile_test;
use crate::cargo_profile::spec_profile;
use crate::cargo_profile::CargoProfile;
use vstd::prelude::*;

verus! {

/// Build Profile
/// https://doc.rust-lang.org/cargo/reference/profiles.html
pub type BuildProfile = CargoProfile;

/// Returns whether the build profile is test
pub fn is_cargo_test(test_build: bool, debug_assertions: bool) -> (r: bool)
    ensures
        r == (spec_profile(test_build, debug_assertions) == CargoProfile::Test),
        r == test_build,
{
    is_profile_test(test_build, debug_assertions)
}

/// Returns a `BuildProfile` value according to the build
pub fn build_profile(test_build: bool, debug_assertions: bool) -> (r: BuildProfile)
    ensures
        r == spec_profile(test_build, debug_assertions),
{
    get_profile(test_build, debug_assertions)
}

} // verus!
