//! Locations of the crate's test data.

use vstd::prelude::*;
use vstd::string::StringExecFns;

verus! {

/// An owned filesystem path.
#[verifier::external_type_specification]
#[verifier::external_body]
pub struct ExPathBuf(std::path::PathBuf);

/// Return the path to our test data directory.
///
/// Relies on std::path::PathBuf::from to build the path value.
#[verifier::external_body]
pub fn fixture_dir() -> (d: std::path::PathBuf) {
    std::path::PathBuf::from("fixture")
}

/// Return the path to a file within the test data directory.
pub fn fixture_filename(filename: &str) -> (r: String)
    ensures
        r@ == "fixture/"@ + filename@,
{
    let mut dir = String::new();
    dir.append("fixture/");
    dir.append(filename);
    proof {
        assert(dir@ =~= "fixture/"@ + filename@);
    }
    dir
}

} // verus!
