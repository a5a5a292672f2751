//! Toolchain target-information resolver.
//!
//! Queries of an external compiler toolchain report, for each supported
//! build-output kind, the file-naming convention the toolchain will use
//! (prefix and suffix), the configuration flags active for the target, and
//! the location of the toolchain's standard-library artifacts.  This crate
//! holds the verified core: parsing the probe output, caching per-kind
//! naming results, and expanding naming results into the full set of
//! artifact file descriptors.  Running the toolchain itself is left to the
//! caller, which hands the captured output text to the functions here.
pub mod cfg;
pub mod files;
pub mod invoke;
pub mod laws;
pub mod probe;
pub mod text;

use vstd::prelude::*;

verus! {

} // verus!
