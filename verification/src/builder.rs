//! Names of the files that a build writes next to the packed site.

use vstd::prelude::*;

verus! {

/// The name of the manifest file saved with a build.
pub const MANIFESTFILENAME: &'static str = "??cask_manifest-o-??.json";

/// The name of the routes file that an export writes.
pub const ROUTESFILENAME: &'static str = "??cask_routes-o-??.json";

} // verus!
