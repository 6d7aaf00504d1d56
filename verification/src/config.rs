//! The shape of a parsed build manifest: an ordered list of named build
//! steps and an optional package descriptor. Reading and deserializing the
//! manifest file is the caller's concern; the core only consumes these
//! values.

use vstd::prelude::*;

verus! {

/// One named build step: what to run, for which platform.
pub struct BuildConfig {
    pub name: String,
    pub platform: String,
    pub language: Option<String>,
    pub command: String,
    pub container: Option<String>,
}

/// The optional package descriptor of a manifest. The output format is
/// called `type` in the manifest file; the caller maps that name.
pub struct PackageConfig {
    pub package_type: Option<String>,
    pub name: Option<String>,
    pub version: Option<String>,
    pub dependencies: Option<Vec<String>>,
}

/// A parsed build manifest.
pub struct BuildStudioConfig {
    pub builds: Vec<BuildConfig>,
    pub package: Option<PackageConfig>,
}

} // verus!
