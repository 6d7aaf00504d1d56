//! The packaging request and its dispatch: which third-party tool an output
//! format needs and where the artifact goes. Checking for the tool and
//! invoking it is the caller's concern.

use vstd::prelude::*;
use crate::strutil::{concat2, str_eq_str};

verus! {

/// A packaging request.
pub struct PackageConfig {
    pub name: String,
    pub version: String,
    pub package_type: String,
    pub dependencies: Vec<String>,
    pub source_dir: String,
    pub output_dir: String,
}

/// The tool that builds an output format, when the format is known: the
/// command whose presence the caller must check before packaging.
pub open spec fn spec_package_tool(t: Seq<char>) -> Option<Seq<char>> {
    if t == "deb"@ {
        Some("dpkg-deb"@)
    } else if t == "rpm"@ {
        Some("rpmbuild"@)
    } else if t == "msi"@ {
        Some("candle"@)
    } else if t == "exe"@ {
        Some(Seq::empty())
    } else if t == "dmg"@ {
        Some("hdiutil"@)
    } else if t == "pkg"@ {
        Some("pkgbuild"@)
    } else if t == "apk"@ {
        Some("aapt"@)
    } else if t == "wasm"@ {
        Some(Seq::empty())
    } else {
        None
    }
}

/// The packaging tool for an output format: an empty name when the format
/// needs no external tool, and nothing when the format is unsupported.
pub fn package_tool(package_type: &str) -> (r: Option<String>)
    ensures
        match r {
            Some(t) => spec_package_tool(package_type@) == Some(t@),
            None => spec_package_tool(package_type@) is None,
        },
{
    if str_eq_str(package_type, "deb") {
        Some(String::from_str("dpkg-deb"))
    } else if str_eq_str(package_type, "rpm") {
        Some(String::from_str("rpmbuild"))
    } else if str_eq_str(package_type, "msi") {
        Some(String::from_str("candle"))
    } else if str_eq_str(package_type, "exe") {
        let r = String::new();
        proof {
            assert(r@ =~= Seq::<char>::empty());
        }
        Some(r)
    } else if str_eq_str(package_type, "dmg") {
        Some(String::from_str("hdiutil"))
    } else if str_eq_str(package_type, "pkg") {
        Some(String::from_str("pkgbuild"))
    } else if str_eq_str(package_type, "apk") {
        Some(String::from_str("aapt"))
    } else if str_eq_str(package_type, "wasm") {
        let r = String::new();
        proof {
            assert(r@ =~= Seq::<char>::empty());
        }
        Some(r)
    } else {
        None
    }
}

/// The artifact path for a packaging request: the package name under the
/// output directory, with the format as extension.
pub fn package_output_path(config: &PackageConfig) -> (r: String)
    ensures
        r@ == config.output_dir@ + "/"@ + config.name@ + "."@ + config.package_type@,
{
    let mut out = concat2(config.output_dir.as_str(), "/");
    out.append(config.name.as_str());
    out.append(".");
    out.append(config.package_type.as_str());
    out
}

} // verus!
