//! The shape of a plugin entry. Scanning the plugin directory and reading
//! manifests is the caller's concern; a directory without a readable
//! manifest still yields an entry, built here from its name and path.

use vstd::prelude::*;

verus! {

/// One discovered plugin.
pub struct Plugin {
    pub name: String,
    pub author: String,
    pub version: String,
    pub description: String,
    pub path: String,
}

/// The entry used for a plugin directory whose manifest is missing or
/// unreadable: known name and path, placeholders for the rest.
pub fn fallback_plugin(name: String, path: String) -> (r: Plugin)
    ensures
        r.name@ == name@,
        r.author@ == "Unknown"@,
        r.version@ == "0.1.0"@,
        r.description@ == "Plugin description not available"@,
        r.path@ == path@,
{
    Plugin {
        name,
        author: String::from_str("Unknown"),
        version: String::from_str("0.1.0"),
        description: String::from_str("Plugin description not available"),
        path,
    }
}

} // verus!
