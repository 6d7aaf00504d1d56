//! Toolchain resolver: maps a target platform to a command-prefix strategy
//! that adapts a build command for cross-compilation.

use vstd::prelude::*;
use crate::strutil::{flat_concat, str_eq_str};

verus! {

/// A command-prefix strategy for one target platform.
#[derive(Debug)]
pub enum Toolchain {
    Native,
    MinGW,
    AndroidNDK,
    Emscripten,
    WasmPack,
    Custom(String),
}

impl Clone for Toolchain {
    fn clone(&self) -> (res: Self)
        ensures
            res == *self,
    {
        match self {
            Toolchain::Native => Toolchain::Native,
            Toolchain::MinGW => Toolchain::MinGW,
            Toolchain::AndroidNDK => Toolchain::AndroidNDK,
            Toolchain::Emscripten => Toolchain::Emscripten,
            Toolchain::WasmPack => Toolchain::WasmPack,
            Toolchain::Custom(p) => Toolchain::Custom(p.clone()),
        }
    }
}

/// The prefix fragments of each toolchain: none for native, one fixed
/// fragment for each cross toolchain, and the carried string for a custom
/// one.
pub open spec fn spec_command_prefix(t: Toolchain) -> Seq<Seq<char>> {
    match t {
        Toolchain::Native => Seq::empty(),
        Toolchain::MinGW => seq!["x86_64-w64-mingw32-"@],
        Toolchain::AndroidNDK => seq![
            "$ANDROID_NDK_HOME/toolchains/llvm/prebuilt/linux-x86_64/bin/"@,
        ],
        Toolchain::Emscripten => seq!["emcc"@],
        Toolchain::WasmPack => seq!["wasm-pack"@],
        Toolchain::Custom(p) => seq![p@],
    }
}

/// The full prefix of a toolchain: its fragments run together.
pub open spec fn spec_prefix_concat(t: Toolchain) -> Seq<char> {
    flat_concat(spec_command_prefix(t))
}

impl Toolchain {
    /// The ordered command-prefix fragments for this toolchain.
    pub fn command_prefix(&self) -> (r: Vec<String>)
        ensures
            r.deep_view() == spec_command_prefix(*self),
    {
        let mut v: Vec<String> = Vec::new();
        match self {
            Toolchain::Native => {
                proof {
                    assert(v.deep_view() =~= spec_command_prefix(*self));
                }
            },
            Toolchain::MinGW => {
                v.push(String::from_str("x86_64-w64-mingw32-"));
                proof {
                    assert(v.deep_view() =~= spec_command_prefix(*self));
                }
            },
            Toolchain::AndroidNDK => {
                v.push(
                    String::from_str(
                        "$ANDROID_NDK_HOME/toolchains/llvm/prebuilt/linux-x86_64/bin/",
                    ),
                );
                proof {
                    assert(v.deep_view() =~= spec_command_prefix(*self));
                }
            },
            Toolchain::Emscripten => {
                v.push(String::from_str("emcc"));
                proof {
                    assert(v.deep_view() =~= spec_command_prefix(*self));
                }
            },
            Toolchain::WasmPack => {
                v.push(String::from_str("wasm-pack"));
                proof {
                    assert(v.deep_view() =~= spec_command_prefix(*self));
                }
            },
            Toolchain::Custom(p) => {
                v.push(p.clone());
                proof {
                    assert(v.deep_view() =~= spec_command_prefix(*self));
                }
            },
        }
        v
    }
}

/// The toolchain chosen for a platform identifier; unrecognized platforms
/// resolve to the native toolchain.
pub open spec fn spec_toolchain_for_platform(p: Seq<char>) -> Toolchain {
    if p == "windows"@ {
        Toolchain::MinGW
    } else if p == "wasm"@ || p == "webassembly"@ {
        Toolchain::WasmPack
    } else if p == "android"@ {
        Toolchain::AndroidNDK
    } else {
        Toolchain::Native
    }
}

/// Resolves a platform identifier to its toolchain.
pub fn toolchain_for_platform(platform: &str) -> (r: Toolchain)
    ensures
        r == spec_toolchain_for_platform(platform@),
{
    if str_eq_str(platform, "windows") {
        Toolchain::MinGW
    } else if str_eq_str(platform, "wasm") || str_eq_str(platform, "webassembly") {
        Toolchain::WasmPack
    } else if str_eq_str(platform, "android") {
        Toolchain::AndroidNDK
    } else {
        Toolchain::Native
    }
}

/// The command actually executed: the toolchain prefix run together and
/// prepended verbatim to the user's command.
pub open spec fn spec_full_command(cmd: Seq<char>, t: Toolchain) -> Seq<char> {
    spec_prefix_concat(t) + cmd
}

/// Prepends the toolchain's prefix to a command; no shell escaping is
/// performed.
pub fn full_command(command: &str, toolchain: &Toolchain) -> (r: String)
    ensures
        r@ == spec_full_command(command@, *toolchain),
{
    let prefix = toolchain.command_prefix();
    let mut out = crate::strutil::join_all(&prefix);
    out.append(command);
    out
}

} // verus!
