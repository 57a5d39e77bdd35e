use vstd::prelude::*;
use vstd::string::*;

use crate::document::same_text;
use crate::error::UpdateError;

verus! {

/// A platform the bot is packaged for: the operating-system and architecture
/// tags, the compiler target triple, and the suffix of its executables.
pub struct BuildTarget {
    pub os: String,
    pub arch: String,
    pub triple: String,
    pub exe_suffix: String,
}

/// The compiler target triple for an operating system and architecture, or None
/// where the pair is not supported.
pub open spec fn triple_for(os: Seq<char>, arch: Seq<char>) -> Option<Seq<char>> {
    if os == "linux"@ && arch == "x64"@ {
        Some("x86_64-unknown-linux-gnu"@)
    } else if os == "linux"@ && arch == "arm64"@ {
        Some("aarch64-unknown-linux-gnu"@)
    } else if os == "windows"@ && arch == "x64"@ {
        Some("x86_64-pc-windows-msvc"@)
    } else if os == "windows"@ && arch == "arm64"@ {
        Some("aarch64-pc-windows-msvc"@)
    } else if os == "macos"@ && arch == "x64"@ {
        Some("x86_64-apple-darwin"@)
    } else if os == "macos"@ && arch == "arm64"@ {
        Some("aarch64-apple-darwin"@)
    } else {
        None
    }
}

/// The suffix of executables built for an operating system.
pub open spec fn exe_suffix_for(os: Seq<char>) -> Seq<char> {
    if os == "windows"@ {
        ".exe"@
    } else {
        ""@
    }
}

/// The file name under which the binary for a version and platform is released.
pub open spec fn artifact_name_of(version: Seq<char>, os: Seq<char>, arch: Seq<char>) -> Seq<char> {
    "flex-update-mc-bot-"@ + version + "-"@ + os + "-"@ + arch + exe_suffix_for(os)
}

/// The name of the binary the build produces for a target.
pub open spec fn binary_name_of(suffix: Seq<char>) -> Seq<char> {
    "flex-update-mc-bot"@ + suffix
}

/// Where the build leaves the binary: a native build under `target/release`, a
/// cross build under `target/<triple>/release`.
pub open spec fn binary_path_of(t: BuildTarget, root: Seq<char>, host: Seq<char>) -> Seq<char> {
    if t.triple@ == host {
        root + "/target/release/"@ + binary_name_of(t.exe_suffix@)
    } else {
        root + "/target/"@ + t.triple@ + "/release/"@ + binary_name_of(t.exe_suffix@)
    }
}

/// The suffix of executables built for `os`.
fn exe_suffix(os: &str) -> (r: String)
    ensures
        r@ == exe_suffix_for(os@),
{
    if same_text(os, "windows") {
        String::from_str(".exe")
    } else {
        String::from_str("")
    }
}

/// Looks up the build target of an operating system and architecture in the
/// fixed table of supported platforms.
pub fn resolve(os: &str, arch: &str) -> (r: Result<BuildTarget, UpdateError>)
    ensures
        match r {
            Ok(t) => triple_for(os@, arch@) == Some(t.triple@) && t.os@ == os@ && t.arch@ == arch@
                && t.exe_suffix@ == exe_suffix_for(os@),
            Err(e) => e == UpdateError::UnsupportedTargetError && triple_for(os@, arch@) is None,
        },
{
    let linux = same_text(os, "linux");
    let windows = same_text(os, "windows");
    let macos = same_text(os, "macos");
    let x64 = same_text(arch, "x64");
    let arm64 = same_text(arch, "arm64");
    let triple = if linux && x64 {
        "x86_64-unknown-linux-gnu"
    } else if linux && arm64 {
        "aarch64-unknown-linux-gnu"
    } else if windows && x64 {
        "x86_64-pc-windows-msvc"
    } else if windows && arm64 {
        "aarch64-pc-windows-msvc"
    } else if macos && x64 {
        "x86_64-apple-darwin"
    } else if macos && arm64 {
        "aarch64-apple-darwin"
    } else {
        return Err(UpdateError::UnsupportedTargetError);
    };
    Ok(
        BuildTarget {
            os: String::from_str(os),
            arch: String::from_str(arch),
            triple: String::from_str(triple),
            exe_suffix: exe_suffix(os),
        },
    )
}

/// The release file name for a version and platform. The same inputs always give
/// the same name, so packaging again overwrites rather than duplicates.
pub fn artifact_name(version: &str, os: &str, arch: &str) -> (r: String)
    ensures
        r@ == artifact_name_of(version@, os@, arch@),
{
    let suffix = exe_suffix(os);
    String::from_str("flex-update-mc-bot-").concat(version).concat("-").concat(os).concat(
        "-",
    ).concat(arch).concat(suffix.as_str())
}

/// The path of the binary that building `target` in `project_root` produces,
/// on a machine whose own triple is `host_triple`.
pub fn locate_binary(target: &BuildTarget, project_root: &str, host_triple: &str) -> (r: String)
    ensures
        r@ == binary_path_of(*target, project_root@, host_triple@),
{
    let name = String::from_str("flex-update-mc-bot").concat(target.exe_suffix.as_str());
    if same_text(target.triple.as_str(), host_triple) {
        String::from_str(project_root).concat("/target/release/").concat(name.as_str())
    } else {
        String::from_str(project_root).concat("/target/").concat(target.triple.as_str()).concat(
            "/release/",
        ).concat(name.as_str())
    }
}

/// The arguments of the release build: a cross build names its target, a native
/// build does not.
pub fn build_args(target: &BuildTarget, host_triple: &str) -> (r: Vec<String>)
    ensures
        target.triple@ == host_triple@ ==> r@.len() == 2,
        target.triple@ != host_triple@ ==> r@.len() == 4 && r@[2]@ == "--target"@ && r@[3]@
            == target.triple@,
        r@[0]@ == "build"@,
        r@[1]@ == "--release"@,
{
    let mut args: Vec<String> = Vec::new();
    args.push(String::from_str("build"));
    args.push(String::from_str("--release"));
    if !same_text(target.triple.as_str(), host_triple) {
        args.push(String::from_str("--target"));
        args.push(String::from_str(target.triple.as_str()));
    }
    args
}

/// The linker setting that a cross build for 64-bit ARM Linux needs: the name
/// of the environment variable and the linker.
pub fn cross_linker(target: &BuildTarget, host_triple: &str) -> (r: Option<(String, String)>)
    ensures
        match r {
            Some((var, linker)) => target.triple@ == "aarch64-unknown-linux-gnu"@ && target.triple@
                != host_triple@ && var@ == "CARGO_TARGET_AARCH64_UNKNOWN_LINUX_GNU_LINKER"@
                && linker@ == "aarch64-linux-gnu-gcc"@,
            None => target.triple@ != "aarch64-unknown-linux-gnu"@ || target.triple@
                == host_triple@,
        },
{
    if same_text(target.triple.as_str(), "aarch64-unknown-linux-gnu") && !same_text(
        target.triple.as_str(),
        host_triple,
    ) {
        Some(
            (
                String::from_str("CARGO_TARGET_AARCH64_UNKNOWN_LINUX_GNU_LINKER"),
                String::from_str("aarch64-linux-gnu-gcc"),
            ),
        )
    } else {
        None
    }
}

} // verus!
