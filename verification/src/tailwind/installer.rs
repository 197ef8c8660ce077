//! Deciding how the compiler is obtained: npm, an already-downloaded
//! standalone binary, or a fresh download. The shell probes, downloads and
//! sets permission bits.

use vstd::prelude::*;
use crate::server::error::Error;

verus! {

/// The compiler release the standalone download fetches.
pub const LATEST_TAILWIND_VERSION: &'static str = "3.3.3";

/// The releases the standalone binaries are published under.
pub const DOWNLOAD_BASE: &'static str =
    "https://github.com/tailwindlabs/tailwindcss/releases/download/v";

/// How a compiler run gets its binary.
#[derive(Clone, Copy, Debug, PartialEq, Eq, Structural)]
pub enum InstallAction {
    /// Node is present: run the compiler from npm.
    UseNpm,
    /// The standalone binary is already downloaded: use it.
    UseStandaloneCli,
    /// Neither is available: download the standalone binary first.
    DownloadCli,
}

/// Decides how the compiler is obtained, given what the shell found: npm
/// when node is installed, the standalone binary when it is present, and a
/// download only when both are missing.
pub fn check_or_install(node_ok: bool, cli_present: bool) -> (r: InstallAction)
    ensures
        node_ok ==> r == InstallAction::UseNpm,
        !node_ok && cli_present ==> r == InstallAction::UseStandaloneCli,
        !node_ok && !cli_present ==> r == InstallAction::DownloadCli,
{
    if node_ok {
        InstallAction::UseNpm
    } else if cli_present {
        InstallAction::UseStandaloneCli
    } else {
        InstallAction::DownloadCli
    }
}

/// After a failed run under npx: download the standalone binary only when
/// node is installed, npx cannot run the compiler, and no standalone binary
/// is present yet.
pub fn check_npx_tailwind_works(node_ok: bool, npx_tailwind_ok: bool, cli_present: bool) -> (
    download: bool)
    ensures
        download <==> (node_ok && !npx_tailwind_ok && !cli_present),
{
    node_ok && !npx_tailwind_ok && !cli_present
}

/// Maps the host architecture to the name its published binary carries.
pub fn arch_name(arch: &str) -> (r: Result<String, Error>)
    ensures
        arch@ == "x86_64"@ ==> (r matches Ok(n) && n@ == "x64"@),
        arch@ == "aarch64"@ ==> (r matches Ok(n) && n@ == "arm64"@),
        arch@ == "arm"@ ==> (r matches Ok(n) && n@ == "armv7"@),
        arch@ != "x86_64"@ && arch@ != "aarch64"@ && arch@ != "arm"@ ==> (r matches Err(e) && e
            matches Error::UnsupportedArch(a) && a@ == arch@),
{
    proof {
        reveal_strlit("x86_64");
        reveal_strlit("aarch64");
        reveal_strlit("arm");
        assert("x86_64"@.len() == 6);
        assert("aarch64"@.len() == 7);
        assert("arm"@.len() == 3);
        assert("x86_64"@ != "aarch64"@);
        assert("x86_64"@ != "arm"@);
        assert("aarch64"@ != "arm"@);
    }
    if crate::strutil::str_eq(arch, "x86_64") {
        Ok(String::from_str("x64"))
    } else if crate::strutil::str_eq(arch, "aarch64") {
        Ok(String::from_str("arm64"))
    } else if crate::strutil::str_eq(arch, "arm") {
        Ok(String::from_str("armv7"))
    } else {
        Err(Error::UnsupportedArch(arch.to_owned()))
    }
}

/// The URL the standalone binary for this platform is downloaded from.
pub fn download_url(version: &str, os: &str, arch: &str) -> (r: String)
    ensures
        r@ == DOWNLOAD_BASE@ + version@ + "/tailwindcss-"@ + os@ + "-"@ + arch@,
{
    String::from_str(DOWNLOAD_BASE).concat(version).concat("/tailwindcss-").concat(os).concat(
        "-",
    ).concat(arch)
}

} // verus!
