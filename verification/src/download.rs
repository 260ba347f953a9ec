//! Where the StackQL binary is downloaded from, by platform.
use vstd::prelude::*;
use crate::text::{chars_of, string_of, push_str};

verus! {

/// The operating systems the tool knows.
#[derive(Debug, Clone, Copy, PartialEq, Eq, Structural)]
pub enum Platform {
    MacOS,
    Windows,
    Linux,
    Unknown,
}

/// Errors of the application that the library reports.
#[derive(Debug)]
pub enum AppError {
    CommandFailed(String),
}

/// The base URL of StackQL releases.
pub open spec fn release_base_url() -> Seq<char> {
    "https://releases.stackql.io/stackql/latest"@
}

/// The download URL for `platform` (`aarch64` on 64-bit ARM machines), or
/// the error for an unsupported platform.
pub open spec fn download_url(platform: Platform, aarch64: bool) -> Result<Seq<char>, Seq<char>> {
    match platform {
        Platform::MacOS => Ok(release_base_url() + "/stackql_darwin_multiarch.pkg"@),
        Platform::Windows => Ok(release_base_url() + "/stackql_windows_amd64.zip"@),
        Platform::Linux => Ok(release_base_url() + "/stackql_linux_"@
            + (if aarch64 { "arm64"@ } else { "amd64"@ }) + ".zip"@),
        Platform::Unknown => Err("Unsupported platform for stackql download"@),
    }
}

/// The URL for downloading the StackQL binary on `platform`.
pub fn get_download_url(platform: Platform, aarch64: bool) -> (r: Result<String, AppError>)
    ensures
        match r {
            Ok(u) => download_url(platform, aarch64) == Ok::<Seq<char>, Seq<char>>(u@),
            Err(AppError::CommandFailed(m)) => download_url(platform, aarch64) == Err::<Seq<char>, Seq<char>>(m@),
        },
{
    let mut t = chars_of("https://releases.stackql.io/stackql/latest");
    match platform {
        Platform::MacOS => {
            push_str(&mut t, "/stackql_darwin_multiarch.pkg");
            Ok(string_of(t.as_slice()))
        },
        Platform::Windows => {
            push_str(&mut t, "/stackql_windows_amd64.zip");
            Ok(string_of(t.as_slice()))
        },
        Platform::Linux => {
            push_str(&mut t, "/stackql_linux_");
            if aarch64 {
                push_str(&mut t, "arm64");
            } else {
                push_str(&mut t, "amd64");
            }
            push_str(&mut t, ".zip");
            Ok(string_of(t.as_slice()))
        },
        Platform::Unknown => Err(AppError::CommandFailed("Unsupported platform for stackql download".to_owned())),
    }
}

} // verus!
