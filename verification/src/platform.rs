//! The platform descriptor: operating system and architecture names, the
//! derived target triple, and expansion of the platform placeholder tokens.

use crate::error::InstallError;
use crate::text::{chars_of, chars_eq, replace_chars, spec_replace, string_of};
use vstd::prelude::*;

verus! {

/// The target triple derived from an OS name and an architecture name;
/// combinations outside the known set yield the sentinel `"unknown"`.
pub open spec fn spec_target_triple(os: Seq<char>, arch: Seq<char>) -> Seq<char> {
    if os == "linux"@ && arch == "x86_64"@ {
        "x86_64-unknown-linux-gnu"@
    } else if os == "linux"@ && arch == "aarch64"@ {
        "aarch64-unknown-linux-gnu"@
    } else if os == "macos"@ && arch == "x86_64"@ {
        "x86_64-apple-darwin"@
    } else if os == "macos"@ && arch == "aarch64"@ {
        "aarch64-apple-darwin"@
    } else {
        "unknown"@
    }
}

/// Expansion of the three platform tokens, in order: `{os}`, `{arch}`,
/// `{target}`.
pub open spec fn spec_expand_platform(pattern: Seq<char>, os: Seq<char>, arch: Seq<char>) -> Seq<
    char,
> {
    spec_replace(
        spec_replace(spec_replace(pattern, "{os}"@, os), "{arch}"@, arch),
        "{target}"@,
        spec_target_triple(os, arch),
    )
}

/// A platform the installer engine runs on: an operating system name and a
/// CPU architecture name, detected once at process start.
pub struct Platform {
    pub os: String,
    pub arch: String,
}

impl Platform {
    /// The target triple for this platform.
    pub fn target_triple(&self) -> (r: String)
        ensures
            r@ == spec_target_triple(self.os@, self.arch@),
    {
        let os = chars_of(self.os.as_str());
        let arch = chars_of(self.arch.as_str());
        let linux = chars_of("linux");
        let macos = chars_of("macos");
        let x86 = chars_of("x86_64");
        let arm = chars_of("aarch64");
        let triple: &str = if chars_eq(&os, &linux) && chars_eq(&arch, &x86) {
            "x86_64-unknown-linux-gnu"
        } else if chars_eq(&os, &linux) && chars_eq(&arch, &arm) {
            "aarch64-unknown-linux-gnu"
        } else if chars_eq(&os, &macos) && chars_eq(&arch, &x86) {
            "x86_64-apple-darwin"
        } else if chars_eq(&os, &macos) && chars_eq(&arch, &arm) {
            "aarch64-apple-darwin"
        } else {
            "unknown"
        };
        triple.to_owned()
    }

    /// Substitute `{os}`, `{arch}` and `{target}` in `pattern` by this
    /// platform's names and derived triple.
    pub fn expand_pattern(&self, pattern: &str) -> (r: String)
        ensures
            r@ == spec_expand_platform(pattern@, self.os@, self.arch@),
    {
        let p = chars_of(pattern);
        let os = chars_of(self.os.as_str());
        let arch = chars_of(self.arch.as_str());
        let triple = self.target_triple();
        let step1 = replace_chars(&p, &chars_of("{os}"), &os);
        let step2 = replace_chars(&step1, &chars_of("{arch}"), &arch);
        let step3 = replace_chars(&step2, &chars_of("{target}"), &chars_of(triple.as_str()));
        string_of(&step3)
    }
}

/// The canonical name of a supported operating system, from its raw
/// identifier.
pub open spec fn spec_canonical_os(raw: Seq<char>) -> Option<Seq<char>> {
    if raw == "linux"@ {
        Some("linux"@)
    } else if raw == "macos"@ || raw == "darwin"@ {
        Some("macos"@)
    } else if raw == "windows"@ {
        Some("windows"@)
    } else {
        None
    }
}

/// The canonical name of a supported architecture, from its raw
/// identifier.
pub open spec fn spec_canonical_arch(raw: Seq<char>) -> Option<Seq<char>> {
    if raw == "x86_64"@ {
        Some("x86_64"@)
    } else if raw == "aarch64"@ {
        Some("aarch64"@)
    } else {
        None
    }
}

/// Canonicalize raw OS and architecture identifiers into a platform; an
/// identifier outside the supported set is a hard failure, the OS
/// checked first.
pub fn canonical_platform(raw_os: &str, raw_arch: &str) -> (r: Result<Platform, InstallError>)
    ensures
        (match spec_canonical_os(raw_os@) {
            None => r matches Err(InstallError::UnsupportedPlatform(m)) && m@ == raw_os@,
            Some(os) => (match spec_canonical_arch(raw_arch@) {
                None => r matches Err(InstallError::UnsupportedPlatform(m)) && m@ == raw_arch@,
                Some(arch) => r matches Ok(p) && p.os@ == os && p.arch@ == arch,
            }),
        }),
{
    let osv = chars_of(raw_os);
    let os: &str = if chars_eq(&osv, &chars_of("linux")) {
        "linux"
    } else if chars_eq(&osv, &chars_of("macos")) || chars_eq(&osv, &chars_of("darwin")) {
        "macos"
    } else if chars_eq(&osv, &chars_of("windows")) {
        "windows"
    } else {
        return Err(InstallError::UnsupportedPlatform(raw_os.to_owned()));
    };
    let archv = chars_of(raw_arch);
    let arch: &str = if chars_eq(&archv, &chars_of("x86_64")) {
        "x86_64"
    } else if chars_eq(&archv, &chars_of("aarch64")) {
        "aarch64"
    } else {
        return Err(InstallError::UnsupportedPlatform(raw_arch.to_owned()));
    };
    Ok(Platform { os: os.to_owned(), arch: arch.to_owned() })
}

} // verus!
