//! The error taxonomy of the install engine. Every failure of an install,
//! update or uninstall operation surfaces as one of these kinds.

use vstd::prelude::*;

verus! {

/// Why an install operation failed.
#[derive(Debug)]
pub enum InstallError {
    /// The OS/architecture combination is outside the supported set.
    UnsupportedPlatform(String),
    /// The requested tool is not in the knowledge base.
    UnknownTool(String),
    /// The selected installer is not in the knowledge base.
    UnknownInstaller(String),
    /// The tool does not support the explicitly requested installer.
    UnsupportedInstaller(String, String),
    /// No installer in the platform's precedence list applies to the tool.
    NoInstallerAvailable(String, String),
    /// No precedence list exists for the platform.
    NoPlatformConfig(String),
    /// The installer's availability check failed.
    InstallerNotAvailable(String),
    /// A command installer declares no install-output pattern.
    MissingOutputPattern,
    /// A release installer has no repository configured for the tool.
    MissingRepo,
    /// A script installer has no script for the tool on this OS.
    MissingScript(String, String),
    /// The install command exited non-zero; carries the captured stderr.
    CommandFailed(String),
    /// The install script exited non-zero; carries the captured stderr.
    ScriptFailed(String),
    /// The expanded output pattern matched nothing; carries the pattern.
    NoVersionExtracted(String),
    /// No probe confirmed the installed version; the install was rolled
    /// back.
    VersionDetectionFailed(String),
    /// The latest release holds no assets at all.
    NoAssetsFound(String),
    /// No release asset qualified; carries the scored candidate names.
    NoMatchingAsset(String, String, Vec<(String, i64)>),
    /// The archive listing yielded no executable to install.
    NoExecutablesFound,
}

impl InstallError {
    /// A short human-readable description of the failure.
    pub fn message(&self) -> String {
        let prefix: &str = match self {
            InstallError::UnsupportedPlatform(_) => "unsupported platform: ",
            InstallError::UnknownTool(_) => "unknown tool: ",
            InstallError::UnknownInstaller(_) => "unknown installer: ",
            InstallError::UnsupportedInstaller(_, _) => "tool does not support installer: ",
            InstallError::NoInstallerAvailable(_, _) => "no installer available for: ",
            InstallError::NoPlatformConfig(_) => "no platform config for: ",
            InstallError::InstallerNotAvailable(_) => "installer not available: ",
            InstallError::MissingOutputPattern => {
                "no install_output_pattern defined for this installer"
            },
            InstallError::MissingRepo => "GitHub installer requires 'repo' field",
            InstallError::MissingScript(_, _) => "no script for tool on this platform: ",
            InstallError::CommandFailed(_) => "command failed: ",
            InstallError::ScriptFailed(_) => "script failed: ",
            InstallError::NoVersionExtracted(_) => {
                "failed to extract version from install output; pattern: "
            },
            InstallError::VersionDetectionFailed(_) => {
                "could not detect version; installation rolled back: "
            },
            InstallError::NoAssetsFound(_) => "no assets found in latest release for: ",
            InstallError::NoMatchingAsset(_, _, _) => "could not auto-detect download for: ",
            InstallError::NoExecutablesFound => "no executables found in archive",
        };
        let mut out = prefix.to_owned();
        match self {
            InstallError::UnsupportedPlatform(s) => { out.append(s.as_str()); },
            InstallError::UnknownTool(s) => { out.append(s.as_str()); },
            InstallError::UnknownInstaller(s) => { out.append(s.as_str()); },
            InstallError::UnsupportedInstaller(t, s) => {
                out.append(t.as_str());
                out.append(" / ");
                out.append(s.as_str());
            },
            InstallError::NoInstallerAvailable(t, p) => {
                out.append(t.as_str());
                out.append(" on ");
                out.append(p.as_str());
            },
            InstallError::NoPlatformConfig(s) => { out.append(s.as_str()); },
            InstallError::InstallerNotAvailable(s) => { out.append(s.as_str()); },
            InstallError::MissingOutputPattern => {},
            InstallError::MissingRepo => {},
            InstallError::MissingScript(t, os) => {
                out.append(t.as_str());
                out.append(" on ");
                out.append(os.as_str());
            },
            InstallError::CommandFailed(s) => { out.append(s.as_str()); },
            InstallError::ScriptFailed(s) => { out.append(s.as_str()); },
            InstallError::NoVersionExtracted(s) => { out.append(s.as_str()); },
            InstallError::VersionDetectionFailed(s) => { out.append(s.as_str()); },
            InstallError::NoAssetsFound(s) => { out.append(s.as_str()); },
            InstallError::NoMatchingAsset(os, arch, _) => {
                out.append(os.as_str());
                out.append("-");
                out.append(arch.as_str());
            },
            InstallError::NoExecutablesFound => {},
        }
        out
    }
}

} // verus!
