//! The declarative knowledge base: installers, tools and per-platform
//! installer precedence, plus the per-tool installer overrides.

use crate::table::Table;
use vstd::prelude::*;

verus! {

/// Ordered installer preference for one operating system.
pub struct PlatformConfig {
    pub precedence: Vec<String>,
}

/// How to check for a newer version of a package: by running a command or
/// by querying an HTTP API, with an optional response path.
pub struct VersionCheck {
    pub method: String,
    pub command: Option<Vec<String>>,
    pub url: Option<String>,
    pub path: Option<String>,
}

/// A named installation strategy: its kind tag, availability check,
/// command templates and the pattern that recovers a version from its
/// install output.
pub struct Installer {
    pub installer_type: String,
    pub check: Option<Vec<String>>,
    pub install: Vec<String>,
    pub uninstall: Option<Vec<String>>,
    pub update: Option<Vec<String>>,
    pub install_output_pattern: Option<String>,
    pub version_check: Option<VersionCheck>,
}

/// Shell scripts for one operating system: install, and optionally
/// uninstall and update.
pub struct PlatformScripts {
    pub install: String,
    pub uninstall: Option<String>,
    pub update: Option<String>,
}

/// Per-tool override fields for one installer: package/repository naming
/// for command and release installers, or per-OS scripts for script
/// installers.
pub struct ToolInstaller {
    pub package: Option<String>,
    pub repo: Option<String>,
    pub pattern: Option<String>,
    pub url: Option<String>,
    pub linux: Option<PlatformScripts>,
    pub macos: Option<PlatformScripts>,
    pub windows: Option<PlatformScripts>,
}

impl ToolInstaller {
    /// An override with no field set.
    pub fn empty() -> (r: Self)
        ensures
            r.package is None,
            r.repo is None,
            r.pattern is None,
            r.url is None,
            r.linux is None,
            r.macos is None,
            r.windows is None,
    {
        ToolInstaller {
            package: None,
            repo: None,
            pattern: None,
            url: None,
            linux: None,
            macos: None,
            windows: None,
        }
    }
}

/// A tool the system can install: a description, the executables it
/// provides, and its per-installer configuration.
pub struct Tool {
    pub description: String,
    pub provides: Vec<String>,
    pub installers: Table<ToolInstaller>,
}

/// The whole knowledge base, after merging any local overlay over the
/// bundled entries; `local_tools` records which tool names the overlay
/// supplied.
pub struct Knowledge {
    pub version: u32,
    pub installers: Table<Installer>,
    pub tools: Table<Tool>,
    pub platforms: Table<PlatformConfig>,
    pub local_tools: Vec<String>,
}

impl Knowledge {
    /// An empty knowledge base.
    pub fn new(version: u32) -> (r: Self)
        ensures
            r.version == version,
            forall|n: Seq<char>| r.installers.spec_get(n) is None,
            forall|n: Seq<char>| r.tools.spec_get(n) is None,
            forall|n: Seq<char>| r.platforms.spec_get(n) is None,
            r.local_tools@.len() == 0,
    {
        Knowledge {
            version,
            installers: Table::new(),
            tools: Table::new(),
            platforms: Table::new(),
            local_tools: Vec::new(),
        }
    }

    /// Merge one overlay tool over the bundled entries: the overlay entry
    /// replaces any bundled entry of the same name whole, and the name is
    /// recorded as local.
    pub fn merge_local_tool(&mut self, name: String, tool: Tool)
        ensures
            final(self).tools.spec_get(name@) == Some(tool),
            forall|n: Seq<char>|
                n != name@ ==> final(self).tools.spec_get(n) == old(self).tools.spec_get(n),
            final(self).local_tools@ == old(self).local_tools@.push(name),
            final(self).installers == old(self).installers,
            final(self).platforms == old(self).platforms,
            final(self).version == old(self).version,
    {
        self.local_tools.push(name.clone());
        self.tools.set(name, tool);
    }

    /// Merge one overlay installer: whole-entry replacement by name.
    pub fn merge_local_installer(&mut self, name: String, installer: Installer)
        ensures
            final(self).installers.spec_get(name@) == Some(installer),
            forall|n: Seq<char>|
                n != name@ ==> final(self).installers.spec_get(n) == old(
                    self,
                ).installers.spec_get(n),
            final(self).tools == old(self).tools,
            final(self).platforms == old(self).platforms,
            final(self).local_tools == old(self).local_tools,
            final(self).version == old(self).version,
    {
        self.installers.set(name, installer);
    }

    /// Merge one overlay platform: whole-entry replacement by name.
    pub fn merge_local_platform(&mut self, name: String, platform: PlatformConfig)
        ensures
            final(self).platforms.spec_get(name@) == Some(platform),
            forall|n: Seq<char>|
                n != name@ ==> final(self).platforms.spec_get(n) == old(
                    self,
                ).platforms.spec_get(n),
            final(self).tools == old(self).tools,
            final(self).installers == old(self).installers,
            final(self).local_tools == old(self).local_tools,
            final(self).version == old(self).version,
    {
        self.platforms.set(name, platform);
    }

    /// Whether the overlay supplied the tool of this name.
    pub fn is_local_tool(&self, name: &String) -> (r: bool)
        ensures
            r == self.local_tools@.map_values(|s: String| s@).contains(name@),
    {
        let mut i: usize = 0;
        while i < self.local_tools.len()
            invariant
                i <= self.local_tools@.len(),
                forall|j: int| 0 <= j < i ==> self.local_tools@[j]@ != name@,
            decreases self.local_tools@.len() - i,
        {
            if self.local_tools[i] == *name {
                proof {
                    assert(self.local_tools@.map_values(|s: String| s@)[i as int] == name@);
                }
                return true;
            }
            i = i + 1;
        }
        proof {
            let m = self.local_tools@.map_values(|s: String| s@);
            assert forall|j: int| 0 <= j < m.len() implies m[j] != name@ by {
                assert(m[j] == self.local_tools@[j]@);
            }
        }
        false
    }
}

} // verus!
