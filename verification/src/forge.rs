//! The orchestrator's decisions: which installer serves a tool on this
//! platform, when an install is a no-op, what an uninstall must touch,
//! and how a finished script install is recorded.

use crate::backend::{
    expand_template, script_install_outcome, spec_expand, InstallResult,
};
use crate::error::InstallError;
use crate::facts::{dependent_tools, spec_dependents, Facts};
use crate::knowledge::{Installer, Knowledge, Tool, ToolInstaller};
use crate::platform::Platform;
use vstd::prelude::*;

verus! {

/// The engine with its merged knowledge and the platform it runs on.
pub struct Forge {
    pub knowledge: Knowledge,
    pub platform: Platform,
}

/// What an install request amounts to once the record is consulted.
pub enum InstallPlan {
    /// The tool is already installed and no different installer was
    /// requested: nothing runs.
    Skip(Option<String>),
    /// The tool is installed through another installer and a different
    /// one was explicitly requested: uninstall, then install through the
    /// named installer.
    Replace(String, String),
    /// The tool is not installed: install through the named installer.
    Fresh(String),
}

/// The first name in the precedence list that the tool supports and the
/// knowledge base defines.
pub open spec fn spec_first_precedence(
    names: Seq<String>,
    tool: Tool,
    installers: crate::table::Table<Installer>,
) -> Option<Seq<char>>
    decreases names.len(),
{
    if names.len() == 0 {
        None
    } else if tool.installers.spec_get(names[0]@) is Some && installers.spec_get(names[0]@)
        is Some {
        Some(names[0]@)
    } else {
        spec_first_precedence(names.skip(1), tool, installers)
    }
}

impl Forge {
    /// Pick the installer for a tool from the platform's precedence
    /// list: the first listed name that the tool supports and the
    /// knowledge base defines.
    pub fn find_best_installer(&self, tool_name: &String, tool: &Tool) -> (r: Result<
        String,
        InstallError,
    >)
        ensures
            (match self.knowledge.platforms.spec_get(self.platform.os@) {
                None => r matches Err(InstallError::NoPlatformConfig(p)) && p@
                    == self.platform.os@,
                Some(pc) => (match spec_first_precedence(
                    pc.precedence@,
                    *tool,
                    self.knowledge.installers,
                ) {
                    Some(n) => r matches Ok(name) && name@ == n,
                    None => r matches Err(InstallError::NoInstallerAvailable(t, p)) && t@
                        == tool_name@ && p@ == self.platform.os@,
                }),
            }),
    {
        let pc = match self.knowledge.platforms.get(&self.platform.os) {
            Some(pc) => pc,
            None => {
                return Err(InstallError::NoPlatformConfig(self.platform.os.clone()));
            },
        };
        let ghost names = pc.precedence@;
        let mut i: usize = 0;
        proof {
            assert(names.skip(0) =~= names);
        }
        while i < pc.precedence.len()
            invariant
                self.knowledge.platforms.spec_get(self.platform.os@) == Some(*pc),
                names == pc.precedence@,
                i <= names.len(),
                spec_first_precedence(names, *tool, self.knowledge.installers)
                    == spec_first_precedence(names.skip(i as int), *tool,
                self.knowledge.installers),
            decreases names.len() - i,
        {
            proof {
                assert(names.skip(i as int)[0] == names[i as int]);
                assert(names.skip(i as int).skip(1) =~= names.skip(i + 1));
            }
            let name = &pc.precedence[i];
            if tool.installers.contains_key(name) && self.knowledge.installers.contains_key(
                name,
            ) {
                proof {
                    assert(names.skip(i as int)[0]@ == names[i as int]@);
                    assert(spec_first_precedence(
                        names.skip(i as int),
                        *tool,
                        self.knowledge.installers,
                    ) == Some(names[i as int]@));
                }
                return Ok(name.clone());
            }
            i = i + 1;
        }
        proof {
            assert(names.skip(names.len() as int) =~= Seq::<String>::empty());
        }
        Err(
            InstallError::NoInstallerAvailable(tool_name.clone(), self.platform.os.clone()),
        )
    }

    /// Decide what an install request must do. A tool already on record
    /// is skipped outright unless a different installer is explicitly
    /// requested, in which case the old install is replaced; a tool not
    /// on record is installed through the requested installer, or
    /// through the platform precedence when none is named. Skipping runs
    /// nothing: re-running an install for a recorded tool with no
    /// explicit installer is a no-op.
    pub fn plan_install(&self, facts: &Facts, tool_name: &String, installer_name: Option<
        &String,
    >) -> (r: Result<InstallPlan, InstallError>)
        ensures
            (match facts.tools.spec_get(tool_name@) {
                Some(f) => (match installer_name {
                    None => r matches Ok(InstallPlan::Skip(v)) && (match v {
                        Some(vs) => f.version matches Some(fv) && fv@ == vs@,
                        None => f.version is None,
                    }),
                    Some(req) => if req@ == f.installer@ {
                        r matches Ok(InstallPlan::Skip(v)) && (match v {
                            Some(vs) => f.version matches Some(fv) && fv@ == vs@,
                            None => f.version is None,
                        })
                    } else {
                        self.spec_validates_installer(tool_name@, Some(req@), r) && (match r {
                            Ok(p) => p matches InstallPlan::Replace(old_inst, new_inst)
                                && old_inst@ == f.installer@ && new_inst@ == req@,
                            Err(_) => true,
                        })
                    },
                }),
                None => self.spec_validates_installer(
                    tool_name@,
                    (match installer_name {
                        Some(req) => Some(req@),
                        None => None,
                    }),
                    r,
                ) && (forall|a: String, b: String|
                    r != Ok::<InstallPlan, InstallError>(InstallPlan::Replace(a, b))),
            }),
    {
        let existing = facts.tools.get(tool_name);
        match existing {
            Some(f) => {
                match installer_name {
                    None => {
                        let v = match &f.version {
                            Some(vs) => Some(vs.clone()),
                            None => None,
                        };
                        return Ok(InstallPlan::Skip(v));
                    },
                    Some(req) => {
                        if *req == f.installer {
                            let v = match &f.version {
                                Some(vs) => Some(vs.clone()),
                                None => None,
                            };
                            return Ok(InstallPlan::Skip(v));
                        }
                        let chosen = self.resolve_installer(tool_name, Some(req))?;
                        return Ok(InstallPlan::Replace(f.installer.clone(), chosen));
                    },
                }
            },
            None => {
                let chosen = self.resolve_installer(tool_name, installer_name)?;
                Ok(InstallPlan::Fresh(chosen))
            },
        }
    }

    /// What a correct installer resolution looks like: the result is the
    /// requested installer when the tool supports it and the knowledge
    /// base defines it, the platform's first applicable precedence entry
    /// when none is requested, and the matching error otherwise.
    pub open spec fn spec_validates_installer(
        &self,
        tool_name: Seq<char>,
        requested: Option<Seq<char>>,
        r: Result<InstallPlan, InstallError>,
    ) -> bool {
        match self.knowledge.tools.spec_get(tool_name) {
            None => r matches Err(InstallError::UnknownTool(t)) && t@ == tool_name,
            Some(tool) => match requested {
                Some(req) => {
                    if tool.installers.spec_get(req) is None {
                        r matches Err(InstallError::UnsupportedInstaller(t, n)) && t@ == tool_name
                            && n@ == req
                    } else if self.knowledge.installers.spec_get(req) is None {
                        r matches Err(InstallError::UnknownInstaller(n)) && n@ == req
                    } else {
                        (r matches Ok(InstallPlan::Fresh(n)) && n@ == req) || (r matches Ok(
                            InstallPlan::Replace(_, n),
                        ) && n@ == req)
                    }
                },
                None => match self.knowledge.platforms.spec_get(self.platform.os@) {
                    None => r matches Err(InstallError::NoPlatformConfig(p)) && p@
                        == self.platform.os@,
                    Some(pc) => match spec_first_precedence(
                        pc.precedence@,
                        tool,
                        self.knowledge.installers,
                    ) {
                        Some(n) => (r matches Ok(InstallPlan::Fresh(m)) && m@ == n) || (
                        r matches Ok(InstallPlan::Replace(_, m)) && m@ == n),
                        None => r matches Err(InstallError::NoInstallerAvailable(t, p)) && t@
                            == tool_name && p@ == self.platform.os@,
                    },
                },
            },
        }
    }

    /// Resolve which installer an install will use, validating the
    /// requested name or walking the platform precedence.
    fn resolve_installer(&self, tool_name: &String, installer_name: Option<&String>) -> (r:
        Result<String, InstallError>)
        ensures
            (match r {
                Ok(n) => self.spec_validates_installer(
                    tool_name@,
                    (match installer_name {
                        Some(req) => Some(req@),
                        None => None,
                    }),
                    Ok(InstallPlan::Fresh(n)),
                ),
                Err(e) => self.spec_validates_installer(
                    tool_name@,
                    (match installer_name {
                        Some(req) => Some(req@),
                        None => None,
                    }),
                    Err(e),
                ),
            }),
    {
        let tool = match self.knowledge.tools.get(tool_name) {
            Some(t) => t,
            None => {
                return Err(InstallError::UnknownTool(tool_name.clone()));
            },
        };
        match installer_name {
            Some(req) => {
                if !tool.installers.contains_key(req) {
                    return Err(
                        InstallError::UnsupportedInstaller(tool_name.clone(), req.clone()),
                    );
                }
                if !self.knowledge.installers.contains_key(req) {
                    return Err(InstallError::UnknownInstaller(req.clone()));
                }
                Ok(req.clone())
            },
            None => self.find_best_installer(tool_name, tool),
        }
    }

    /// The availability check to run for an installer, if any: script
    /// installers are never checked, and others only when they declare a
    /// check command.
    pub fn availability_check(&self, installer: &Installer) -> (r: Option<Vec<String>>)
        ensures
            (match r {
                Some(cmd) => installer.installer_type@ != "script"@ && (
                installer.check matches Some(c) && cmd@ == c@),
                None => installer.installer_type@ == "script"@ || installer.check is None,
            }),
    {
        let ty = crate::text::chars_of(installer.installer_type.as_str());
        if crate::text::chars_eq(&ty, &crate::text::chars_of("script")) {
            return None;
        }
        match &installer.check {
            Some(c) => {
                let mut copy: Vec<String> = Vec::new();
                let mut i: usize = 0;
                while i < c.len()
                    invariant
                        i <= c@.len(),
                        copy@ == c@.subrange(0, i as int),
                    decreases c@.len() - i,
                {
                    copy.push(c[i].clone());
                    i = i + 1;
                    proof {
                        assert(copy@ =~= c@.subrange(0, i as int));
                    }
                }
                proof {
                    assert(copy@ =~= c@);
                }
                Some(copy)
            },
            None => None,
        }
    }

    /// The first tool whose `provides` list holds the given executable
    /// name, scanning the knowledge base in order.
    pub fn find_tool_that_provides(&self, command: &String) -> (r: Option<String>)
        ensures
            (match r {
                Some(name) => exists|i: int|
                    #![auto]
                    0 <= i < self.knowledge.tools.entries@.len()
                        && self.knowledge.tools.entries@[i].0@ == name@
                        && self.knowledge.tools.entries@[i].1.provides@.map_values(
                        |s: String| s@,
                    ).contains(command@),
                None => forall|i: int|
                    0 <= i < self.knowledge.tools.entries@.len()
                        ==> !(#[trigger] self.knowledge.tools.entries@[i]).1.provides@.map_values(
                        |s: String| s@,
                    ).contains(command@),
            }),
    {
        let mut i: usize = 0;
        while i < self.knowledge.tools.len()
            invariant
                i <= self.knowledge.tools.entries@.len(),
                forall|j: int|
                    0 <= j < i ==> !(#[trigger] self.knowledge.tools.entries@[j]).1.provides@
                        .map_values(|s: String| s@).contains(command@),
            decreases self.knowledge.tools.entries@.len() - i,
        {
            let pair = self.knowledge.tools.entry_at(i);
            let ghost pv = pair.1.provides@.map_values(|s: String| s@);
            let mut found = false;
            let mut k: usize = 0;
            while k < pair.1.provides.len()
                invariant
                    pv == pair.1.provides@.map_values(|s: String| s@),
                    k <= pair.1.provides@.len(),
                    found == exists|j: int| 0 <= j < k && #[trigger] pv[j] == command@,
                decreases pair.1.provides@.len() - k,
            {
                proof {
                    assert(pv[k as int] == pair.1.provides@[k as int]@);
                }
                if pair.1.provides[k] == *command {
                    found = true;
                }
                k = k + 1;
            }
            if found {
                proof {
                    assert(pv.contains(command@));
                }
                return Some(pair.0.clone());
            }
            proof {
                assert forall|j: int| 0 <= j < pv.len() implies #[trigger] pv[j] != command@ by {}
                assert(!pv.contains(command@));
            }
            i = i + 1;
        }
        None
    }

    /// The tool's description, for explaining why it exists.
    pub fn why(&self, tool_name: &String) -> (r: Result<String, InstallError>)
        ensures
            (match self.knowledge.tools.spec_get(tool_name@) {
                Some(t) => r matches Ok(d) && d@ == t.description@,
                None => r matches Err(InstallError::UnknownTool(t)) && t@ == tool_name@,
            }),
    {
        match self.knowledge.tools.get(tool_name) {
            Some(t) => Ok(t.description.clone()),
            None => Err(InstallError::UnknownTool(tool_name.clone())),
        }
    }
}

/// Whether an update is due: only when both the recorded version and the
/// latest version are known and differ.
pub fn has_update(current: &Option<String>, latest: &Option<String>) -> (r: bool)
    ensures
        r == (match (current, latest) {
            (Some(c), Some(l)) => c@ != l@,
            _ => false,
        }),
{
    match (current, latest) {
        (Some(c), Some(l)) => *c != *l,
        _ => false,
    }
}

/// Finish a script install and record its outcome in one step: a failed
/// script or an unconfirmed version changes no facts and surfaces the
/// matching error — in particular, when every probe failed, the
/// operation reports the failed version detection and leaves no fact for
/// the tool; a confirmed version is recorded.
pub fn finish_script_install(
    facts: &mut Facts,
    tool_name: &String,
    installer_name: &String,
    script_success: bool,
    script_stderr: &str,
    probed_version: Option<String>,
    tool: &Tool,
    now: i64,
) -> (r: Result<InstallResult, InstallError>)
    ensures
        !script_success ==> (r matches Err(InstallError::ScriptFailed(m)) && m@
            == script_stderr@) && *final(facts) == *old(facts),
        script_success ==> (match probed_version {
            None => (r matches Err(InstallError::VersionDetectionFailed(t)) && t@ == tool_name@)
                && *final(facts) == *old(facts),
            Some(v) => (r matches Ok(res) && res.version@ == v@) && (match final(facts).tools.spec_get(
                tool_name@,
            ) {
                Some(f) => f.installer@ == installer_name@ && (f.version matches Some(fv) && fv@
                    == v@) && f.installed_at == now,
                None => false,
            }),
        }),
        script_success && probed_version is None && old(facts).tools.spec_get(tool_name@) is None
            ==> final(facts).tools.spec_get(tool_name@) is None,
        forall|n: Seq<char>|
            n != tool_name@ ==> final(facts).tools.spec_get(n) == old(facts).tools.spec_get(n),
{
    let outcome = script_install_outcome(
        script_success,
        script_stderr,
        probed_version,
        tool_name.as_str(),
        tool,
    );
    facts.record_outcome(tool_name, installer_name, &outcome, now);
    outcome
}

/// Everything an uninstall must touch, decided from the record and the
/// knowledge base.
pub struct UninstallPlan {
    /// The executables recorded at install time, to delete from the
    /// local binary directory.
    pub executables: Vec<String>,
    /// The expanded uninstall command of the recorded installer, when it
    /// declares one.
    pub command: Option<Vec<String>>,
    /// The uninstall script for this platform, when the recorded
    /// installer is a script installer without an uninstall command.
    pub script: Option<String>,
    /// The other recorded tools installed through an installer this tool
    /// provides; their records go away with it.
    pub dependents: Vec<String>,
}

/// An override with nothing set, as spec value: what expansion uses when
/// the tool carries no override for the recorded installer.
pub open spec fn spec_default_override() -> ToolInstaller {
    ToolInstaller {
        package: None,
        repo: None,
        pattern: None,
        url: None,
        linux: None,
        macos: None,
        windows: None,
    }
}

impl Forge {
    /// Decide what uninstalling a tool must do: nothing when it is not
    /// on record; otherwise the recorded executables are removed, the
    /// recorded installer's uninstall command is expanded (falling back
    /// to the platform's uninstall script for script installers), and
    /// every dependent record goes too.
    pub fn plan_uninstall(&self, facts: &Facts, tool_name: &String) -> (r: Option<UninstallPlan>)
        ensures
            (match facts.tools.spec_get(tool_name@) {
                None => r is None,
                Some(f) => (match r {
                    None => false,
                    Some(p) => {
                        let cfg = (match self.knowledge.tools.spec_get(tool_name@) {
                            Some(t) => (match t.installers.spec_get(f.installer@) {
                                Some(c) => c,
                                None => spec_default_override(),
                            }),
                            None => spec_default_override(),
                        });
                        let provides = (match self.knowledge.tools.spec_get(tool_name@) {
                            Some(t) => t.provides@.map_values(|s: String| s@),
                            None => Seq::<Seq<char>>::empty(),
                        });
                        (match f.executables {
                            Some(e) => p.executables@.map_values(|s: String| s@) == e@.map_values(
                                |s: String| s@,
                            ),
                            None => p.executables@.len() == 0,
                        }) && (match self.knowledge.installers.spec_get(f.installer@) {
                            None => p.command is None && p.script is None,
                            Some(inst) => (match inst.uninstall {
                                Some(cmd) => (match p.command {
                                    Some(c) => p.script is None && c@.len() == cmd@.len() && (
                                    forall|k: int|
                                        0 <= k < c@.len() ==> (#[trigger] c@[k])@ == spec_expand(
                                            cmd@[k]@,
                                            tool_name@,
                                            cfg,
                                            None,
                                            self.platform.os@,
                                            self.platform.arch@,
                                        )),
                                    None => false,
                                }),
                                None => p.command is None && (
                                if inst.installer_type@ == "script"@ {
                                    match crate::backend::platform_scripts_view(
                                        cfg,
                                        self.platform.os@,
                                    ) {
                                        Some(scripts) => (match scripts.uninstall {
                                            Some(u) => p.script matches Some(s) && s@ == u@,
                                            None => p.script is None,
                                        }),
                                        None => p.script is None,
                                    }
                                } else {
                                    p.script is None
                                }),
                            }),
                        }) && p.dependents@.map_values(|s: String| s@) == spec_dependents(
                            facts.tools.entries@,
                            tool_name@,
                            provides,
                        )
                    },
                }),
            }),
    {
        let f = match facts.tools.get(tool_name) {
            Some(f) => f,
            None => {
                return None;
            },
        };
        let executables: Vec<String> = match &f.executables {
            Some(e) => {
                let mut copy: Vec<String> = Vec::new();
                let mut i: usize = 0;
                while i < e.len()
                    invariant
                        i <= e@.len(),
                        copy@ == e@.subrange(0, i as int),
                    decreases e@.len() - i,
                {
                    copy.push(e[i].clone());
                    i = i + 1;
                    proof {
                        assert(copy@ =~= e@.subrange(0, i as int));
                    }
                }
                proof {
                    assert(copy@ =~= e@);
                    assert(copy@.map_values(|s: String| s@) =~= e@.map_values(|s: String| s@));
                }
                copy
            },
            None => Vec::new(),
        };
        let tool = self.knowledge.tools.get(tool_name);
        let provides: Vec<String> = match tool {
            Some(t) => {
                let mut copy: Vec<String> = Vec::new();
                let mut i: usize = 0;
                while i < t.provides.len()
                    invariant
                        i <= t.provides@.len(),
                        copy@ == t.provides@.subrange(0, i as int),
                    decreases t.provides@.len() - i,
                {
                    copy.push(t.provides[i].clone());
                    i = i + 1;
                    proof {
                        assert(copy@ =~= t.provides@.subrange(0, i as int));
                    }
                }
                proof {
                    assert(copy@ =~= t.provides@);
                    assert(copy@.map_values(|s: String| s@) =~= t.provides@.map_values(
                        |s: String| s@,
                    ));
                }
                copy
            },
            None => Vec::new(),
        };
        proof {
            if self.knowledge.tools.spec_get(tool_name@) is None {
                assert(provides@.map_values(|s: String| s@) =~= Seq::<Seq<char>>::empty());
            }
        }
        let default_override = ToolInstaller::empty();
        let config: &ToolInstaller = match tool {
            Some(t) => match t.installers.get(&f.installer) {
                Some(c) => c,
                None => &default_override,
            },
            None => &default_override,
        };
        let mut command: Option<Vec<String>> = None;
        let mut script: Option<String> = None;
        match self.knowledge.installers.get(&f.installer) {
            Some(inst) => {
                match &inst.uninstall {
                    Some(cmd) => {
                        let mut out: Vec<String> = Vec::new();
                        let mut i: usize = 0;
                        while i < cmd.len()
                            invariant
                                i <= cmd@.len(),
                                out@.len() == i,
                                forall|k: int|
                                    0 <= k < i ==> (#[trigger] out@[k])@ == spec_expand(
                                        cmd@[k]@,
                                        tool_name@,
                                        *config,
                                        None,
                                        self.platform.os@,
                                        self.platform.arch@,
                                    ),
                            decreases cmd@.len() - i,
                        {
                            let part = expand_template(
                                cmd[i].as_str(),
                                tool_name.as_str(),
                                config,
                                None,
                                &self.platform,
                            );
                            out.push(part);
                            i = i + 1;
                        }
                        command = Some(out);
                    },
                    None => {
                        let ty = crate::text::chars_of(inst.installer_type.as_str());
                        if crate::text::chars_eq(&ty, &crate::text::chars_of("script")) {
                            match crate::backend::platform_scripts(config, &self.platform) {
                                Some(scripts) => {
                                    match &scripts.uninstall {
                                        Some(u) => {
                                            script = Some(u.clone());
                                        },
                                        None => {},
                                    }
                                },
                                None => {},
                            }
                        }
                    },
                }
            },
            None => {},
        }
        let dependents = dependent_tools(facts, tool_name, &provides);
        Some(UninstallPlan { executables, command, script, dependents })
    }
}

/// What updating an installer's provider amounts to: run the update
/// script of the tool's script override on this platform, or the
/// expanded update command of the installer, or nothing when neither is
/// declared.
pub enum UpdateWork {
    /// Run this script through the shell.
    Script(String),
    /// Run this argument list.
    Command(Vec<String>),
    /// Nothing is declared; do nothing.
    Nothing,
}

/// The recorded installers, first occurrence of each, in record order.
pub open spec fn spec_unique_installers(
    entries: Seq<(String, crate::facts::ToolFact)>,
    seen: Seq<Seq<char>>,
) -> Seq<Seq<char>>
    decreases entries.len(),
{
    if entries.len() == 0 {
        Seq::empty()
    } else if seen.contains(entries[0].1.installer@) {
        spec_unique_installers(entries.skip(1), seen)
    } else {
        seq![entries[0].1.installer@] + spec_unique_installers(
            entries.skip(1),
            seen.push(entries[0].1.installer@),
        )
    }
}

/// The installers the recorded tools were installed through, one entry
/// each, in first-occurrence order.
pub fn unique_installers(facts: &Facts) -> (r: Vec<String>)
    ensures
        r@.map_values(|s: String| s@) == spec_unique_installers(
            facts.tools.entries@,
            Seq::empty(),
        ),
{
    let ghost entries = facts.tools.entries@;
    let mut out: Vec<String> = Vec::new();
    let mut i: usize = 0;
    proof {
        assert(entries.skip(0) =~= entries);
        assert(out@.map_values(|s: String| s@) =~= Seq::<Seq<char>>::empty());
        assert(out@.map_values(|s: String| s@) + spec_unique_installers(
            entries,
            out@.map_values(|s: String| s@),
        ) =~= spec_unique_installers(entries, Seq::empty()));
    }
    while i < facts.tools.len()
        invariant
            entries == facts.tools.entries@,
            i <= entries.len(),
            spec_unique_installers(entries, Seq::empty()) == out@.map_values(|s: String| s@)
                + spec_unique_installers(entries.skip(i as int), out@.map_values(|s: String| s@)),
        decreases entries.len() - i,
    {
        let pair = facts.tools.entry_at(i);
        let ghost seen = out@.map_values(|s: String| s@);
        proof {
            assert(entries.skip(i as int)[0] == entries[i as int]);
            assert(entries.skip(i as int).skip(1) =~= entries.skip(i + 1));
        }
        let mut found = false;
        let mut k: usize = 0;
        while k < out.len()
            invariant
                seen == out@.map_values(|s: String| s@),
                k <= out@.len(),
                found == exists|j: int| 0 <= j < k && #[trigger] seen[j] == pair.1.installer@,
            decreases out@.len() - k,
        {
            proof {
                assert(seen[k as int] == out@[k as int]@);
            }
            if out[k] == pair.1.installer {
                found = true;
            }
            k = k + 1;
        }
        proof {
            if found {
                assert(seen.contains(pair.1.installer@));
            } else {
                assert forall|j: int| 0 <= j < seen.len() implies #[trigger] seen[j]
                    != pair.1.installer@ by {}
                assert(!seen.contains(pair.1.installer@));
            }
        }
        if !found {
            proof {
                assert(spec_unique_installers(entries.skip(i as int), seen) == seq![
                    entries[i as int].1.installer@,
                ] + spec_unique_installers(entries.skip(i + 1), seen.push(
                    entries[i as int].1.installer@,
                )));
            }
            let ghost m0 = out@.map_values(|s: String| s@);
            out.push(pair.1.installer.clone());
            proof {
                assert(out@.map_values(|s: String| s@) =~= m0.push(entries[i as int].1.installer@));
                assert(m0 + (seq![entries[i as int].1.installer@] + spec_unique_installers(
                    entries.skip(i + 1),
                    m0.push(entries[i as int].1.installer@),
                )) =~= out@.map_values(|s: String| s@) + spec_unique_installers(
                    entries.skip(i + 1),
                    out@.map_values(|s: String| s@),
                ));
            }
        } else {
            proof {
                assert(spec_unique_installers(entries.skip(i as int), seen)
                    == spec_unique_installers(entries.skip(i + 1), seen));
            }
        }
        i = i + 1;
    }
    proof {
        assert(entries.skip(entries.len() as int) =~= Seq::<(String, crate::facts::ToolFact)>::empty());
        assert(spec_unique_installers(
            Seq::<(String, crate::facts::ToolFact)>::empty(),
            out@.map_values(|s: String| s@),
        ) =~= Seq::<Seq<char>>::empty());
        assert(out@.map_values(|s: String| s@) + Seq::<Seq<char>>::empty() =~= out@.map_values(
            |s: String| s@,
        ));
    }
    out
}

impl Forge {
    /// Decide how to update the provider of an installer: the update
    /// script of the tool's script override for this platform when the
    /// installer is the script installer, the installer's expanded
    /// update command otherwise, and nothing when the pieces are not
    /// declared.
    pub fn plan_installer_update(&self, tool_name: &String, installer_name: &String) -> (r:
        UpdateWork)
        ensures
            installer_name@ == "script"@ ==> (match self.knowledge.tools.spec_get(tool_name@) {
                None => r is Nothing,
                Some(t) => (match t.installers.spec_get("script"@) {
                    None => r is Nothing,
                    Some(c) => (match crate::backend::platform_scripts_view(
                        c,
                        self.platform.os@,
                    ) {
                        None => r is Nothing,
                        Some(ps) => (match ps.update {
                            None => r is Nothing,
                            Some(u) => r matches UpdateWork::Script(s) && s@ == u@,
                        }),
                    }),
                }),
            }),
            installer_name@ != "script"@ ==> (match self.knowledge.installers.spec_get(
                installer_name@,
            ) {
                None => r is Nothing,
                Some(inst) => (match inst.update {
                    None => r is Nothing,
                    Some(cmd) => (match self.knowledge.tools.spec_get(tool_name@) {
                        None => r is Nothing,
                        Some(t) => (match t.installers.spec_get(installer_name@) {
                            None => r is Nothing,
                            Some(cfg) => r matches UpdateWork::Command(c) && c@.len()
                                == cmd@.len() && (forall|k: int|
                                0 <= k < c@.len() ==> (#[trigger] c@[k])@ == spec_expand(
                                    cmd@[k]@,
                                    tool_name@,
                                    cfg,
                                    None,
                                    self.platform.os@,
                                    self.platform.arch@,
                                )),
                        }),
                    }),
                }),
            }),
    {
        let name_chars = crate::text::chars_of(installer_name.as_str());
        if crate::text::chars_eq(&name_chars, &crate::text::chars_of("script")) {
            let tool = match self.knowledge.tools.get(tool_name) {
                Some(t) => t,
                None => {
                    return UpdateWork::Nothing;
                },
            };
            let script_key = "script".to_owned();
            let config = match tool.installers.get(&script_key) {
                Some(c) => c,
                None => {
                    return UpdateWork::Nothing;
                },
            };
            match crate::backend::platform_scripts(config, &self.platform) {
                Some(scripts) => match &scripts.update {
                    Some(u) => UpdateWork::Script(u.clone()),
                    None => UpdateWork::Nothing,
                },
                None => UpdateWork::Nothing,
            }
        } else {
            let inst = match self.knowledge.installers.get(installer_name) {
                Some(i) => i,
                None => {
                    return UpdateWork::Nothing;
                },
            };
            let cmd = match &inst.update {
                Some(c) => c,
                None => {
                    return UpdateWork::Nothing;
                },
            };
            let tool = match self.knowledge.tools.get(tool_name) {
                Some(t) => t,
                None => {
                    return UpdateWork::Nothing;
                },
            };
            let config = match tool.installers.get(installer_name) {
                Some(c) => c,
                None => {
                    return UpdateWork::Nothing;
                },
            };
            let mut out: Vec<String> = Vec::new();
            let mut i: usize = 0;
            while i < cmd.len()
                invariant
                    i <= cmd@.len(),
                    out@.len() == i,
                    forall|k: int|
                        0 <= k < i ==> (#[trigger] out@[k])@ == spec_expand(
                            cmd@[k]@,
                            tool_name@,
                            *config,
                            None,
                            self.platform.os@,
                            self.platform.arch@,
                        ),
                decreases cmd@.len() - i,
            {
                let part = expand_template(
                    cmd[i].as_str(),
                    tool_name.as_str(),
                    config,
                    None,
                    &self.platform,
                );
                out.push(part);
                i = i + 1;
            }
            UpdateWork::Command(out)
        }
    }
}

} // verus!
