//! The install executor: template expansion over the per-tool installer
//! overrides, and the command-installer path from expanded command to
//! extracted version.

use crate::command::{CmdOutput, CommandRunner};
use crate::error::InstallError;
use crate::knowledge::{Installer, PlatformScripts, Tool, ToolInstaller};
use crate::platform::{spec_expand_platform, spec_target_triple, Platform};
use crate::template::{
    good_tok, no_brace, prefix_free, replace_seq, subst_sim, wf_from,
    lemma_replace_all_tokens, lemma_sequential_is_simultaneous,
};
use crate::text::{chars_of, contains_seq, replace_chars, spec_replace, starts_with_seq, string_of};
use crate::version::{capture_of, spec_extract_version, extract_version, extract_with_pattern};
use vstd::prelude::*;
use vstd::string::StringExecFns;

verus! {

/// What a successful install reports: the installed version, and the
/// executables placed on the system where the installer knows them.
pub struct InstallResult {
    pub version: String,
    pub executables: Option<Vec<String>>,
}

/// The placeholder tokens the template expander recognizes, in the order
/// they are substituted.
pub open spec fn expansion_tokens() -> Seq<Seq<char>> {
    seq![
        "{tool}"@,
        "{package}"@,
        "{repo}"@,
        "{pattern}"@,
        "{url}"@,
        "{version}"@,
        "{os}"@,
        "{arch}"@,
        "{target}"@,
    ]
}

/// Full template expansion: the six tool-level tokens in order, then the
/// three platform tokens.
pub open spec fn spec_expand_template(
    template: Seq<char>,
    tool: Seq<char>,
    package: Seq<char>,
    repo: Seq<char>,
    pattern: Seq<char>,
    url: Seq<char>,
    version: Seq<char>,
    os: Seq<char>,
    arch: Seq<char>,
) -> Seq<char> {
    spec_expand_platform(
        spec_replace(
            spec_replace(
                spec_replace(
                    spec_replace(
                        spec_replace(spec_replace(template, "{tool}"@, tool), "{package}"@, package),
                        "{repo}"@,
                        repo,
                    ),
                    "{pattern}"@,
                    pattern,
                ),
                "{url}"@,
                url,
            ),
            "{version}"@,
            version,
        ),
        os,
        arch,
    )
}

/// The package value an override resolves to: the explicit package, or
/// the tool's own name.
pub open spec fn spec_resolved_package(config: ToolInstaller, tool: Seq<char>) -> Seq<char> {
    match config.package {
        Some(p) => p@,
        None => tool,
    }
}

/// Template expansion with the override's fields resolved to their
/// defaults: package falls back to the tool name, repo and url to the
/// empty string, pattern to `*`, and the version to the literal
/// `latest`.
pub open spec fn spec_expand(
    template: Seq<char>,
    tool: Seq<char>,
    config: ToolInstaller,
    version: Option<Seq<char>>,
    os: Seq<char>,
    arch: Seq<char>,
) -> Seq<char> {
    spec_expand_template(
        template,
        tool,
        spec_resolved_package(config, tool),
        (match config.repo {
            Some(x) => x@,
            None => ""@,
        }),
        (match config.pattern {
            Some(x) => x@,
            None => "*"@,
        }),
        (match config.url {
            Some(x) => x@,
            None => ""@,
        }),
        (match version {
            Some(v) => v,
            None => "latest"@,
        }),
        os,
        arch,
    )
}

/// The view of an optional borrowed string.
pub open spec fn spec_opt_view(o: Option<&str>) -> Option<Seq<char>> {
    match o {
        Some(s) => Some(s@),
        None => None,
    }
}

/// Substitute every recognized placeholder in `template`: tool-level
/// tokens from the tool name, the override and the explicit version, then
/// the platform tokens.
pub fn expand_template(
    template: &str,
    tool_name: &str,
    config: &ToolInstaller,
    version: Option<&str>,
    platform: &Platform,
) -> (r: String)
    ensures
        r@ == spec_expand_template(
            template@,
            tool_name@,
            spec_resolved_package(*config, tool_name@),
            (match config.repo {
                Some(x) => x@,
                None => ""@,
            }),
            (match config.pattern {
                Some(x) => x@,
                None => "*"@,
            }),
            (match config.url {
                Some(x) => x@,
                None => ""@,
            }),
            (match version {
                Some(v) => v@,
                None => "latest"@,
            }),
            platform.os@,
            platform.arch@,
        ),
{
    let t0 = chars_of(template);
    let tool = chars_of(tool_name);
    let package = match &config.package {
        Some(p) => chars_of(p.as_str()),
        None => chars_of(tool_name),
    };
    let repo = match &config.repo {
        Some(x) => chars_of(x.as_str()),
        None => chars_of(""),
    };
    let pattern = match &config.pattern {
        Some(x) => chars_of(x.as_str()),
        None => chars_of("*"),
    };
    let url = match &config.url {
        Some(x) => chars_of(x.as_str()),
        None => chars_of(""),
    };
    let version_value = match version {
        Some(v) => chars_of(v),
        None => chars_of("latest"),
    };
    let s1 = replace_chars(&t0, &chars_of("{tool}"), &tool);
    let s2 = replace_chars(&s1, &chars_of("{package}"), &package);
    let s3 = replace_chars(&s2, &chars_of("{repo}"), &repo);
    let s4 = replace_chars(&s3, &chars_of("{pattern}"), &pattern);
    let s5 = replace_chars(&s4, &chars_of("{url}"), &url);
    let s6 = replace_chars(&s5, &chars_of("{version}"), &version_value);
    let expanded = string_of(&s6);
    platform.expand_pattern(expanded.as_str())
}

/// Every recognized placeholder token has the token shape: it opens with
/// `{` and contains no further `{`.
pub proof fn lemma_expansion_tokens_good()
    ensures
        forall|j: int|
            0 <= j < expansion_tokens().len() ==> good_tok(#[trigger] expansion_tokens()[j]),
{
    reveal_strlit("{tool}");
    reveal_strlit("{package}");
    reveal_strlit("{repo}");
    reveal_strlit("{pattern}");
    reveal_strlit("{url}");
    reveal_strlit("{version}");
    reveal_strlit("{os}");
    reveal_strlit("{arch}");
    reveal_strlit("{target}");
    assert(good_tok("{tool}"@));
    assert(good_tok("{package}"@));
    assert(good_tok("{repo}"@));
    assert(good_tok("{pattern}"@));
    assert(good_tok("{url}"@));
    assert(good_tok("{version}"@));
    assert(good_tok("{os}"@));
    assert(good_tok("{arch}"@));
    assert(good_tok("{target}"@));
    assert forall|j: int|
        0 <= j < expansion_tokens().len() implies good_tok(#[trigger] expansion_tokens()[j]) by {
        if j == 0 {
            assert(expansion_tokens()[0] == "{tool}"@);
        } else if j == 1 {
            assert(expansion_tokens()[1] == "{package}"@);
        } else if j == 2 {
            assert(expansion_tokens()[2] == "{repo}"@);
        } else if j == 3 {
            assert(expansion_tokens()[3] == "{pattern}"@);
        } else if j == 4 {
            assert(expansion_tokens()[4] == "{url}"@);
        } else if j == 5 {
            assert(expansion_tokens()[5] == "{version}"@);
        } else if j == 6 {
            assert(expansion_tokens()[6] == "{os}"@);
        } else if j == 7 {
            assert(expansion_tokens()[7] == "{arch}"@);
        } else {
            assert(expansion_tokens()[8] == "{target}"@);
        }
    }
}

/// A derived target triple never contains an opening brace.
pub proof fn lemma_target_triple_no_brace(os: Seq<char>, arch: Seq<char>)
    requires
        no_brace(os),
        no_brace(arch),
    ensures
        no_brace(spec_target_triple(os, arch)),
{
    reveal_strlit("x86_64-unknown-linux-gnu");
    reveal_strlit("aarch64-unknown-linux-gnu");
    reveal_strlit("x86_64-apple-darwin");
    reveal_strlit("aarch64-apple-darwin");
    reveal_strlit("unknown");
    assert(no_brace("x86_64-unknown-linux-gnu"@));
    assert(no_brace("aarch64-unknown-linux-gnu"@));
    assert(no_brace("x86_64-apple-darwin"@));
    assert(no_brace("aarch64-apple-darwin"@));
    assert(no_brace("unknown"@));
}

/// Template expansion is total: when every `{` in the template begins one
/// of the nine recognized placeholder tokens and none of the substituted
/// values contains `{`, the expansion contains no `{`, and therefore no
/// recognized placeholder token remains in it.
pub proof fn lemma_expansion_leaves_no_tokens(
    template: Seq<char>,
    tool: Seq<char>,
    package: Seq<char>,
    repo: Seq<char>,
    pattern: Seq<char>,
    url: Seq<char>,
    version: Seq<char>,
    os: Seq<char>,
    arch: Seq<char>,
)
    requires
        wf_from(template, expansion_tokens(), 0),
        no_brace(tool),
        no_brace(package),
        no_brace(repo),
        no_brace(pattern),
        no_brace(url),
        no_brace(version),
        no_brace(os),
        no_brace(arch),
    ensures
        no_brace(
            spec_expand_template(template, tool, package, repo, pattern, url, version, os, arch),
        ),
        forall|j: int|
            0 <= j < expansion_tokens().len() ==> !contains_seq(
                spec_expand_template(
                    template,
                    tool,
                    package,
                    repo,
                    pattern,
                    url,
                    version,
                    os,
                    arch,
                ),
                #[trigger] expansion_tokens()[j],
            ),
{
    let toks = expansion_tokens();
    let target = spec_target_triple(os, arch);
    let vals = seq![tool, package, repo, pattern, url, version, os, arch, target];
    lemma_expansion_tokens_good();
    lemma_target_triple_no_brace(os, arch);
    assert forall|j: int| 0 <= j < vals.len() implies no_brace(#[trigger] vals[j]) by {
        if j == 0 {
            assert(vals[0] == tool);
        } else if j == 1 {
            assert(vals[1] == package);
        } else if j == 2 {
            assert(vals[2] == repo);
        } else if j == 3 {
            assert(vals[3] == pattern);
        } else if j == 4 {
            assert(vals[4] == url);
        } else if j == 5 {
            assert(vals[5] == version);
        } else if j == 6 {
            assert(vals[6] == os);
        } else if j == 7 {
            assert(vals[7] == arch);
        } else {
            assert(vals[8] == target);
        }
    }
    let s1 = spec_replace(template, toks[0], vals[0]);
    let s2 = spec_replace(s1, toks[1], vals[1]);
    let s3 = spec_replace(s2, toks[2], vals[2]);
    let s4 = spec_replace(s3, toks[3], vals[3]);
    let s5 = spec_replace(s4, toks[4], vals[4]);
    let s6 = spec_replace(s5, toks[5], vals[5]);
    let s7 = spec_replace(s6, toks[6], vals[6]);
    let s8 = spec_replace(s7, toks[7], vals[7]);
    let s9 = spec_replace(s8, toks[8], vals[8]);
    assert(replace_seq(template, toks, vals, 0) == replace_seq(s1, toks, vals, 1));
    assert(replace_seq(s1, toks, vals, 1) == replace_seq(s2, toks, vals, 2));
    assert(replace_seq(s2, toks, vals, 2) == replace_seq(s3, toks, vals, 3));
    assert(replace_seq(s3, toks, vals, 3) == replace_seq(s4, toks, vals, 4));
    assert(replace_seq(s4, toks, vals, 4) == replace_seq(s5, toks, vals, 5));
    assert(replace_seq(s5, toks, vals, 5) == replace_seq(s6, toks, vals, 6));
    assert(replace_seq(s6, toks, vals, 6) == replace_seq(s7, toks, vals, 7));
    assert(replace_seq(s7, toks, vals, 7) == replace_seq(s8, toks, vals, 8));
    assert(replace_seq(s8, toks, vals, 8) == replace_seq(s9, toks, vals, 9));
    assert(replace_seq(s9, toks, vals, 9) == s9);
    assert(replace_seq(template, toks, vals, 0) == s9);
    assert(spec_expand_template(template, tool, package, repo, pattern, url, version, os, arch)
        == s9);
    lemma_replace_all_tokens(template, toks, vals);
}

/// The combined output the version extractor sees: stdout, a separating
/// newline, then stderr.
pub open spec fn spec_combined(stdout: Seq<char>, stderr: Seq<char>) -> Seq<char> {
    stdout + "\n"@ + stderr
}

/// Stdout and stderr combined with a separating newline.
pub fn combine_output(stdout: &str, stderr: &str) -> (r: String)
    ensures
        r@ == spec_combined(stdout@, stderr@),
{
    let mut s = stdout.to_owned();
    s.append("\n");
    s.append(stderr);
    s
}

/// What the command-installer path returns once the subprocess outcome is
/// known, as a function of that outcome: a non-zero exit is a command
/// failure carrying stderr; a missing output pattern is a configuration
/// error; otherwise the version is exactly the first capture of the
/// expanded pattern over the combined output, and its absence aborts the
/// install.
pub fn command_install_from_output(
    installer: &Installer,
    tool_name: &str,
    config: &ToolInstaller,
    version: Option<&str>,
    platform: &Platform,
    output: &CmdOutput,
) -> (r: Result<InstallResult, InstallError>)
    ensures
        ({
            let combined = spec_combined(output.stdout@, output.stderr@);
            if !output.success {
                r matches Err(InstallError::CommandFailed(m)) && m@ == output.stderr@
            } else {
                match installer.install_output_pattern {
                    None => r matches Err(InstallError::MissingOutputPattern),
                    Some(pt) => {
                        let expanded = spec_expand(
                            pt@,
                            tool_name@,
                            *config,
                            spec_opt_view(version),
                            platform.os@,
                            platform.arch@,
                        );
                        match capture_of(expanded, combined) {
                            Some(v) => r matches Ok(res) && res.version@ == v
                                && res.executables is None,
                            None => r matches Err(InstallError::NoVersionExtracted(p))
                                && p@ == expanded,
                        }
                    },
                }
            }
        }),
{
    if !output.success {
        return Err(InstallError::CommandFailed(output.stderr.clone()));
    }
    let pattern_template = match &installer.install_output_pattern {
        Some(p) => p,
        None => {
            return Err(InstallError::MissingOutputPattern);
        },
    };
    let pattern = expand_template(pattern_template.as_str(), tool_name, config, version, platform);
    let combined = combine_output(output.stdout.as_str(), output.stderr.as_str());
    match extract_with_pattern(combined.as_str(), pattern.as_str()) {
        Some(v) => Ok(InstallResult { version: v, executables: None }),
        None => Err(InstallError::NoVersionExtracted(pattern)),
    }
}

/// The argument list a command install runs: every part of the
/// installer's install template, expanded for the tool, override,
/// version and platform.
pub fn build_install_command(
    installer: &Installer,
    tool_name: &str,
    tool_config: &ToolInstaller,
    version: Option<&str>,
    platform: &Platform,
) -> (r: Vec<String>)
    ensures
        r@.len() == installer.install@.len(),
        forall|j: int|
            0 <= j < r@.len() ==> (#[trigger] r@[j])@ == spec_expand(
                installer.install@[j]@,
                tool_name@,
                *tool_config,
                spec_opt_view(version),
                platform.os@,
                platform.arch@,
            ),
{
    let mut command: Vec<String> = Vec::new();
    let mut i: usize = 0;
    while i < installer.install.len()
        invariant
            i <= installer.install@.len(),
            command@.len() == i,
            forall|j: int|
                0 <= j < i ==> (#[trigger] command@[j])@ == spec_expand(
                    installer.install@[j]@,
                    tool_name@,
                    *tool_config,
                    spec_opt_view(version),
                    platform.os@,
                    platform.arch@,
                ),
        decreases installer.install@.len() - i,
    {
        let part = expand_template(
            installer.install[i].as_str(),
            tool_name,
            tool_config,
            version,
            platform,
        );
        command.push(part);
        i = i + 1;
    }
    command
}

/// Run a command installer through the given runner: build the argument
/// list with `build_install_command`, run it, and recover the version
/// from the combined output. The runner's behaviour is not modelled, so
/// the contract fixes only what holds of every outcome; what is handed
/// to the runner is fixed by `build_install_command`, and the exact
/// treatment of the output by `command_install_from_output`.
pub fn execute_install_with_runner<R: CommandRunner>(
    installer: &Installer,
    tool_name: &str,
    tool_config: &ToolInstaller,
    version: Option<&str>,
    platform: &Platform,
    runner: &mut R,
) -> (r: Result<InstallResult, InstallError>)
    requires
        installer.install@.len() > 0,
    ensures
        r matches Ok(res) ==> installer.install_output_pattern is Some
            && res.executables is None,
        installer.install_output_pattern is None ==> r is Err,
{
    let command = build_install_command(installer, tool_name, tool_config, version, platform);
    let mut args: Vec<String> = Vec::new();
    let mut j: usize = 1;
    while j < command.len()
        invariant
            1 <= j || command@.len() == 0,
            j <= command@.len() || command@.len() == 0,
        decreases command@.len() - j,
    {
        args.push(command[j].clone());
        j = j + 1;
    }
    let output = match runner.run(&command[0], &args) {
        Ok(o) => o,
        Err(m) => {
            return Err(InstallError::CommandFailed(m));
        },
    };
    command_install_from_output(installer, tool_name, tool_config, version, platform, &output)
}

/// The probe argument lists tried, in order, to confirm an installed
/// tool's version after a script install.
pub open spec fn spec_probe_flag_sets() -> Seq<Seq<Seq<char>>> {
    seq![
        seq!["--version"@],
        seq!["version"@],
        seq!["version"@, "--client"@, "--short"@],
        seq!["-v"@],
        seq!["-V"@],
    ]
}

/// The fixed list of version-flag probes: each inner list is one
/// invocation's arguments.
pub fn probe_flag_sets() -> (r: Vec<Vec<String>>)
    ensures
        r@.map_values(|v: Vec<String>| v@.map_values(|s: String| s@))
            =~~= spec_probe_flag_sets(),
{
    let mut out: Vec<Vec<String>> = Vec::new();
    let mut one: Vec<String> = Vec::new();
    one.push("--version".to_owned());
    out.push(one);
    let mut two: Vec<String> = Vec::new();
    two.push("version".to_owned());
    out.push(two);
    let mut three: Vec<String> = Vec::new();
    three.push("version".to_owned());
    three.push("--client".to_owned());
    three.push("--short".to_owned());
    out.push(three);
    let mut four: Vec<String> = Vec::new();
    four.push("-v".to_owned());
    out.push(four);
    let mut five: Vec<String> = Vec::new();
    five.push("-V".to_owned());
    out.push(five);
    proof {
        let m = out@.map_values(|v: Vec<String>| v@.map_values(|s: String| s@));
        assert(m.len() == 5);
        assert(m[0] =~= spec_probe_flag_sets()[0]);
        assert(m[1] =~= spec_probe_flag_sets()[1]);
        assert(m[2] =~= spec_probe_flag_sets()[2]);
        assert(m[3] =~= spec_probe_flag_sets()[3]);
        assert(m[4] =~= spec_probe_flag_sets()[4]);
    }
    out
}

/// The executable probed to confirm a script install: the first declared
/// `provides` entry, or the tool's own name when none is declared.
pub fn probe_executable(tool_name: &str, tool: &Tool) -> (r: String)
    ensures
        tool.provides@.len() > 0 ==> r@ == tool.provides@[0]@,
        tool.provides@.len() == 0 ==> r@ == tool_name@,
{
    if tool.provides.len() > 0 {
        tool.provides[0].clone()
    } else {
        tool_name.to_owned()
    }
}

/// The version one probe's outcome yields: the fallback cascade over the
/// combined output of a successful probe, nothing from a failed one.
pub fn version_from_probe_output(success: bool, stdout: &str, stderr: &str) -> (r: Option<
    String,
>)
    ensures
        (match r {
            Some(v) => success && spec_extract_version(spec_combined(stdout@, stderr@)) == Some(
                v@,
            ),
            None => !success || spec_extract_version(spec_combined(stdout@, stderr@)) is None,
        }),
{
    if !success {
        return None;
    }
    let combined = combine_output(stdout, stderr);
    extract_version(combined.as_str())
}

/// The per-OS scripts that apply to a tool override on a platform, if
/// any.
pub fn platform_scripts<'a>(tool_installer: &'a ToolInstaller, platform: &Platform) -> (r: Option<
    &'a PlatformScripts,
>)
    ensures
        platform_scripts_view(*tool_installer, platform.os@) == (match r {
            Some(s) => Some(*s),
            None => None::<PlatformScripts>,
        }),
{
    proof {
        reveal_strlit("linux");
        reveal_strlit("macos");
        reveal_strlit("windows");
        assert("linux"@ != "macos"@) by {
            assert("linux"@[0] == 'l');
            assert("macos"@[0] == 'm');
        }
        assert("linux"@ != "windows"@) by {
            assert("linux"@.len() != "windows"@.len());
        }
        assert("macos"@ != "windows"@) by {
            assert("macos"@.len() != "windows"@.len());
        }
    }
    let os = chars_of(platform.os.as_str());
    if crate::text::chars_eq(&os, &chars_of("linux")) {
        match &tool_installer.linux {
            Some(s) => Some(s),
            None => None,
        }
    } else if crate::text::chars_eq(&os, &chars_of("macos")) {
        match &tool_installer.macos {
            Some(s) => Some(s),
            None => None,
        }
    } else if crate::text::chars_eq(&os, &chars_of("windows")) {
        match &tool_installer.windows {
            Some(s) => Some(s),
            None => None,
        }
    } else {
        None
    }
}

/// What a script install must do once its pieces are known, given that
/// the script itself has already exited: a failed script is a script
/// failure carrying stderr; a successful script with no probe-confirmed
/// version fails version detection, after which the caller performs the
/// rollback this decision names; a confirmed version succeeds and
/// reports the tool's declared executables.
pub fn script_install_outcome(
    script_success: bool,
    script_stderr: &str,
    probed_version: Option<String>,
    tool_name: &str,
    tool: &Tool,
) -> (r: Result<InstallResult, InstallError>)
    ensures
        !script_success ==> (r matches Err(InstallError::ScriptFailed(m)) && m@
            == script_stderr@),
        script_success ==> (match probed_version {
            None => r matches Err(InstallError::VersionDetectionFailed(t)) && t@ == tool_name@,
            Some(v) => r matches Ok(res) && res.version@ == v@ && (res.executables matches Some(
                e,
            ) && e@ == tool.provides@),
        }),
{
    if !script_success {
        return Err(InstallError::ScriptFailed(script_stderr.to_owned()));
    }
    match probed_version {
        None => Err(InstallError::VersionDetectionFailed(tool_name.to_owned())),
        Some(v) => {
            let mut provides: Vec<String> = Vec::new();
            let mut i: usize = 0;
            while i < tool.provides.len()
                invariant
                    i <= tool.provides@.len(),
                    provides@ == tool.provides@.subrange(0, i as int),
                decreases tool.provides@.len() - i,
            {
                provides.push(tool.provides[i].clone());
                i = i + 1;
                proof {
                    assert(provides@ =~= tool.provides@.subrange(0, i as int));
                }
            }
            proof {
                assert(provides@ =~= tool.provides@);
            }
            Ok(InstallResult { version: v, executables: Some(provides) })
        },
    }
}

/// The rollback plan after a failed version detection: the uninstall
/// script for this platform when the override declares one, and the
/// declared executables to delete from the local binary directory.
pub fn rollback_plan(
    tool_installer: &ToolInstaller,
    tool: &Tool,
    platform: &Platform,
) -> (r: (Option<String>, Vec<String>))
    ensures
        (match platform_scripts_view(*tool_installer, platform.os@) {
            Some(scripts) => (match scripts.uninstall {
                Some(u) => r.0 matches Some(script) && script@ == spec_expand_platform(
                    u@,
                    platform.os@,
                    platform.arch@,
                ),
                None => r.0 is None,
            }),
            None => r.0 is None,
        }),
        r.1@.map_values(|s: String| s@) == tool.provides@.map_values(|s: String| s@),
{
    let uninstall = match platform_scripts(tool_installer, platform) {
        Some(scripts) => match &scripts.uninstall {
            Some(u) => Some(platform.expand_pattern(u.as_str())),
            None => None,
        },
        None => None,
    };
    let mut exes: Vec<String> = Vec::new();
    let mut i: usize = 0;
    while i < tool.provides.len()
        invariant
            i <= tool.provides@.len(),
            exes@ == tool.provides@.subrange(0, i as int),
        decreases tool.provides@.len() - i,
    {
        exes.push(tool.provides[i].clone());
        i = i + 1;
        proof {
            assert(exes@ =~= tool.provides@.subrange(0, i as int));
        }
    }
    proof {
        assert(exes@ =~= tool.provides@);
        assert(exes@.map_values(|s: String| s@) =~= tool.provides@.map_values(|s: String| s@));
    }
    (uninstall, exes)
}

/// The scripts a platform name selects from an override.
pub open spec fn platform_scripts_view(tool_installer: ToolInstaller, os: Seq<char>) -> Option<
    PlatformScripts,
> {
    if os == "linux"@ {
        tool_installer.linux
    } else if os == "macos"@ {
        tool_installer.macos
    } else if os == "windows"@ {
        tool_installer.windows
    } else {
        None
    }
}

/// Expand the `{tool}` placeholder in each part of a version-check
/// command template.
pub fn build_check_command(tool_name: &str, command_template: &Vec<String>) -> (r: Vec<String>)
    ensures
        r@.len() == command_template@.len(),
        forall|j: int|
            0 <= j < r@.len() ==> r@[j]@ == spec_replace(
                command_template@[j]@,
                "{tool}"@,
                tool_name@,
            ),
{
    let tool = chars_of(tool_name);
    let tok = chars_of("{tool}");
    let mut out: Vec<String> = Vec::new();
    let mut i: usize = 0;
    while i < command_template.len()
        invariant
            i <= command_template@.len(),
            tool@ == tool_name@,
            tok@ == "{tool}"@,
            out@.len() == i,
            forall|j: int|
                0 <= j < i ==> out@[j]@ == spec_replace(
                    command_template@[j]@,
                    "{tool}"@,
                    tool_name@,
                ),
        decreases command_template@.len() - i,
    {
        let part = chars_of(command_template[i].as_str());
        let replaced = replace_chars(&part, &tok, &tool);
        out.push(string_of(&replaced));
        i = i + 1;
    }
    out
}

/// The version a tool-version check yields from its subprocess outcome:
/// the fallback cascade over stdout of a successful run, nothing
/// otherwise.
pub fn check_tool_version_output(success: bool, stdout: &str) -> (r: Option<String>)
    ensures
        (match r {
            Some(v) => success && spec_extract_version(stdout@) == Some(v@),
            None => !success || spec_extract_version(stdout@) is None,
        }),
{
    if !success {
        return None;
    }
    extract_version(stdout)
}

/// No recognized placeholder token is a prefix of another.
pub proof fn lemma_expansion_tokens_prefix_free()
    ensures
        prefix_free(expansion_tokens()),
{
    reveal_strlit("{tool}");
    reveal_strlit("{package}");
    reveal_strlit("{repo}");
    reveal_strlit("{pattern}");
    reveal_strlit("{url}");
    reveal_strlit("{version}");
    reveal_strlit("{os}");
    reveal_strlit("{arch}");
    reveal_strlit("{target}");
    assert(!starts_with_seq("{package}"@, "{tool}"@)) by {
        if starts_with_seq("{package}"@, "{tool}"@) {
            assert("{package}"@.subrange(0, "{tool}"@.len() as int)[1] == "{package}"@[1]);
            assert(false);
        }
    }
    assert(!starts_with_seq("{repo}"@, "{tool}"@)) by {
        if starts_with_seq("{repo}"@, "{tool}"@) {
            assert("{repo}"@.subrange(0, "{tool}"@.len() as int)[1] == "{repo}"@[1]);
            assert(false);
        }
    }
    assert(!starts_with_seq("{pattern}"@, "{tool}"@)) by {
        if starts_with_seq("{pattern}"@, "{tool}"@) {
            assert("{pattern}"@.subrange(0, "{tool}"@.len() as int)[1] == "{pattern}"@[1]);
            assert(false);
        }
    }
    assert(!starts_with_seq("{url}"@, "{tool}"@)) by {
        assert("{tool}"@.len() > "{url}"@.len());
    }
    assert(!starts_with_seq("{version}"@, "{tool}"@)) by {
        if starts_with_seq("{version}"@, "{tool}"@) {
            assert("{version}"@.subrange(0, "{tool}"@.len() as int)[1] == "{version}"@[1]);
            assert(false);
        }
    }
    assert(!starts_with_seq("{os}"@, "{tool}"@)) by {
        assert("{tool}"@.len() > "{os}"@.len());
    }
    assert(!starts_with_seq("{arch}"@, "{tool}"@)) by {
        if starts_with_seq("{arch}"@, "{tool}"@) {
            assert("{arch}"@.subrange(0, "{tool}"@.len() as int)[1] == "{arch}"@[1]);
            assert(false);
        }
    }
    assert(!starts_with_seq("{target}"@, "{tool}"@)) by {
        if starts_with_seq("{target}"@, "{tool}"@) {
            assert("{target}"@.subrange(0, "{tool}"@.len() as int)[2] == "{target}"@[2]);
            assert(false);
        }
    }
    assert(!starts_with_seq("{tool}"@, "{package}"@)) by {
        assert("{package}"@.len() > "{tool}"@.len());
    }
    assert(!starts_with_seq("{repo}"@, "{package}"@)) by {
        assert("{package}"@.len() > "{repo}"@.len());
    }
    assert(!starts_with_seq("{pattern}"@, "{package}"@)) by {
        if starts_with_seq("{pattern}"@, "{package}"@) {
            assert("{pattern}"@.subrange(0, "{package}"@.len() as int)[3] == "{pattern}"@[3]);
            assert(false);
        }
    }
    assert(!starts_with_seq("{url}"@, "{package}"@)) by {
        assert("{package}"@.len() > "{url}"@.len());
    }
    assert(!starts_with_seq("{version}"@, "{package}"@)) by {
        if starts_with_seq("{version}"@, "{package}"@) {
            assert("{version}"@.subrange(0, "{package}"@.len() as int)[1] == "{version}"@[1]);
            assert(false);
        }
    }
    assert(!starts_with_seq("{os}"@, "{package}"@)) by {
        assert("{package}"@.len() > "{os}"@.len());
    }
    assert(!starts_with_seq("{arch}"@, "{package}"@)) by {
        assert("{package}"@.len() > "{arch}"@.len());
    }
    assert(!starts_with_seq("{target}"@, "{package}"@)) by {
        assert("{package}"@.len() > "{target}"@.len());
    }
    assert(!starts_with_seq("{tool}"@, "{repo}"@)) by {
        if starts_with_seq("{tool}"@, "{repo}"@) {
            assert("{tool}"@.subrange(0, "{repo}"@.len() as int)[1] == "{tool}"@[1]);
            assert(false);
        }
    }
    assert(!starts_with_seq("{package}"@, "{repo}"@)) by {
        if starts_with_seq("{package}"@, "{repo}"@) {
            assert("{package}"@.subrange(0, "{repo}"@.len() as int)[1] == "{package}"@[1]);
            assert(false);
        }
    }
    assert(!starts_with_seq("{pattern}"@, "{repo}"@)) by {
        if starts_with_seq("{pattern}"@, "{repo}"@) {
            assert("{pattern}"@.subrange(0, "{repo}"@.len() as int)[1] == "{pattern}"@[1]);
            assert(false);
        }
    }
    assert(!starts_with_seq("{url}"@, "{repo}"@)) by {
        assert("{repo}"@.len() > "{url}"@.len());
    }
    assert(!starts_with_seq("{version}"@, "{repo}"@)) by {
        if starts_with_seq("{version}"@, "{repo}"@) {
            assert("{version}"@.subrange(0, "{repo}"@.len() as int)[1] == "{version}"@[1]);
            assert(false);
        }
    }
    assert(!starts_with_seq("{os}"@, "{repo}"@)) by {
        assert("{repo}"@.len() > "{os}"@.len());
    }
    assert(!starts_with_seq("{arch}"@, "{repo}"@)) by {
        if starts_with_seq("{arch}"@, "{repo}"@) {
            assert("{arch}"@.subrange(0, "{repo}"@.len() as int)[1] == "{arch}"@[1]);
            assert(false);
        }
    }
    assert(!starts_with_seq("{target}"@, "{repo}"@)) by {
        if starts_with_seq("{target}"@, "{repo}"@) {
            assert("{target}"@.subrange(0, "{repo}"@.len() as int)[1] == "{target}"@[1]);
            assert(false);
        }
    }
    assert(!starts_with_seq("{tool}"@, "{pattern}"@)) by {
        assert("{pattern}"@.len() > "{tool}"@.len());
    }
    assert(!starts_with_seq("{package}"@, "{pattern}"@)) by {
        if starts_with_seq("{package}"@, "{pattern}"@) {
            assert("{package}"@.subrange(0, "{pattern}"@.len() as int)[3] == "{package}"@[3]);
            assert(false);
        }
    }
    assert(!starts_with_seq("{repo}"@, "{pattern}"@)) by {
        assert("{pattern}"@.len() > "{repo}"@.len());
    }
    assert(!starts_with_seq("{url}"@, "{pattern}"@)) by {
        assert("{pattern}"@.len() > "{url}"@.len());
    }
    assert(!starts_with_seq("{version}"@, "{pattern}"@)) by {
        if starts_with_seq("{version}"@, "{pattern}"@) {
            assert("{version}"@.subrange(0, "{pattern}"@.len() as int)[1] == "{version}"@[1]);
            assert(false);
        }
    }
    assert(!starts_with_seq("{os}"@, "{pattern}"@)) by {
        assert("{pattern}"@.len() > "{os}"@.len());
    }
    assert(!starts_with_seq("{arch}"@, "{pattern}"@)) by {
        assert("{pattern}"@.len() > "{arch}"@.len());
    }
    assert(!starts_with_seq("{target}"@, "{pattern}"@)) by {
        assert("{pattern}"@.len() > "{target}"@.len());
    }
    assert(!starts_with_seq("{tool}"@, "{url}"@)) by {
        if starts_with_seq("{tool}"@, "{url}"@) {
            assert("{tool}"@.subrange(0, "{url}"@.len() as int)[1] == "{tool}"@[1]);
            assert(false);
        }
    }
    assert(!starts_with_seq("{package}"@, "{url}"@)) by {
        if starts_with_seq("{package}"@, "{url}"@) {
            assert("{package}"@.subrange(0, "{url}"@.len() as int)[1] == "{package}"@[1]);
            assert(false);
        }
    }
    assert(!starts_with_seq("{repo}"@, "{url}"@)) by {
        if starts_with_seq("{repo}"@, "{url}"@) {
            assert("{repo}"@.subrange(0, "{url}"@.len() as int)[1] == "{repo}"@[1]);
            assert(false);
        }
    }
    assert(!starts_with_seq("{pattern}"@, "{url}"@)) by {
        if starts_with_seq("{pattern}"@, "{url}"@) {
            assert("{pattern}"@.subrange(0, "{url}"@.len() as int)[1] == "{pattern}"@[1]);
            assert(false);
        }
    }
    assert(!starts_with_seq("{version}"@, "{url}"@)) by {
        if starts_with_seq("{version}"@, "{url}"@) {
            assert("{version}"@.subrange(0, "{url}"@.len() as int)[1] == "{version}"@[1]);
            assert(false);
        }
    }
    assert(!starts_with_seq("{os}"@, "{url}"@)) by {
        assert("{url}"@.len() > "{os}"@.len());
    }
    assert(!starts_with_seq("{arch}"@, "{url}"@)) by {
        if starts_with_seq("{arch}"@, "{url}"@) {
            assert("{arch}"@.subrange(0, "{url}"@.len() as int)[1] == "{arch}"@[1]);
            assert(false);
        }
    }
    assert(!starts_with_seq("{target}"@, "{url}"@)) by {
        if starts_with_seq("{target}"@, "{url}"@) {
            assert("{target}"@.subrange(0, "{url}"@.len() as int)[1] == "{target}"@[1]);
            assert(false);
        }
    }
    assert(!starts_with_seq("{tool}"@, "{version}"@)) by {
        assert("{version}"@.len() > "{tool}"@.len());
    }
    assert(!starts_with_seq("{package}"@, "{version}"@)) by {
        if starts_with_seq("{package}"@, "{version}"@) {
            assert("{package}"@.subrange(0, "{version}"@.len() as int)[1] == "{package}"@[1]);
            assert(false);
        }
    }
    assert(!starts_with_seq("{repo}"@, "{version}"@)) by {
        assert("{version}"@.len() > "{repo}"@.len());
    }
    assert(!starts_with_seq("{pattern}"@, "{version}"@)) by {
        if starts_with_seq("{pattern}"@, "{version}"@) {
            assert("{pattern}"@.subrange(0, "{version}"@.len() as int)[1] == "{pattern}"@[1]);
            assert(false);
        }
    }
    assert(!starts_with_seq("{url}"@, "{version}"@)) by {
        assert("{version}"@.len() > "{url}"@.len());
    }
    assert(!starts_with_seq("{os}"@, "{version}"@)) by {
        assert("{version}"@.len() > "{os}"@.len());
    }
    assert(!starts_with_seq("{arch}"@, "{version}"@)) by {
        assert("{version}"@.len() > "{arch}"@.len());
    }
    assert(!starts_with_seq("{target}"@, "{version}"@)) by {
        assert("{version}"@.len() > "{target}"@.len());
    }
    assert(!starts_with_seq("{tool}"@, "{os}"@)) by {
        if starts_with_seq("{tool}"@, "{os}"@) {
            assert("{tool}"@.subrange(0, "{os}"@.len() as int)[1] == "{tool}"@[1]);
            assert(false);
        }
    }
    assert(!starts_with_seq("{package}"@, "{os}"@)) by {
        if starts_with_seq("{package}"@, "{os}"@) {
            assert("{package}"@.subrange(0, "{os}"@.len() as int)[1] == "{package}"@[1]);
            assert(false);
        }
    }
    assert(!starts_with_seq("{repo}"@, "{os}"@)) by {
        if starts_with_seq("{repo}"@, "{os}"@) {
            assert("{repo}"@.subrange(0, "{os}"@.len() as int)[1] == "{repo}"@[1]);
            assert(false);
        }
    }
    assert(!starts_with_seq("{pattern}"@, "{os}"@)) by {
        if starts_with_seq("{pattern}"@, "{os}"@) {
            assert("{pattern}"@.subrange(0, "{os}"@.len() as int)[1] == "{pattern}"@[1]);
            assert(false);
        }
    }
    assert(!starts_with_seq("{url}"@, "{os}"@)) by {
        if starts_with_seq("{url}"@, "{os}"@) {
            assert("{url}"@.subrange(0, "{os}"@.len() as int)[1] == "{url}"@[1]);
            assert(false);
        }
    }
    assert(!starts_with_seq("{version}"@, "{os}"@)) by {
        if starts_with_seq("{version}"@, "{os}"@) {
            assert("{version}"@.subrange(0, "{os}"@.len() as int)[1] == "{version}"@[1]);
            assert(false);
        }
    }
    assert(!starts_with_seq("{arch}"@, "{os}"@)) by {
        if starts_with_seq("{arch}"@, "{os}"@) {
            assert("{arch}"@.subrange(0, "{os}"@.len() as int)[1] == "{arch}"@[1]);
            assert(false);
        }
    }
    assert(!starts_with_seq("{target}"@, "{os}"@)) by {
        if starts_with_seq("{target}"@, "{os}"@) {
            assert("{target}"@.subrange(0, "{os}"@.len() as int)[1] == "{target}"@[1]);
            assert(false);
        }
    }
    assert(!starts_with_seq("{tool}"@, "{arch}"@)) by {
        if starts_with_seq("{tool}"@, "{arch}"@) {
            assert("{tool}"@.subrange(0, "{arch}"@.len() as int)[1] == "{tool}"@[1]);
            assert(false);
        }
    }
    assert(!starts_with_seq("{package}"@, "{arch}"@)) by {
        if starts_with_seq("{package}"@, "{arch}"@) {
            assert("{package}"@.subrange(0, "{arch}"@.len() as int)[1] == "{package}"@[1]);
            assert(false);
        }
    }
    assert(!starts_with_seq("{repo}"@, "{arch}"@)) by {
        if starts_with_seq("{repo}"@, "{arch}"@) {
            assert("{repo}"@.subrange(0, "{arch}"@.len() as int)[1] == "{repo}"@[1]);
            assert(false);
        }
    }
    assert(!starts_with_seq("{pattern}"@, "{arch}"@)) by {
        if starts_with_seq("{pattern}"@, "{arch}"@) {
            assert("{pattern}"@.subrange(0, "{arch}"@.len() as int)[1] == "{pattern}"@[1]);
            assert(false);
        }
    }
    assert(!starts_with_seq("{url}"@, "{arch}"@)) by {
        assert("{arch}"@.len() > "{url}"@.len());
    }
    assert(!starts_with_seq("{version}"@, "{arch}"@)) by {
        if starts_with_seq("{version}"@, "{arch}"@) {
            assert("{version}"@.subrange(0, "{arch}"@.len() as int)[1] == "{version}"@[1]);
            assert(false);
        }
    }
    assert(!starts_with_seq("{os}"@, "{arch}"@)) by {
        assert("{arch}"@.len() > "{os}"@.len());
    }
    assert(!starts_with_seq("{target}"@, "{arch}"@)) by {
        if starts_with_seq("{target}"@, "{arch}"@) {
            assert("{target}"@.subrange(0, "{arch}"@.len() as int)[1] == "{target}"@[1]);
            assert(false);
        }
    }
    assert(!starts_with_seq("{tool}"@, "{target}"@)) by {
        assert("{target}"@.len() > "{tool}"@.len());
    }
    assert(!starts_with_seq("{package}"@, "{target}"@)) by {
        if starts_with_seq("{package}"@, "{target}"@) {
            assert("{package}"@.subrange(0, "{target}"@.len() as int)[1] == "{package}"@[1]);
            assert(false);
        }
    }
    assert(!starts_with_seq("{repo}"@, "{target}"@)) by {
        assert("{target}"@.len() > "{repo}"@.len());
    }
    assert(!starts_with_seq("{pattern}"@, "{target}"@)) by {
        if starts_with_seq("{pattern}"@, "{target}"@) {
            assert("{pattern}"@.subrange(0, "{target}"@.len() as int)[1] == "{pattern}"@[1]);
            assert(false);
        }
    }
    assert(!starts_with_seq("{url}"@, "{target}"@)) by {
        assert("{target}"@.len() > "{url}"@.len());
    }
    assert(!starts_with_seq("{version}"@, "{target}"@)) by {
        if starts_with_seq("{version}"@, "{target}"@) {
            assert("{version}"@.subrange(0, "{target}"@.len() as int)[1] == "{version}"@[1]);
            assert(false);
        }
    }
    assert(!starts_with_seq("{os}"@, "{target}"@)) by {
        assert("{target}"@.len() > "{os}"@.len());
    }
    assert(!starts_with_seq("{arch}"@, "{target}"@)) by {
        assert("{target}"@.len() > "{arch}"@.len());
    }
    assert forall|j: int, k: int|
        0 <= j < expansion_tokens().len() && 0 <= k < expansion_tokens().len() && j != k
        implies !starts_with_seq(
        #[trigger] expansion_tokens()[k],
        #[trigger] expansion_tokens()[j],
    ) by {
        if j == 0 {
            assert(expansion_tokens()[0] == "{tool}"@);
            if k == 1 {
                assert(expansion_tokens()[1] == "{package}"@);
            }
            else if k == 2 {
                assert(expansion_tokens()[2] == "{repo}"@);
            }
            else if k == 3 {
                assert(expansion_tokens()[3] == "{pattern}"@);
            }
            else if k == 4 {
                assert(expansion_tokens()[4] == "{url}"@);
            }
            else if k == 5 {
                assert(expansion_tokens()[5] == "{version}"@);
            }
            else if k == 6 {
                assert(expansion_tokens()[6] == "{os}"@);
            }
            else if k == 7 {
                assert(expansion_tokens()[7] == "{arch}"@);
            }
            else if k == 8 {
                assert(expansion_tokens()[8] == "{target}"@);
            }
        }
        else if j == 1 {
            assert(expansion_tokens()[1] == "{package}"@);
            if k == 0 {
                assert(expansion_tokens()[0] == "{tool}"@);
            }
            else if k == 2 {
                assert(expansion_tokens()[2] == "{repo}"@);
            }
            else if k == 3 {
                assert(expansion_tokens()[3] == "{pattern}"@);
            }
            else if k == 4 {
                assert(expansion_tokens()[4] == "{url}"@);
            }
            else if k == 5 {
                assert(expansion_tokens()[5] == "{version}"@);
            }
            else if k == 6 {
                assert(expansion_tokens()[6] == "{os}"@);
            }
            else if k == 7 {
                assert(expansion_tokens()[7] == "{arch}"@);
            }
            else if k == 8 {
                assert(expansion_tokens()[8] == "{target}"@);
            }
        }
        else if j == 2 {
            assert(expansion_tokens()[2] == "{repo}"@);
            if k == 0 {
                assert(expansion_tokens()[0] == "{tool}"@);
            }
            else if k == 1 {
                assert(expansion_tokens()[1] == "{package}"@);
            }
            else if k == 3 {
                assert(expansion_tokens()[3] == "{pattern}"@);
            }
            else if k == 4 {
                assert(expansion_tokens()[4] == "{url}"@);
            }
            else if k == 5 {
                assert(expansion_tokens()[5] == "{version}"@);
            }
            else if k == 6 {
                assert(expansion_tokens()[6] == "{os}"@);
            }
            else if k == 7 {
                assert(expansion_tokens()[7] == "{arch}"@);
            }
            else if k == 8 {
                assert(expansion_tokens()[8] == "{target}"@);
            }
        }
        else if j == 3 {
            assert(expansion_tokens()[3] == "{pattern}"@);
            if k == 0 {
                assert(expansion_tokens()[0] == "{tool}"@);
            }
            else if k == 1 {
                assert(expansion_tokens()[1] == "{package}"@);
            }
            else if k == 2 {
                assert(expansion_tokens()[2] == "{repo}"@);
            }
            else if k == 4 {
                assert(expansion_tokens()[4] == "{url}"@);
            }
            else if k == 5 {
                assert(expansion_tokens()[5] == "{version}"@);
            }
            else if k == 6 {
                assert(expansion_tokens()[6] == "{os}"@);
            }
            else if k == 7 {
                assert(expansion_tokens()[7] == "{arch}"@);
            }
            else if k == 8 {
                assert(expansion_tokens()[8] == "{target}"@);
            }
        }
        else if j == 4 {
            assert(expansion_tokens()[4] == "{url}"@);
            if k == 0 {
                assert(expansion_tokens()[0] == "{tool}"@);
            }
            else if k == 1 {
                assert(expansion_tokens()[1] == "{package}"@);
            }
            else if k == 2 {
                assert(expansion_tokens()[2] == "{repo}"@);
            }
            else if k == 3 {
                assert(expansion_tokens()[3] == "{pattern}"@);
            }
            else if k == 5 {
                assert(expansion_tokens()[5] == "{version}"@);
            }
            else if k == 6 {
                assert(expansion_tokens()[6] == "{os}"@);
            }
            else if k == 7 {
                assert(expansion_tokens()[7] == "{arch}"@);
            }
            else if k == 8 {
                assert(expansion_tokens()[8] == "{target}"@);
            }
        }
        else if j == 5 {
            assert(expansion_tokens()[5] == "{version}"@);
            if k == 0 {
                assert(expansion_tokens()[0] == "{tool}"@);
            }
            else if k == 1 {
                assert(expansion_tokens()[1] == "{package}"@);
            }
            else if k == 2 {
                assert(expansion_tokens()[2] == "{repo}"@);
            }
            else if k == 3 {
                assert(expansion_tokens()[3] == "{pattern}"@);
            }
            else if k == 4 {
                assert(expansion_tokens()[4] == "{url}"@);
            }
            else if k == 6 {
                assert(expansion_tokens()[6] == "{os}"@);
            }
            else if k == 7 {
                assert(expansion_tokens()[7] == "{arch}"@);
            }
            else if k == 8 {
                assert(expansion_tokens()[8] == "{target}"@);
            }
        }
        else if j == 6 {
            assert(expansion_tokens()[6] == "{os}"@);
            if k == 0 {
                assert(expansion_tokens()[0] == "{tool}"@);
            }
            else if k == 1 {
                assert(expansion_tokens()[1] == "{package}"@);
            }
            else if k == 2 {
                assert(expansion_tokens()[2] == "{repo}"@);
            }
            else if k == 3 {
                assert(expansion_tokens()[3] == "{pattern}"@);
            }
            else if k == 4 {
                assert(expansion_tokens()[4] == "{url}"@);
            }
            else if k == 5 {
                assert(expansion_tokens()[5] == "{version}"@);
            }
            else if k == 7 {
                assert(expansion_tokens()[7] == "{arch}"@);
            }
            else if k == 8 {
                assert(expansion_tokens()[8] == "{target}"@);
            }
        }
        else if j == 7 {
            assert(expansion_tokens()[7] == "{arch}"@);
            if k == 0 {
                assert(expansion_tokens()[0] == "{tool}"@);
            }
            else if k == 1 {
                assert(expansion_tokens()[1] == "{package}"@);
            }
            else if k == 2 {
                assert(expansion_tokens()[2] == "{repo}"@);
            }
            else if k == 3 {
                assert(expansion_tokens()[3] == "{pattern}"@);
            }
            else if k == 4 {
                assert(expansion_tokens()[4] == "{url}"@);
            }
            else if k == 5 {
                assert(expansion_tokens()[5] == "{version}"@);
            }
            else if k == 6 {
                assert(expansion_tokens()[6] == "{os}"@);
            }
            else if k == 8 {
                assert(expansion_tokens()[8] == "{target}"@);
            }
        }
        else if j == 8 {
            assert(expansion_tokens()[8] == "{target}"@);
            if k == 0 {
                assert(expansion_tokens()[0] == "{tool}"@);
            }
            else if k == 1 {
                assert(expansion_tokens()[1] == "{package}"@);
            }
            else if k == 2 {
                assert(expansion_tokens()[2] == "{repo}"@);
            }
            else if k == 3 {
                assert(expansion_tokens()[3] == "{pattern}"@);
            }
            else if k == 4 {
                assert(expansion_tokens()[4] == "{url}"@);
            }
            else if k == 5 {
                assert(expansion_tokens()[5] == "{version}"@);
            }
            else if k == 6 {
                assert(expansion_tokens()[6] == "{os}"@);
            }
            else if k == 7 {
                assert(expansion_tokens()[7] == "{arch}"@);
            }
        }
    }
}

/// Template expansion is order-independent for disjoint tokens: over a
/// well-formed template with brace-free values, the nine sequential
/// passes produce exactly the single simultaneous left-to-right
/// substitution, so every recognized token is replaced independently of
/// the others, no substituted value is rescanned, and the pass order
/// cannot matter.
pub proof fn lemma_expansion_is_simultaneous(
    template: Seq<char>,
    tool: Seq<char>,
    package: Seq<char>,
    repo: Seq<char>,
    pattern: Seq<char>,
    url: Seq<char>,
    version: Seq<char>,
    os: Seq<char>,
    arch: Seq<char>,
)
    requires
        wf_from(template, expansion_tokens(), 0),
        no_brace(tool),
        no_brace(package),
        no_brace(repo),
        no_brace(pattern),
        no_brace(url),
        no_brace(version),
        no_brace(os),
        no_brace(arch),
    ensures
        spec_expand_template(template, tool, package, repo, pattern, url, version, os, arch)
            == subst_sim(
            template,
            expansion_tokens(),
            seq![
                tool,
                package,
                repo,
                pattern,
                url,
                version,
                os,
                arch,
                spec_target_triple(os, arch),
            ],
        ),
{
    let toks = expansion_tokens();
    let target = spec_target_triple(os, arch);
    let vals = seq![tool, package, repo, pattern, url, version, os, arch, target];
    lemma_expansion_tokens_good();
    lemma_expansion_tokens_prefix_free();
    lemma_target_triple_no_brace(os, arch);
    assert forall|j: int| 0 <= j < vals.len() implies no_brace(#[trigger] vals[j]) by {
        if j == 0 {
            assert(vals[0] == tool);
        } else if j == 1 {
            assert(vals[1] == package);
        } else if j == 2 {
            assert(vals[2] == repo);
        } else if j == 3 {
            assert(vals[3] == pattern);
        } else if j == 4 {
            assert(vals[4] == url);
        } else if j == 5 {
            assert(vals[5] == version);
        } else if j == 6 {
            assert(vals[6] == os);
        } else if j == 7 {
            assert(vals[7] == arch);
        } else {
            assert(vals[8] == target);
        }
    }
    let s1 = spec_replace(template, toks[0], vals[0]);
    let s2 = spec_replace(s1, toks[1], vals[1]);
    let s3 = spec_replace(s2, toks[2], vals[2]);
    let s4 = spec_replace(s3, toks[3], vals[3]);
    let s5 = spec_replace(s4, toks[4], vals[4]);
    let s6 = spec_replace(s5, toks[5], vals[5]);
    let s7 = spec_replace(s6, toks[6], vals[6]);
    let s8 = spec_replace(s7, toks[7], vals[7]);
    let s9 = spec_replace(s8, toks[8], vals[8]);
    assert(replace_seq(template, toks, vals, 0) == replace_seq(s1, toks, vals, 1));
    assert(replace_seq(s1, toks, vals, 1) == replace_seq(s2, toks, vals, 2));
    assert(replace_seq(s2, toks, vals, 2) == replace_seq(s3, toks, vals, 3));
    assert(replace_seq(s3, toks, vals, 3) == replace_seq(s4, toks, vals, 4));
    assert(replace_seq(s4, toks, vals, 4) == replace_seq(s5, toks, vals, 5));
    assert(replace_seq(s5, toks, vals, 5) == replace_seq(s6, toks, vals, 6));
    assert(replace_seq(s6, toks, vals, 6) == replace_seq(s7, toks, vals, 7));
    assert(replace_seq(s7, toks, vals, 7) == replace_seq(s8, toks, vals, 8));
    assert(replace_seq(s8, toks, vals, 8) == replace_seq(s9, toks, vals, 9));
    assert(replace_seq(s9, toks, vals, 9) == s9);
    assert(replace_seq(template, toks, vals, 0) == s9);
    assert(spec_expand_template(template, tool, package, repo, pattern, url, version, os, arch)
        == s9);
    lemma_sequential_is_simultaneous(template, toks, vals);
}

} // verus!
