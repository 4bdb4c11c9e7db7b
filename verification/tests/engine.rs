use forge::backend::{
    check_tool_version_output, command_install_from_output, execute_install_with_runner,
    expand_template, probe_executable, probe_flag_sets, rollback_plan, script_install_outcome,
    version_from_probe_output,
};
use forge::command::{CmdOutput, MockCommandRunner};
use forge::error::InstallError;
use forge::facts::{dependent_tools, Facts, ToolFact};
use forge::forge::{
    finish_script_install, has_update, unique_installers, Forge, InstallPlan, UpdateWork,
};
use forge::github::{
    candidate_executables, discover_from_release, find_all_executables, score_asset,
    select_executables, Asset, ExecutableInfo,
};
use forge::knowledge::{
    Installer, Knowledge, PlatformConfig, PlatformScripts, Tool, ToolInstaller,
};
use forge::platform::Platform;
use forge::sync::{extract_gist_id, gist_owner, hash_file_contents, sync_decision, SyncAction};
use forge::table::Table;
use forge::version::{
    build_version_check_command, expand_check_url, extract_apt_installed_version,
    extract_version, extract_with_pattern, normalize_version,
};

fn linux_platform() -> Platform {
    Platform {
        os: "linux".to_string(),
        arch: "x86_64".to_string(),
    }
}

fn empty_override() -> ToolInstaller {
    ToolInstaller {
        package: None,
        repo: None,
        pattern: None,
        url: None,
        linux: None,
        macos: None,
        windows: None,
    }
}

fn plain_tool(description: &str, provides: &[&str], installer_names: &[&str]) -> Tool {
    let mut installers: Table<ToolInstaller> = Table::new();
    for name in installer_names {
        installers.set(name.to_string(), empty_override());
    }
    Tool {
        description: description.to_string(),
        provides: provides.iter().map(|s| s.to_string()).collect(),
        installers,
    }
}

fn plain_installer(ty: &str) -> Installer {
    Installer {
        installer_type: ty.to_string(),
        check: None,
        install: vec!["true".to_string()],
        uninstall: None,
        update: None,
        install_output_pattern: None,
        version_check: None,
    }
}

fn forge_with_precedence(tools: Vec<(&str, Tool)>, installers: Vec<&str>) -> Forge {
    let mut k = Knowledge::new(1);
    for name in installers {
        k.merge_local_installer(name.to_string(), plain_installer("command"));
    }
    for (name, tool) in tools {
        k.merge_local_tool(name.to_string(), tool);
    }
    k.merge_local_platform(
        "linux".to_string(),
        PlatformConfig {
            precedence: vec![
                "script".to_string(),
                "cargo".to_string(),
                "github".to_string(),
                "apt".to_string(),
            ],
        },
    );
    Forge {
        knowledge: k,
        platform: linux_platform(),
    }
}

#[test]
fn expansion_leaves_no_tokens_behind() {
    let platform = linux_platform();
    let config = ToolInstaller {
        package: Some("pkg".to_string()),
        repo: Some("owner/repo".to_string()),
        pattern: Some("*.tar.gz".to_string()),
        url: Some("https://example.invalid/x".to_string()),
        linux: None,
        macos: None,
        windows: None,
    };
    let template = "{tool} {package} {repo} {pattern} {url} {version} {os} {arch} {target}";
    let expanded = expand_template(template, "mytool", &config, Some("1.2.3"), &platform);
    assert_eq!(
        expanded,
        "mytool pkg owner/repo *.tar.gz https://example.invalid/x 1.2.3 linux x86_64 \
         x86_64-unknown-linux-gnu"
    );
    for token in [
        "{tool}", "{package}", "{repo}", "{pattern}", "{url}", "{version}", "{os}", "{arch}",
        "{target}",
    ] {
        assert!(!expanded.contains(token));
    }
}

#[test]
fn expansion_defaults_fill_in() {
    let platform = linux_platform();
    let config = empty_override();
    let expanded = expand_template(
        "get {package} {pattern} {version}",
        "fd",
        &config,
        None,
        &platform,
    );
    assert_eq!(expanded, "get fd * latest");
}

#[test]
fn target_triple_unknown_combination() {
    let platform = Platform {
        os: "windows".to_string(),
        arch: "aarch64".to_string(),
    };
    assert_eq!(platform.expand_pattern("{target}"), "unknown");
    let linux = linux_platform();
    assert_eq!(linux.expand_pattern("{target}"), "x86_64-unknown-linux-gnu");
}

#[test]
fn brew_fallback_cascade_yields_version() {
    let out = extract_version("Pouring bat--0.24.0.arm64_ventura.bottle.tar.gz");
    assert_eq!(out, Some("0.24.0".to_string()));
}

#[test]
fn labeled_version_cascade() {
    assert_eq!(
        extract_version("tool 3.4.5-beta.1 linux"),
        Some("3.4.5-beta.1".to_string())
    );
    assert_eq!(extract_version("no digits here"), None);
}

#[test]
fn pattern_extraction_is_exact() {
    let got = extract_with_pattern(
        "Installed package `ripgrep v14.0.3`",
        r"Installed package `ripgrep v([0-9]+\.[0-9]+\.[0-9]+)`",
    );
    assert_eq!(got, Some("14.0.3".to_string()));
    assert_eq!(
        extract_with_pattern("nothing to see", r"v([0-9]+\.[0-9]+\.[0-9]+)"),
        None
    );
}

#[test]
fn command_install_requires_pattern() {
    let installer = plain_installer("command");
    let output = CmdOutput {
        success: true,
        stdout: "ok".to_string(),
        stderr: String::new(),
    };
    let r = command_install_from_output(
        &installer,
        "fd",
        &empty_override(),
        None,
        &linux_platform(),
        &output,
    );
    assert!(matches!(r, Err(InstallError::MissingOutputPattern)));
}

#[test]
fn command_install_failure_carries_stderr() {
    let installer = plain_installer("command");
    let output = CmdOutput {
        success: false,
        stdout: String::new(),
        stderr: "boom".to_string(),
    };
    let r = command_install_from_output(
        &installer,
        "fd",
        &empty_override(),
        None,
        &linux_platform(),
        &output,
    );
    match r {
        Err(InstallError::CommandFailed(m)) => assert_eq!(m, "boom"),
        _ => panic!("expected CommandFailed"),
    }
}

#[test]
fn command_install_no_version_extracted() {
    let mut installer = plain_installer("command");
    installer.install_output_pattern = Some(r"v([0-9]+\.[0-9]+\.[0-9]+)".to_string());
    let output = CmdOutput {
        success: true,
        stdout: "done, no version printed".to_string(),
        stderr: String::new(),
    };
    let r = command_install_from_output(
        &installer,
        "fd",
        &empty_override(),
        None,
        &linux_platform(),
        &output,
    );
    match r {
        Err(InstallError::NoVersionExtracted(p)) => {
            assert_eq!(p, r"v([0-9]+\.[0-9]+\.[0-9]+)")
        }
        _ => panic!("expected NoVersionExtracted"),
    }
}

#[test]
fn unexpected_mock_command_fails() {
    let mut installer = plain_installer("command");
    installer.install = vec!["doesnotexist".to_string()];
    installer.install_output_pattern = Some("x".to_string());
    let mut mock = MockCommandRunner::new();
    let r = execute_install_with_runner(
        &installer,
        "fd",
        &empty_override(),
        None,
        &linux_platform(),
        &mut mock,
    );
    assert!(matches!(r, Err(InstallError::CommandFailed(_))));
}

#[test]
fn precedence_selects_script_before_cargo() {
    let tool = plain_tool("both", &[], &["script", "cargo"]);
    let forge = forge_with_precedence(
        vec![("dual", plain_tool("both", &[], &["script", "cargo"]))],
        vec!["script", "cargo", "github", "apt"],
    );
    let got = forge
        .find_best_installer(&"dual".to_string(), &tool)
        .expect("an installer should be found");
    assert_eq!(got, "script");
}

#[test]
fn precedence_skips_unsupported() {
    let tool = plain_tool("apt only", &[], &["apt"]);
    let forge = forge_with_precedence(
        vec![("solo", plain_tool("apt only", &[], &["apt"]))],
        vec!["script", "cargo", "github", "apt"],
    );
    let got = forge
        .find_best_installer(&"solo".to_string(), &tool)
        .expect("an installer should be found");
    assert_eq!(got, "apt");
}

#[test]
fn asset_scoring_selects_linux_archive() {
    let assets = vec![
        Asset {
            name: "foo-linux-x86_64.tar.gz".to_string(),
            download_url: "https://example.invalid/linux".to_string(),
        },
        Asset {
            name: "foo-windows-x86_64.zip".to_string(),
            download_url: "https://example.invalid/windows".to_string(),
        },
        Asset {
            name: "foo.sha256".to_string(),
            download_url: "https://example.invalid/sha".to_string(),
        },
    ];
    let d = discover_from_release(
        "owner/foo",
        "v1.2.3",
        &assets,
        &"linux".to_string(),
        &"x86_64".to_string(),
    )
    .expect("discovery should succeed");
    assert_eq!(d.asset_name, "foo-linux-x86_64.tar.gz");
    assert_eq!(d.download_url, "https://example.invalid/linux");
    assert_eq!(d.version, "1.2.3");
}

#[test]
fn checksum_files_are_hard_excluded() {
    assert_eq!(
        score_asset(
            &"foo.sha256".to_string(),
            &"linux".to_string(),
            &"x86_64".to_string()
        ),
        None
    );
    assert_eq!(
        score_asset(
            &"foo-src.tar.gz".to_string(),
            &"linux".to_string(),
            &"x86_64".to_string()
        ),
        None
    );
    let linux_score = score_asset(
        &"foo-linux-x86_64.tar.gz".to_string(),
        &"linux".to_string(),
        &"x86_64".to_string(),
    )
    .expect("a plain linux archive scores");
    assert!(linux_score > 0);
}

#[test]
fn discovery_fails_without_assets() {
    let assets: Vec<Asset> = Vec::new();
    let r = discover_from_release(
        "owner/foo",
        "v1.0.0",
        &assets,
        &"linux".to_string(),
        &"x86_64".to_string(),
    );
    assert!(matches!(r, Err(InstallError::NoAssetsFound(_))));
}

#[test]
fn discovery_fails_when_nothing_qualifies() {
    let assets = vec![
        Asset {
            name: "foo.sha256".to_string(),
            download_url: "u1".to_string(),
        },
        Asset {
            name: "foo-windows-x86_64.zip".to_string(),
            download_url: "u2".to_string(),
        },
    ];
    let r = discover_from_release(
        "owner/foo",
        "v1.0.0",
        &assets,
        &"linux".to_string(),
        &"x86_64".to_string(),
    );
    match r {
        Err(InstallError::NoMatchingAsset(os, arch, _)) => {
            assert_eq!(os, "linux");
            assert_eq!(arch, "x86_64");
        }
        _ => panic!("expected NoMatchingAsset"),
    }
}

#[test]
fn archive_filter_selects_real_binary() {
    let listing = "bin/mytool\nREADME.md\ncompletions/mytool.bash\n";
    let selected = find_all_executables(listing, "mytool", &Vec::new())
        .expect("one executable should be found");
    assert_eq!(selected.len(), 1);
    assert_eq!(selected[0].name, "mytool");
    assert_eq!(selected[0].path, "bin/mytool");
}

#[test]
fn archive_filter_rejects_docs_and_deep_paths() {
    let listing = "LICENSE\ndoc.md\na/b/c/d/tool\nshare/doc/x\n.hidden\nbin/tool.exe\n";
    let candidates = candidate_executables(listing);
    assert_eq!(candidates.len(), 1);
    assert_eq!(candidates[0].path, "bin/tool.exe");
}

#[test]
fn archive_hints_win_over_heuristics() {
    let candidates = vec![
        ExecutableInfo {
            name: "helper".to_string(),
            path: "bin/helper".to_string(),
        },
        ExecutableInfo {
            name: "main-tool".to_string(),
            path: "bin/main-tool".to_string(),
        },
    ];
    let hints = vec!["main-tool".to_string(), "helper".to_string()];
    let got = select_executables(&candidates, "other", &hints).expect("hints should match");
    assert_eq!(got.len(), 2);
    assert_eq!(got[0].name, "main-tool");
    assert_eq!(got[1].name, "helper");
}

#[test]
fn archive_heuristic_prefers_shortest_name() {
    let candidates = vec![
        ExecutableInfo {
            name: "tool-helper".to_string(),
            path: "tool-helper".to_string(),
        },
        ExecutableInfo {
            name: "td".to_string(),
            path: "bin/td".to_string(),
        },
    ];
    let got = select_executables(&candidates, "unrelated", &Vec::new())
        .expect("heuristic should pick one");
    assert_eq!(got.len(), 1);
    assert_eq!(got[0].name, "td");
}

#[test]
fn archive_empty_listing_fails() {
    let r = find_all_executables("", "tool", &Vec::new());
    assert!(matches!(r, Err(InstallError::NoExecutablesFound)));
}

#[test]
fn reinstall_recorded_tool_is_noop() {
    let forge = forge_with_precedence(
        vec![("ripgrep", plain_tool("grep", &[], &["cargo"]))],
        vec!["cargo"],
    );
    let mut facts = Facts::new();
    let outcome = Ok(forge::backend::InstallResult {
        version: "14.0.3".to_string(),
        executables: None,
    });
    facts.record_outcome(&"ripgrep".to_string(), &"cargo".to_string(), &outcome, 1000);

    let plan = forge
        .plan_install(&facts, &"ripgrep".to_string(), None)
        .expect("planning should succeed");
    match plan {
        InstallPlan::Skip(v) => assert_eq!(v, Some("14.0.3".to_string())),
        _ => panic!("expected a skip"),
    }
}

#[test]
fn requesting_other_installer_replaces() {
    let forge = forge_with_precedence(
        vec![("bat", plain_tool("cat", &[], &["cargo", "apt"]))],
        vec!["cargo", "apt"],
    );
    let mut facts = Facts::new();
    let outcome = Ok(forge::backend::InstallResult {
        version: "0.24.0".to_string(),
        executables: None,
    });
    facts.record_outcome(&"bat".to_string(), &"cargo".to_string(), &outcome, 1000);

    let apt = "apt".to_string();
    let plan = forge
        .plan_install(&facts, &"bat".to_string(), Some(&apt))
        .expect("planning should succeed");
    match plan {
        InstallPlan::Replace(old, new) => {
            assert_eq!(old, "cargo");
            assert_eq!(new, "apt");
        }
        _ => panic!("expected a replace"),
    }
}

#[test]
fn unknown_tool_is_an_error() {
    let forge = forge_with_precedence(vec![], vec!["cargo"]);
    let facts = Facts::new();
    let r = forge.plan_install(&facts, &"ghost".to_string(), None);
    assert!(matches!(r, Err(InstallError::UnknownTool(_))));
}

#[test]
fn unsupported_installer_is_an_error() {
    let forge = forge_with_precedence(
        vec![("fd", plain_tool("find", &[], &["cargo"]))],
        vec!["cargo", "apt"],
    );
    let facts = Facts::new();
    let apt = "apt".to_string();
    let r = forge.plan_install(&facts, &"fd".to_string(), Some(&apt));
    assert!(matches!(r, Err(InstallError::UnsupportedInstaller(_, _))));
}

#[test]
fn failed_probe_rolls_back_and_records_nothing() {
    let mut facts = Facts::new();
    let tool = plain_tool("scripted", &["mytool"], &["script"]);
    let r = finish_script_install(
        &mut facts,
        &"mytool".to_string(),
        &"script".to_string(),
        true,
        "",
        None,
        &tool,
        1000,
    );
    match r {
        Err(InstallError::VersionDetectionFailed(t)) => assert_eq!(t, "mytool"),
        _ => panic!("expected VersionDetectionFailed"),
    }
    assert!(facts.tools.get(&"mytool".to_string()).is_none());
}

#[test]
fn successful_probe_records_fact() {
    let mut facts = Facts::new();
    let tool = plain_tool("scripted", &["mytool"], &["script"]);
    let r = finish_script_install(
        &mut facts,
        &"mytool".to_string(),
        &"script".to_string(),
        true,
        "",
        Some("2.0.1".to_string()),
        &tool,
        1000,
    );
    let res = r.expect("install should be recorded");
    assert_eq!(res.version, "2.0.1");
    let fact = facts
        .tools
        .get(&"mytool".to_string())
        .expect("a fact should exist");
    assert_eq!(fact.installer, "script");
    assert_eq!(fact.version, Some("2.0.1".to_string()));
}

#[test]
fn failed_script_surfaces_stderr() {
    let tool = plain_tool("scripted", &[], &["script"]);
    let r = script_install_outcome(false, "exploded", None, "mytool", &tool);
    match r {
        Err(InstallError::ScriptFailed(m)) => assert_eq!(m, "exploded"),
        _ => panic!("expected ScriptFailed"),
    }
}

#[test]
fn rollback_plan_names_script_and_executables() {
    let scripts = PlatformScripts {
        install: "curl | sh".to_string(),
        uninstall: Some("rm -f {os}-thing".to_string()),
        update: None,
    };
    let config = ToolInstaller {
        package: None,
        repo: None,
        pattern: None,
        url: None,
        linux: Some(scripts),
        macos: None,
        windows: None,
    };
    let tool = plain_tool("scripted", &["mytool", "mytool-helper"], &["script"]);
    let (script, exes) = rollback_plan(&config, &tool, &linux_platform());
    assert_eq!(script, Some("rm -f linux-thing".to_string()));
    assert_eq!(exes, vec!["mytool".to_string(), "mytool-helper".to_string()]);
}

#[test]
fn probe_pieces_behave() {
    let tool = plain_tool("x", &["alpha", "beta"], &[]);
    assert_eq!(probe_executable("x", &tool), "alpha");
    let bare = plain_tool("x", &[], &[]);
    assert_eq!(probe_executable("x", &bare), "x");
    let flags = probe_flag_sets();
    assert_eq!(flags.len(), 5);
    assert_eq!(flags[0], vec!["--version".to_string()]);
    assert_eq!(
        version_from_probe_output(true, "tool 1.2.3", ""),
        Some("1.2.3".to_string())
    );
    assert_eq!(version_from_probe_output(false, "tool 1.2.3", ""), None);
    assert_eq!(
        check_tool_version_output(true, "v9.9.9"),
        Some("9.9.9".to_string())
    );
    assert_eq!(check_tool_version_output(false, "v9.9.9"), None);
}

#[test]
fn apt_policy_output_parses() {
    let output = "bat:\n  Installed: 0.24.0-1\n  Candidate: 0.24.0-1\n";
    assert_eq!(
        extract_apt_installed_version(output),
        Some("0.24.0-1".to_string())
    );
    assert_eq!(
        extract_apt_installed_version("bat:\n  Installed: (none)\n"),
        None
    );
    assert_eq!(extract_apt_installed_version("no such line"), None);
}

#[test]
fn normalize_strips_space_and_v() {
    assert_eq!(normalize_version(" v1.2.3 \n"), "1.2.3");
    assert_eq!(normalize_version("2.0.0"), "2.0.0");
}

#[test]
fn hash_has_exact_known_value() {
    assert_eq!(
        hash_file_contents("abc"),
        "sha256:ba7816bf8f01cfea414140de5dae2223b00361a396177a9cb410ff61f20015ad"
    );
    assert_ne!(hash_file_contents("abc"), "abc");
    assert_eq!(hash_file_contents("abc"), hash_file_contents("abc"));
}

#[test]
fn sync_decisions_cover_all_cases() {
    let a = "sha256:aaaa".to_string();
    let b = "sha256:bbbb".to_string();
    let c = "sha256:cccc".to_string();
    assert!(matches!(
        sync_decision(&a, &a, &a),
        SyncAction::AlreadySynced
    ));
    assert!(matches!(sync_decision(&b, &a, &a), SyncAction::Push));
    assert!(matches!(sync_decision(&a, &b, &a), SyncAction::Pull));
    assert!(matches!(sync_decision(&b, &c, &a), SyncAction::Conflict));
}

#[test]
fn gist_ids_parse_and_reject() {
    assert_eq!(
        extract_gist_id("https://gist.github.com/someone/abc123def456"),
        Ok("abc123def456".to_string())
    );
    assert_eq!(
        extract_gist_id("gist.github.com/abc123def456/"),
        Ok("abc123def456".to_string())
    );
    assert!(extract_gist_id("nakedid").is_err());
    assert!(extract_gist_id("https://gist.github.com/u/ab").is_err());
    assert!(extract_gist_id("https://gist.github.com/u/bad-id!").is_err());
}

#[test]
fn merge_replaces_whole_entries() {
    let mut k = Knowledge::new(1);
    k.merge_local_tool("fd".to_string(), plain_tool("bundled entry", &[], &["cargo"]));
    k.merge_local_tool("fd".to_string(), plain_tool("overlay", &["fd"], &["apt"]));
    let t = k.tools.get(&"fd".to_string()).expect("fd should exist");
    assert_eq!(t.description, "overlay");
    assert_eq!(t.provides, vec!["fd".to_string()]);
    assert!(t.installers.get(&"cargo".to_string()).is_none());
    assert!(k.is_local_tool(&"fd".to_string()));
    assert!(!k.is_local_tool(&"bat".to_string()));
}

#[test]
fn dependents_and_unique_installers() {
    let mut facts = Facts::new();
    for (tool, installer) in [("a", "brew"), ("b", "cargo"), ("c", "brew"), ("d", "apt")] {
        let outcome = Ok(forge::backend::InstallResult {
            version: "1.0.0".to_string(),
            executables: None,
        });
        facts.record_outcome(&tool.to_string(), &installer.to_string(), &outcome, 0);
    }
    let deps = dependent_tools(
        &facts,
        &"a".to_string(),
        &vec!["brew".to_string(), "apt".to_string()],
    );
    assert_eq!(deps, vec!["c".to_string(), "d".to_string()]);
    let uniq = unique_installers(&facts);
    assert_eq!(
        uniq,
        vec!["brew".to_string(), "cargo".to_string(), "apt".to_string()]
    );
}

#[test]
fn uninstall_plan_covers_command_and_dependents() {
    let mut installer = plain_installer("command");
    installer.uninstall = Some(vec![
        "cargo".to_string(),
        "uninstall".to_string(),
        "{package}".to_string(),
    ]);
    let mut k = Knowledge::new(1);
    k.merge_local_installer("cargo".to_string(), installer);
    k.merge_local_tool(
        "ripgrep".to_string(),
        plain_tool("grep", &["rg"], &["cargo"]),
    );
    let forge = Forge {
        knowledge: k,
        platform: linux_platform(),
    };
    let mut facts = Facts::new();
    let outcome = Ok(forge::backend::InstallResult {
        version: "14.0.3".to_string(),
        executables: Some(vec!["rg".to_string()]),
    });
    facts.record_outcome(&"ripgrep".to_string(), &"cargo".to_string(), &outcome, 0);
    let outcome2 = Ok(forge::backend::InstallResult {
        version: "1.0.0".to_string(),
        executables: None,
    });
    facts.record_outcome(&"dependent".to_string(), &"rg".to_string(), &outcome2, 0);

    let plan = forge
        .plan_uninstall(&facts, &"ripgrep".to_string())
        .expect("a plan should exist");
    assert_eq!(plan.executables, vec!["rg".to_string()]);
    assert_eq!(
        plan.command,
        Some(vec![
            "cargo".to_string(),
            "uninstall".to_string(),
            "ripgrep".to_string()
        ])
    );
    assert_eq!(plan.script, None);
    assert_eq!(plan.dependents, vec!["dependent".to_string()]);

    assert!(forge.plan_uninstall(&facts, &"ghost".to_string()).is_none());
}

#[test]
fn update_decisions() {
    assert!(has_update(
        &Some("1.0.0".to_string()),
        &Some("1.1.0".to_string())
    ));
    assert!(!has_update(
        &Some("1.0.0".to_string()),
        &Some("1.0.0".to_string())
    ));
    assert!(!has_update(&None, &Some("1.0.0".to_string())));

    let mut installer = plain_installer("command");
    installer.update = Some(vec![
        "brew".to_string(),
        "upgrade".to_string(),
        "{package}".to_string(),
    ]);
    let mut k = Knowledge::new(1);
    k.merge_local_installer("brew".to_string(), installer);
    k.merge_local_tool("bat".to_string(), plain_tool("cat", &[], &["brew"]));
    let forge = Forge {
        knowledge: k,
        platform: linux_platform(),
    };
    match forge.plan_installer_update(&"bat".to_string(), &"brew".to_string()) {
        UpdateWork::Command(c) => {
            assert_eq!(
                c,
                vec!["brew".to_string(), "upgrade".to_string(), "bat".to_string()]
            );
        }
        _ => panic!("expected an update command"),
    }
    match forge.plan_installer_update(&"bat".to_string(), &"missing".to_string()) {
        UpdateWork::Nothing => {}
        _ => panic!("expected nothing to do"),
    }
}

#[test]
fn why_returns_description() {
    let forge = forge_with_precedence(
        vec![("fd", plain_tool("a simple finder", &[], &["cargo"]))],
        vec!["cargo"],
    );
    match forge.why(&"fd".to_string()) {
        Ok(d) => assert_eq!(d, "a simple finder"),
        Err(_) => panic!("fd should be known"),
    }
    assert!(forge.why(&"ghost".to_string()).is_err());
}

#[test]
fn error_messages_are_prefixed() {
    let m = InstallError::UnknownTool("ghost".to_string()).message();
    assert_eq!(m, "unknown tool: ghost");
    let m2 = InstallError::MissingOutputPattern.message();
    assert_eq!(m2, "no install_output_pattern defined for this installer");
}

#[test]
fn version_check_templates_expand() {
    let template = vec![
        "apt-cache".to_string(),
        "policy".to_string(),
        "{package}".to_string(),
    ];
    assert_eq!(
        build_version_check_command(&template, "bat"),
        vec![
            "apt-cache".to_string(),
            "policy".to_string(),
            "bat".to_string()
        ]
    );
    assert_eq!(
        expand_check_url("https://crates.io/api/v1/crates/{package}", "ripgrep"),
        "https://crates.io/api/v1/crates/ripgrep"
    );
}

#[test]
fn gist_owner_is_fourth_part() {
    assert_eq!(
        gist_owner("https://gist.github.com/someone/abc123def456"),
        "someone"
    );
    assert_eq!(gist_owner("too/short"), "");
}

#[test]
fn missing_repo_is_a_configuration_error() {
    let r = forge::github::require_repo(&empty_override());
    assert!(matches!(r, Err(InstallError::MissingRepo)));
    let with_repo = ToolInstaller {
        repo: Some("owner/repo".to_string()),
        ..empty_override()
    };
    match forge::github::require_repo(&with_repo) {
        Ok(repo) => assert_eq!(repo, "owner/repo"),
        Err(_) => panic!("a configured repo should be accepted"),
    }
}

#[test]
fn unknown_installer_and_missing_platform_config() {
    // The tool claims support for an installer the knowledge base never
    // defines.
    let mut k = Knowledge::new(1);
    k.merge_local_tool("fd".to_string(), plain_tool("find", &[], &["mystery"]));
    k.merge_local_platform(
        "linux".to_string(),
        PlatformConfig {
            precedence: vec!["mystery".to_string()],
        },
    );
    let forge_engine = Forge {
        knowledge: k,
        platform: linux_platform(),
    };
    let facts = Facts::new();
    let mystery = "mystery".to_string();
    let r = forge_engine.plan_install(&facts, &"fd".to_string(), Some(&mystery));
    assert!(matches!(r, Err(InstallError::UnknownInstaller(_))));

    // No installer in the precedence list applies.
    let r2 = forge_engine.plan_install(&facts, &"fd".to_string(), None);
    assert!(matches!(r2, Err(InstallError::NoInstallerAvailable(_, _))));

    // No precedence list for this platform at all.
    let mut k2 = Knowledge::new(1);
    k2.merge_local_tool("fd".to_string(), plain_tool("find", &[], &["cargo"]));
    k2.merge_local_installer("cargo".to_string(), plain_installer("command"));
    let no_platform = Forge {
        knowledge: k2,
        platform: linux_platform(),
    };
    let r3 = no_platform.plan_install(&facts, &"fd".to_string(), None);
    assert!(matches!(r3, Err(InstallError::NoPlatformConfig(_))));
}

#[test]
fn every_error_variant_has_a_message() {
    let cases = vec![
        InstallError::UnsupportedPlatform("plan9".to_string()),
        InstallError::UnknownTool("ghost".to_string()),
        InstallError::UnknownInstaller("mystery".to_string()),
        InstallError::UnsupportedInstaller("fd".to_string(), "apt".to_string()),
        InstallError::NoInstallerAvailable("fd".to_string(), "linux".to_string()),
        InstallError::NoPlatformConfig("plan9".to_string()),
        InstallError::InstallerNotAvailable("brew".to_string()),
        InstallError::MissingOutputPattern,
        InstallError::MissingRepo,
        InstallError::MissingScript("fd".to_string(), "linux".to_string()),
        InstallError::CommandFailed("boom".to_string()),
        InstallError::ScriptFailed("boom".to_string()),
        InstallError::NoVersionExtracted("pat".to_string()),
        InstallError::VersionDetectionFailed("fd".to_string()),
        InstallError::NoAssetsFound("owner/repo".to_string()),
        InstallError::NoMatchingAsset("linux".to_string(), "x86_64".to_string(), vec![]),
        InstallError::NoExecutablesFound,
    ];
    for e in cases {
        assert!(!e.message().is_empty());
    }
}

#[test]
fn platform_canonicalization() {
    match forge::platform::canonical_platform("linux", "x86_64") {
        Ok(p) => {
            assert_eq!(p.os, "linux");
            assert_eq!(p.arch, "x86_64");
        }
        Err(_) => panic!("linux/x86_64 is supported"),
    }
    match forge::platform::canonical_platform("darwin", "aarch64") {
        Ok(p) => {
            assert_eq!(p.os, "macos");
            assert_eq!(p.arch, "aarch64");
        }
        Err(_) => panic!("darwin/aarch64 is supported"),
    }
    match forge::platform::canonical_platform("plan9", "x86_64") {
        Err(InstallError::UnsupportedPlatform(m)) => assert_eq!(m, "plan9"),
        _ => panic!("plan9 is not supported"),
    }
    match forge::platform::canonical_platform("linux", "mips") {
        Err(InstallError::UnsupportedPlatform(m)) => assert_eq!(m, "mips"),
        _ => panic!("mips is not supported"),
    }
}

#[test]
fn mock_lookup_answers_and_rejects() {
    let mut mock = MockCommandRunner::new();
    mock.expect(
        &"apt".to_string(),
        &vec!["update".to_string()],
        "done",
        false,
    );
    match mock.lookup(&"apt".to_string(), &vec!["update".to_string()]) {
        Ok(out) => {
            assert!(!out.success);
            assert_eq!(out.stdout, "done");
            assert_eq!(out.stderr, "");
        }
        Err(_) => panic!("a registered command answers"),
    }
    match mock.lookup(&"apt".to_string(), &vec!["upgrade".to_string()]) {
        Err(m) => assert_eq!(m, "unexpected command: apt upgrade"),
        Ok(_) => panic!("an unregistered command is rejected"),
    }
}

#[test]
fn rollback_plan_without_uninstall_script() {
    let scripts = PlatformScripts {
        install: "curl | sh".to_string(),
        uninstall: None,
        update: None,
    };
    let config = ToolInstaller {
        linux: Some(scripts),
        ..empty_override()
    };
    let tool = plain_tool("scripted", &["mytool"], &["script"]);
    let (script, exes) = rollback_plan(&config, &tool, &linux_platform());
    assert_eq!(script, None);
    assert_eq!(exes, vec!["mytool".to_string()]);

    let (script2, _) = rollback_plan(&empty_override(), &tool, &linux_platform());
    assert_eq!(script2, None);
}

#[test]
fn script_installer_update_runs_declared_script() {
    let scripts = PlatformScripts {
        install: "curl | sh".to_string(),
        uninstall: None,
        update: Some("curl | sh -s -- --update".to_string()),
    };
    let config = ToolInstaller {
        linux: Some(scripts),
        ..empty_override()
    };
    let mut installers: Table<ToolInstaller> = Table::new();
    installers.set("script".to_string(), config);
    let mut k = Knowledge::new(1);
    k.merge_local_installer("script".to_string(), plain_installer("script"));
    k.merge_local_tool(
        "rustup".to_string(),
        Tool {
            description: "toolchain manager".to_string(),
            provides: vec!["rustup".to_string()],
            installers,
        },
    );
    let forge_engine = Forge {
        knowledge: k,
        platform: linux_platform(),
    };
    match forge_engine.plan_installer_update(&"rustup".to_string(), &"script".to_string()) {
        UpdateWork::Script(s) => assert_eq!(s, "curl | sh -s -- --update"),
        _ => panic!("the declared update script should run"),
    }
    // A script tool without an update script does nothing.
    match forge_engine.plan_installer_update(&"missing".to_string(), &"script".to_string()) {
        UpdateWork::Nothing => {}
        _ => panic!("nothing is declared for an unknown tool"),
    }
}

#[test]
fn install_command_is_the_expanded_template() {
    let mut installer = plain_installer("command");
    installer.install = vec![
        "cargo".to_string(),
        "install".to_string(),
        "{package}".to_string(),
        "--locked".to_string(),
    ];
    let argv = forge::backend::build_install_command(
        &installer,
        "ripgrep",
        &empty_override(),
        None,
        &linux_platform(),
    );
    assert_eq!(
        argv,
        vec![
            "cargo".to_string(),
            "install".to_string(),
            "ripgrep".to_string(),
            "--locked".to_string()
        ]
    );
}
