use forge::backend::{execute_install_with_runner, expand_template};
use forge::command::MockCommandRunner;
use forge::knowledge::{Installer, Knowledge, PlatformConfig, Tool, ToolInstaller};
use forge::platform::Platform;
use forge::table::Table;

fn override_with_package(package: Option<&str>) -> ToolInstaller {
    ToolInstaller {
        package: package.map(|s| s.to_string()),
        repo: None,
        pattern: None,
        url: None,
        linux: None,
        macos: None,
        windows: None,
    }
}

fn command_installer(install: &[&str], pattern: &str) -> Installer {
    Installer {
        installer_type: "command".to_string(),
        check: None,
        install: install.iter().map(|s| s.to_string()).collect(),
        uninstall: None,
        update: None,
        install_output_pattern: Some(pattern.to_string()),
        version_check: None,
    }
}

fn tool_with_installer(description: &str, installer: &str, config: ToolInstaller) -> Tool {
    let mut installers: Table<ToolInstaller> = Table::new();
    installers.set(installer.to_string(), config);
    Tool {
        description: description.to_string(),
        provides: Vec::new(),
        installers,
    }
}

fn fixture_knowledge() -> Knowledge {
    let mut k = Knowledge::new(1);
    k.merge_local_installer(
        "cargo".to_string(),
        command_installer(
            &["cargo", "install", "{package}", "--locked"],
            r"Installed package `{package} v([0-9]+\.[0-9]+\.[0-9]+)`",
        ),
    );
    k.merge_local_installer(
        "brew".to_string(),
        command_installer(&["brew", "install", "{package}"], r"([0-9]+\.[0-9]+\.[0-9]+)"),
    );
    k.merge_local_installer(
        "apt".to_string(),
        command_installer(
            &["sudo", "apt", "install", "-y", "{package}"],
            r"Setting up {package} \(([^)]+)\)",
        ),
    );
    k.merge_local_tool(
        "ripgrep".to_string(),
        tool_with_installer("fast grep", "cargo", override_with_package(None)),
    );
    let mut bat_installers: Table<ToolInstaller> = Table::new();
    bat_installers.set("brew".to_string(), override_with_package(None));
    bat_installers.set("apt".to_string(), override_with_package(None));
    k.merge_local_tool(
        "bat".to_string(),
        Tool {
            description: "cat with wings".to_string(),
            provides: Vec::new(),
            installers: bat_installers,
        },
    );
    k.merge_local_platform(
        "linux".to_string(),
        PlatformConfig {
            precedence: vec![
                "script".to_string(),
                "cargo".to_string(),
                "github".to_string(),
                "apt".to_string(),
            ],
        },
    );
    k.merge_local_platform(
        "macos".to_string(),
        PlatformConfig {
            precedence: vec![
                "script".to_string(),
                "cargo".to_string(),
                "github".to_string(),
                "brew".to_string(),
            ],
        },
    );
    k
}

fn test_platform() -> Platform {
    Platform {
        os: "linux".to_string(),
        arch: "x86_64".to_string(),
    }
}

#[test]
fn test_cargo_installer_contract() {
    let knowledge = fixture_knowledge();
    let installer = knowledge
        .installers
        .get(&"cargo".to_string())
        .expect("cargo installer should exist");

    let mut mock = MockCommandRunner::new();
    mock.expect(
        &"cargo".to_string(),
        &vec![
            "install".to_string(),
            "ripgrep".to_string(),
            "--locked".to_string(),
        ],
        "Installed package `ripgrep v14.0.3`",
        true,
    );

    let tool_config = knowledge
        .tools
        .get(&"ripgrep".to_string())
        .and_then(|t| t.installers.get(&"cargo".to_string()))
        .expect("ripgrep should have cargo installer");

    let platform = test_platform();
    let result =
        execute_install_with_runner(installer, "ripgrep", tool_config, None, &platform, &mut mock)
            .expect("install should succeed");

    assert_eq!(result.version, "14.0.3");
}

#[test]
fn test_brew_installer_contract() {
    let knowledge = fixture_knowledge();
    let installer = knowledge
        .installers
        .get(&"brew".to_string())
        .expect("brew installer should exist");

    let mut mock = MockCommandRunner::new();
    mock.expect(
        &"brew".to_string(),
        &vec!["install".to_string(), "bat".to_string()],
        "Pouring bat--0.24.0.arm64_ventura.bottle.tar.gz",
        true,
    );

    let tool_config = knowledge
        .tools
        .get(&"bat".to_string())
        .and_then(|t| t.installers.get(&"brew".to_string()))
        .expect("bat should have brew installer");

    let platform = test_platform();
    let result =
        execute_install_with_runner(installer, "bat", tool_config, None, &platform, &mut mock)
            .expect("install should succeed");

    assert_eq!(result.version, "0.24.0");
}

#[test]
fn test_apt_installer_contract() {
    let knowledge = fixture_knowledge();
    let installer = knowledge
        .installers
        .get(&"apt".to_string())
        .expect("apt installer should exist");

    let mut mock = MockCommandRunner::new();
    mock.expect(
        &"sudo".to_string(),
        &vec![
            "apt".to_string(),
            "install".to_string(),
            "-y".to_string(),
            "bat".to_string(),
        ],
        "Setting up bat (0.24.0-1) ...",
        true,
    );

    let tool_config = knowledge
        .tools
        .get(&"bat".to_string())
        .and_then(|t| t.installers.get(&"apt".to_string()))
        .expect("bat should have apt installer");

    let platform = test_platform();
    let result =
        execute_install_with_runner(installer, "bat", tool_config, None, &platform, &mut mock)
            .expect("install should succeed");

    assert_eq!(result.version, "0.24.0-1");
}

#[test]
fn test_installer_precedence() {
    let knowledge = fixture_knowledge();

    let linux_precedence = knowledge
        .platforms
        .get(&"linux".to_string())
        .expect("linux platform should exist");

    assert_eq!(
        linux_precedence.precedence,
        vec!["script", "cargo", "github", "apt"]
    );

    let macos_precedence = knowledge
        .platforms
        .get(&"macos".to_string())
        .expect("macos platform should exist");

    assert_eq!(
        macos_precedence.precedence,
        vec!["script", "cargo", "github", "brew"]
    );
}

#[test]
fn test_template_expansion() {
    let platform = Platform {
        os: "linux".to_string(),
        arch: "x86_64".to_string(),
    };

    let config = ToolInstaller {
        package: Some("ripgrep-custom".to_string()),
        repo: Some("BurntSushi/ripgrep".to_string()),
        pattern: Some("*linux*".to_string()),
        url: None,
        linux: None,
        macos: None,
        windows: None,
    };

    let template = "cargo install {package} for {os} on {arch}";
    let expanded = expand_template(template, "ripgrep", &config, None, &platform);

    assert_eq!(expanded, "cargo install ripgrep-custom for linux on x86_64");
}
