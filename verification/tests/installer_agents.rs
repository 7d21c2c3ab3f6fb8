use acp_agent::failure::Failure;
use acp_agent::installer::agents::{
    after_npm_listing, after_npm_probe, bare_package_name, binary_outcome, command_outcome,
    deno_cache_args, distinct_ids, install_from_registry, install_method, installed_agents, npm_list_contains,
    npm_package_installed, package_in_listing, package_outcome, preparation_command,
    uninstall_from, update_from, uv_tool_name, InstallMethod, InstallOutcome, InstallPlan,
    UninstallOutcome, UninstallStep,
};
use acp_agent::installer::batch::{in_request_order, panicked, Finished};
use acp_agent::installer::binary::CachedBinary;
use acp_agent::installer::cache::CachedAgent;
use acp_agent::installer::environment::ProcessOutput;
use acp_agent::installer::locks::{lock_outcome, LockKind, LockReport};
use acp_agent::installer::removal::{RemovalOutcome, RemovalRun};
use acp_agent::registry::{
    AgentDistribution, BinaryDistribution, BinaryTarget, NpxDistribution, Platform, Registry,
    RegistryAgent, UvxDistribution,
};
use acp_agent::runner::PackageRunner;

fn sample_agent() -> RegistryAgent {
    RegistryAgent {
        id: "demo".to_string(),
        name: "Demo".to_string(),
        version: "1.0.0".to_string(),
        description: "Demo agent".to_string(),
        repository: None,
        website: None,
        authors: Vec::new(),
        license: "MIT".to_string(),
        icon: None,
        distribution: AgentDistribution {
            binary: None,
            npx: None,
            uvx: None,
        },
    }
}

fn npx_agent(package: &str) -> RegistryAgent {
    let mut agent = sample_agent();
    agent.distribution.npx = Some(NpxDistribution {
        package: package.to_string(),
        args: None,
        env: None,
    });
    agent
}

fn uvx_agent(package: &str) -> RegistryAgent {
    let mut agent = sample_agent();
    agent.distribution.uvx = Some(UvxDistribution {
        package: package.to_string(),
        args: None,
        env: None,
    });
    agent
}

fn registry_of(agent: RegistryAgent) -> Registry {
    Registry {
        version: "1".to_string(),
        agents: vec![agent],
    }
}

fn output(success: bool, stdout: &str, stderr: &str) -> ProcessOutput {
    ProcessOutput {
        success,
        code: Some(if success { 0 } else { 1 }),
        signal: None,
        stdout: stdout.as_bytes().to_vec(),
        stderr: stderr.as_bytes().to_vec(),
    }
}

#[test]
fn reports_missing_distribution() {
    let agent = sample_agent();
    let error = install_from_registry(&agent, Platform::LinuxX86_64, Ok(true)).unwrap_err();
    assert_eq!(
        error.message,
        "agent \"demo\" does not have an installable distribution"
    );
}

#[test]
fn update_reports_missing_distribution() {
    let registry = registry_of(sample_agent());
    let error = update_from("demo", &registry, Ok(Platform::LinuxX86_64), Ok(true)).unwrap_err();
    assert_eq!(
        error.message,
        "agent \"demo\" does not have an installable distribution"
    );
    let error = update_from("other", &registry, Ok(Platform::LinuxX86_64), Ok(true)).unwrap_err();
    assert_eq!(error.message, "agent \"other\" not found in registry");
}

#[test]
fn agents_uninstall_reports_missing_agent() {
    let registry = registry_of(sample_agent());
    let error = uninstall_from(
        "demo",
        Ok(false),
        Ok(&registry),
        Ok(Platform::LinuxX86_64),
        Ok(true),
    )
    .unwrap_err();
    assert_eq!(error.message, "agent \"demo\" is not installed");
}

#[test]
fn parses_package_requirements() {
    assert_eq!(
        bare_package_name("@agentclientprotocol/codex-acp@1.1.7"),
        "@agentclientprotocol/codex-acp"
    );
    assert_eq!(bare_package_name("acp-demo@2.0.0"), "acp-demo");
    assert_eq!(
        uv_tool_name("fast-agent-acp==0.9.30").unwrap(),
        "fast-agent-acp"
    );
    assert_eq!(uv_tool_name("demo[cli]>=1.2").unwrap(), "demo");
    assert!(uv_tool_name("==1.2").is_err());
    assert_eq!(
        deno_cache_args("@agentclientprotocol/codex-acp@1.1.7"),
        [
            "cache".to_string(),
            "--minimum-dependency-age".to_string(),
            "0".to_string(),
            "npm:@agentclientprotocol/codex-acp@1.1.7".to_string(),
        ]
    );
    assert_eq!(
        deno_cache_args("acp-demo"),
        [
            "cache".to_string(),
            "--minimum-dependency-age".to_string(),
            "0".to_string(),
            "npm:acp-demo".to_string(),
        ]
    );
}

#[test]
fn finds_exact_npm_package() {
    let list = Some(vec!["@acme/demo".to_string(), "demo-extra".to_string()]);
    assert!(npm_list_contains(&list, "@acme/demo"));
    assert!(!npm_list_contains(&list, "demo"));
    assert!(!npm_list_contains(&None, "demo"));
    let listing = output(
        true,
        "{\"dependencies\": {\"@acme/demo\": {\"version\": \"1.0.0\"}, \"demo-extra\": {}}}",
        "",
    );
    assert!(npm_package_installed(&listing, "@acme/demo").unwrap());
    assert!(!npm_package_installed(&listing, "demo").unwrap());
}

#[test]
fn listings_without_packages_hold_none() {
    for listing in ["{}", "[]", "{\"dependencies\": []}"] {
        assert!(!npm_package_installed(&output(true, listing, ""), "demo").unwrap());
    }
    let error = npm_package_installed(&output(false, "not json", "npm broke"), "demo").unwrap_err();
    assert!(error.message.contains("npm broke"));
    assert_eq!(error.causes.len(), 1);
    let error = package_in_listing(Err("odd".to_string()), b"why", "demo").unwrap_err();
    assert_eq!(error.causes, vec!["odd"]);
    assert!(package_in_listing(Ok(Some(vec!["demo".to_string()])), b"", "demo").unwrap());
}

#[test]
fn requirements_keep_what_is_no_version() {
    assert_eq!(bare_package_name("@acme/demo"), "@acme/demo");
    assert_eq!(bare_package_name("demo"), "demo");
    assert_eq!(bare_package_name("@demo"), "");
    assert_eq!(uv_tool_name("demo").unwrap(), "demo");
    assert_eq!(uv_tool_name("demo ; python_version").unwrap(), "demo");
}

#[test]
fn installations_are_planned() {
    let agent = npx_agent("@acme/demo@1.0.0");
    match install_from_registry(&agent, Platform::LinuxX86_64, Ok(true)).unwrap() {
        InstallPlan::Package {
            runner,
            package,
            command,
        } => {
            assert_eq!(runner, PackageRunner::Npm);
            assert_eq!(package, "@acme/demo@1.0.0");
            assert_eq!(command.program, "npm");
            assert_eq!(command.args, vec!["install", "--global", "@acme/demo@1.0.0"]);
        }
        other => panic!("unexpected plan: {other:?}"),
    }
    match install_from_registry(&agent, Platform::LinuxX86_64, Ok(false)).unwrap() {
        InstallPlan::Package { command, .. } => {
            assert_eq!(command.program, "deno");
            assert_eq!(command.args, deno_cache_args("@acme/demo@1.0.0"));
        }
        other => panic!("unexpected plan: {other:?}"),
    }
    let error = install_from_registry(
        &agent,
        Platform::LinuxX86_64,
        Err(Failure::new("odd".to_string())),
    )
    .unwrap_err();
    assert_eq!(error.message, "odd");
    let mut agent = uvx_agent("acme-demo");
    match install_from_registry(&agent, Platform::LinuxX86_64, Ok(true)).unwrap() {
        InstallPlan::Package { command, .. } => {
            assert_eq!(command.program, "uv");
            assert_eq!(command.args, vec!["tool", "install", "acme-demo"]);
        }
        other => panic!("unexpected plan: {other:?}"),
    }
    agent.distribution.binary = Some(BinaryDistribution {
        linux_x86_64: Some(BinaryTarget {
            archive: "https://example.com/demo.zip".to_string(),
            cmd: "demo".to_string(),
            sha256: None,
            args: None,
            env: None,
        }),
        ..BinaryDistribution::default()
    });
    match install_from_registry(&agent, Platform::LinuxX86_64, Ok(true)).unwrap() {
        InstallPlan::Binary { platform, target } => {
            assert_eq!(platform, Platform::LinuxX86_64);
            assert_eq!(target.cmd, "demo");
        }
        other => panic!("unexpected plan: {other:?}"),
    }
    assert!(matches!(
        install_from_registry(&agent, Platform::WindowsX86_64, Ok(true)),
        Ok(InstallPlan::Package { .. })
    ));
}

#[test]
fn outcomes_name_what_was_installed() {
    let cached = CachedBinary {
        executable_path: "/c/extracted/demo".to_string(),
        extracted_dir: "/c/extracted".to_string(),
        cache_dir: "/c".to_string(),
    };
    assert_eq!(
        binary_outcome("demo", &cached),
        InstallOutcome::Binary {
            agent_id: "demo".to_string(),
            executable_path: "/c/extracted/demo".to_string(),
            cache_dir: "/c".to_string(),
            stale_cache_entries_removed: false,
        }
    );
    assert_eq!(
        package_outcome("demo", PackageRunner::Deno, "p"),
        InstallOutcome::PackageManager {
            agent_id: "demo".to_string(),
            method: InstallMethod::Deno,
            package: "p".to_string(),
        }
    );
    assert_eq!(install_method(PackageRunner::Npm), InstallMethod::Npm);
    assert_eq!(install_method(PackageRunner::Uvx), InstallMethod::Uvx);
    let listed = installed_agents(&vec![cached_agent("demo", "/c")]);
    assert_eq!(listed.len(), 1);
    assert_eq!(listed[0].agent_id, "demo");
    assert_eq!(listed[0].cache_dir, "/c");
}

#[test]
fn failed_commands_show_their_output() {
    let command = preparation_command(PackageRunner::Npm, "p");
    assert!(command_outcome(&command, &output(true, "", "")).is_ok());
    for (stdout, stderr, words) in [
        ("out", " err\n", "failed to run npm for npm package p: err"),
        (" out\n", "", "failed to run npm for npm package p: out"),
        ("", "", "failed to run npm for npm package p"),
    ] {
        let error = command_outcome(&command, &output(false, stdout, stderr)).unwrap_err();
        assert_eq!(error.message, words);
    }
}

#[test]
fn uninstalling_goes_on_from_the_cache() {
    let unreachable = uninstall_from(
        "demo",
        Ok(true),
        Err(Failure::new("offline".to_string()).within("fetch".to_string())),
        Ok(Platform::LinuxX86_64),
        Ok(true),
    )
    .unwrap();
    match unreachable {
        UninstallStep::Done(UninstallOutcome::Cache {
            agent_id,
            registry_error,
        }) => {
            assert_eq!(agent_id, "demo");
            assert!(registry_error.unwrap().contains("fetch"));
        }
        other => panic!("unexpected step: {other:?}"),
    }
    let error = uninstall_from(
        "demo",
        Ok(false),
        Err(Failure::new("offline".to_string())),
        Ok(Platform::LinuxX86_64),
        Ok(true),
    )
    .unwrap_err();
    assert!(error.chain().contains("offline"));
    let registry = registry_of(uvx_agent("acme-demo==1.0"));
    match uninstall_from(
        "demo",
        Ok(false),
        Ok(&registry),
        Ok(Platform::LinuxX86_64),
        Ok(true),
    )
    .unwrap()
    {
        UninstallStep::Run { command, .. } => {
            assert_eq!(command.program, "uv");
            assert_eq!(command.args, vec!["tool", "uninstall", "acme-demo"]);
        }
        other => panic!("unexpected step: {other:?}"),
    }
    let registry = registry_of(npx_agent("@acme/demo@1.0"));
    match uninstall_from(
        "demo",
        Ok(false),
        Ok(&registry),
        Ok(Platform::LinuxX86_64),
        Ok(true),
    )
    .unwrap()
    {
        UninstallStep::FindNpm { package } => assert_eq!(package, "@acme/demo"),
        other => panic!("unexpected step: {other:?}"),
    }
    match after_npm_probe("demo", "@acme/demo".to_string(), true) {
        UninstallStep::ListNpmPackages { package } => assert_eq!(package, "@acme/demo"),
        other => panic!("unexpected step: {other:?}"),
    }
    match after_npm_probe("demo", "@acme/demo".to_string(), false) {
        UninstallStep::Done(UninstallOutcome::RunnerManaged { agent_id, runner }) => {
            assert_eq!(agent_id, "demo");
            assert_eq!(runner, PackageRunner::Npm)
        }
        other => panic!("unexpected step: {other:?}"),
    }
    match after_npm_listing("demo", "@acme/demo", true) {
        UninstallStep::Run { command, outcome } => {
            assert_eq!(command.args, vec!["uninstall", "--global", "@acme/demo"]);
            assert_eq!(
                outcome,
                UninstallOutcome::PackageManager {
                    agent_id: "demo".to_string(),
                    method: InstallMethod::Npm,
                    package: "@acme/demo".to_string(),
                }
            );
        }
        other => panic!("unexpected step: {other:?}"),
    }
    match after_npm_listing("demo", "@acme/demo", false) {
        UninstallStep::Done(UninstallOutcome::RunnerManaged { runner, .. }) => {
            assert_eq!(runner, PackageRunner::Npm)
        }
        other => panic!("unexpected step: {other:?}"),
    }
}

#[test]
fn an_unsupported_platform_is_reported_last() {
    let unsupported = || Err(Failure::new("unsupported platform".to_string()));
    let registry = registry_of(uvx_agent("acme-demo==1.0"));
    assert!(matches!(
        uninstall_from("demo", Ok(true), Ok(&registry), unsupported(), Ok(true)),
        Ok(UninstallStep::Done(UninstallOutcome::Cache { .. }))
    ));
    let error =
        uninstall_from("demo", Ok(false), Ok(&registry), unsupported(), Ok(true)).unwrap_err();
    assert_eq!(error.message, "unsupported platform");
    let error =
        uninstall_from("other", Ok(false), Ok(&registry), unsupported(), Ok(true)).unwrap_err();
    assert_eq!(error.message, "agent \"other\" is not installed");
    let error = update_from("demo", &registry, unsupported(), Ok(true)).unwrap_err();
    assert_eq!(error.message, "unsupported platform");
    let error = update_from("other", &registry, unsupported(), Ok(true)).unwrap_err();
    assert_eq!(error.message, "agent \"other\" not found in registry");
}

#[test]
fn batch_deduplicates_preserves_order_and_isolates_panics() {
    let ids = distinct_ids(&vec![
        "panics".to_string(),
        "ok".to_string(),
        "panics".to_string(),
    ]);
    assert_eq!(ids, vec!["panics", "ok"]);
    let results = in_request_order(
        &ids,
        vec![
            Finished {
                id: "ok".to_string(),
                result: Ok("ok".to_string()),
            },
            panicked("panics", "boom"),
        ],
    );
    assert_eq!(results.len(), 2);
    assert_eq!(results[0].id, "panics");
    assert!(results[0].result.is_err());
    assert!(results[0]
        .result
        .as_ref()
        .unwrap_err()
        .message
        .contains("boom"));
    assert_eq!(results[1].id, "ok");
    assert_eq!(results[1].result.as_ref().unwrap(), "ok");
}

fn cached_agent(id: &str, dir: &str) -> CachedAgent {
    CachedAgent {
        agent_id: id.to_string(),
        agent_version: "1".to_string(),
        platform: "linux-x86_64".to_string(),
        cache_dir: dir.to_string(),
        executable_path: format!("{dir}/extracted/demo"),
    }
}

#[test]
fn entries_are_removed_one_after_the_other() {
    let mut run = RemovalRun::new(vec![cached_agent("demo", "/a"), cached_agent("demo", "/b")]);
    assert_eq!(run.next_entry().unwrap().cache_dir, "/a");
    run.record(RemovalOutcome::Missing);
    assert_eq!(run.next_entry().unwrap().cache_dir, "/b");
    run.record(RemovalOutcome::Removed);
    assert!(run.next_entry().is_none());
    assert!(run.finish().unwrap());

    let mut run = RemovalRun::new(vec![cached_agent("demo", "/a"), cached_agent("demo", "/b")]);
    run.record(RemovalOutcome::Refused(Failure::new("denied".to_string())));
    assert!(run.next_entry().is_none());
    assert_eq!(
        run.finish().unwrap_err().chain(),
        "failed to remove cache directory /a: denied"
    );

    assert!(!RemovalRun::new(Vec::new()).finish().unwrap());
}

#[test]
fn locks_report_what_came_of_them() {
    assert!(lock_outcome(LockKind::Entry, LockReport::Acquired).unwrap());
    assert!(!lock_outcome(LockKind::Entry, LockReport::Busy).unwrap());
    for (kind, report, words) in [
        (
            LockKind::Entry,
            LockReport::Refused("denied".to_string()),
            "failed to acquire cache lock: denied",
        ),
        (
            LockKind::Use,
            LockReport::Refused("denied".to_string()),
            "failed to acquire cache use lock: denied",
        ),
        (
            LockKind::Entry,
            LockReport::Lost,
            "cache lock task terminated unexpectedly",
        ),
        (
            LockKind::Use,
            LockReport::Lost,
            "cache use-lock task terminated unexpectedly",
        ),
    ] {
        assert_eq!(lock_outcome(kind, report).unwrap_err().message, words);
    }
}
