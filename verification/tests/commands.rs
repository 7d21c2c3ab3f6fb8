use acp_agent::commands::agents::{
    install_warnings, uninstall_warnings, write_installed_agents, write_registry_agents,
    InstallMessage, ListedAgent, UninstallMessage,
};
use acp_agent::commands::cache::{
    uninstall_npx_package, uninstall_uvx_package, write_installed_list,
    UninstallOutcome as CacheUninstallOutcome,
};
use acp_agent::commands::environment::{
    judge_answer, prompt_for_installation, write_cancelled, write_detection_report,
    write_installation_complete, write_installation_plan, write_installation_start,
    write_nothing_to_install, Answer,
};
use acp_agent::commands::list::{sorted_agents, write_agent_list};
use acp_agent::commands::server::{write_registrations, write_server_list, write_status};
use acp_agent::commands::{exit_from_status, pad_right, AgentCommand, CliExit};
use acp_agent::failure::Failure;
use acp_agent::installer::agents::{
    bare_package_name, InstallMethod, InstallOutcome, InstalledAgent, UninstallOutcome,
};
use acp_agent::installer::cache::CachedAgent;
use acp_agent::installer::environment::{
    EnvironmentReport, HostFamily, InstallTarget, InstallationPlan, InstallationResult,
    ToolAvailability,
};
use acp_agent::registry::{AgentDistribution, NpxDistribution, Registry, RegistryAgent};
use acp_agent::runner::PackageRunner;
use acp_agent::server::{RegistrationRecord, ServerRecord};

fn registry_agent(id: &str, name: &str, version: &str, description: &str) -> RegistryAgent {
    RegistryAgent {
        id: id.to_string(),
        name: name.to_string(),
        version: version.to_string(),
        description: description.to_string(),
        repository: None,
        website: None,
        authors: vec!["Example".to_string()],
        license: "MIT".to_string(),
        icon: None,
        distribution: AgentDistribution {
            binary: None,
            npx: Some(NpxDistribution {
                package: id.to_string(),
                args: None,
                env: None,
            }),
            uvx: None,
        },
    }
}

#[test]
fn renders_registry_agents_in_deterministic_order() {
    let registry = Registry {
        version: "1".to_string(),
        agents: vec![
            registry_agent("z", "Zulu", "1", "Last"),
            registry_agent("a", "alpha", "1", "First"),
        ],
    };
    let listed = registry
        .list_agents()
        .iter()
        .map(|agent| ListedAgent { agent })
        .collect();
    assert_eq!(
        write_registry_agents(listed),
        "alpha\ta\tFirst\nZulu\tz\tLast\n"
    );
}

#[test]
fn renders_installed_agents_sorted_in_tsv_and_json() {
    let agents = vec![
        InstalledAgent {
            agent_id: "z".into(),
            agent_version: "2".into(),
            platform: "linux-x86_64".into(),
            cache_dir: "/cache/z".into(),
            executable_path: "/cache/z/bin".into(),
        },
        InstalledAgent {
            agent_id: "a".into(),
            agent_version: "1".into(),
            platform: "darwin-aarch64".into(),
            cache_dir: "/cache/a".into(),
            executable_path: "/cache/a/bin".into(),
        },
    ];
    assert_eq!(
        write_installed_agents(agents),
        "a\t1\tdarwin-aarch64\t/cache/a\nz\t2\tlinux-x86_64\t/cache/z\n"
    );
}

#[test]
fn renders_lifecycle_messages_and_warnings() {
    let update = InstallOutcome::Binary {
        agent_id: "demo".into(),
        executable_path: "/cache/demo/bin".into(),
        cache_dir: "/cache/demo".into(),
        stale_cache_entries_removed: true,
    };
    assert_eq!(
        InstallMessage(&update).to_text(),
        "Installed demo binary at /cache/demo/bin (cache: /cache/demo)"
    );
    assert_eq!(
        install_warnings(&update),
        vec!["removed stale cached binaries for \"demo\""]
    );

    let uninstall = UninstallOutcome::Cache {
        agent_id: "demo".into(),
        registry_error: Some("request timed out".into()),
    };
    assert_eq!(
        UninstallMessage(&uninstall).to_text(),
        "Uninstalled demo from the local cache"
    );
    assert!(uninstall_warnings(&uninstall)
        .first()
        .unwrap()
        .contains("without checking package-manager distributions (request timed out)"));
}

#[test]
fn renders_package_preparation_and_runner_managed_messages() {
    let npm = InstallOutcome::PackageManager {
        agent_id: "demo".into(),
        method: InstallMethod::Npm,
        package: "@acme/demo".into(),
    };
    assert_eq!(
        InstallMessage(&npm).to_text(),
        "Installed demo via npm: @acme/demo"
    );

    let deno = InstallOutcome::PackageManager {
        agent_id: "demo".into(),
        method: InstallMethod::Deno,
        package: "@acme/demo".into(),
    };
    assert_eq!(
        InstallMessage(&deno).to_text(),
        "Prepared demo via deno cache: @acme/demo"
    );

    let uvx = InstallOutcome::PackageManager {
        agent_id: "demo".into(),
        method: InstallMethod::Uvx,
        package: "acme-demo".into(),
    };
    assert_eq!(
        InstallMessage(&uvx).to_text(),
        "Installed demo via uv: acme-demo"
    );

    let managed = UninstallOutcome::RunnerManaged {
        agent_id: "demo".into(),
        runner: PackageRunner::Deno,
    };
    assert_eq!(
        UninstallMessage(&managed).to_text(),
        "Nothing to uninstall for demo: its package is cached by deno, which manages its own cache"
    );
}

#[test]
fn quiet_outcomes_give_no_warnings() {
    let fresh = InstallOutcome::Binary {
        agent_id: "demo".into(),
        executable_path: "/b".into(),
        cache_dir: "/c".into(),
        stale_cache_entries_removed: false,
    };
    assert!(install_warnings(&fresh).is_empty());
    let removed = UninstallOutcome::Cache {
        agent_id: "demo".into(),
        registry_error: None,
    };
    assert!(uninstall_warnings(&removed).is_empty());
    let package = UninstallOutcome::PackageManager {
        agent_id: "demo".into(),
        method: InstallMethod::Npm,
        package: "@acme/demo".into(),
    };
    assert_eq!(
        UninstallMessage(&package).to_text(),
        "Uninstalled demo via npm: @acme/demo"
    );
}

fn cached_agent(agent_id: &str, version: &str, platform: &str, cache_dir: &str) -> CachedAgent {
    CachedAgent {
        agent_id: agent_id.to_string(),
        agent_version: version.to_string(),
        platform: platform.to_string(),
        cache_dir: cache_dir.to_string(),
        executable_path: format!("{cache_dir}/extracted/bin/{agent_id}"),
    }
}

#[test]
fn writes_installed_agents_sorted_by_id_version_and_platform() {
    let agents = vec![
        cached_agent("zebra", "0.1.0", "linux-x86_64", "/tmp/zebra-0.1.0"),
        cached_agent("alpha", "1.0.0", "linux-x86_64", "/tmp/alpha-1.0.0-linux"),
        cached_agent("alpha", "1.0.0", "darwin-aarch64", "/tmp/alpha-1.0.0"),
    ];

    let text = write_installed_list(&agents);
    let lines: Vec<&str> = text.lines().collect();
    assert_eq!(lines.len(), 3);
    assert!(lines[0].starts_with("alpha\t1.0.0\tdarwin-aarch64\t"));
    assert!(lines[1].starts_with("alpha\t1.0.0\tlinux-x86_64\t"));
    assert!(lines[2].starts_with("zebra\t0.1.0\tlinux-x86_64\t"));
}

#[test]
fn strips_version_specifiers_from_package_names() {
    assert_eq!(
        bare_package_name("@agentclientprotocol/codex-acp@1.1.7"),
        "@agentclientprotocol/codex-acp"
    );
    assert_eq!(bare_package_name("acp-demo@2.0.0"), "acp-demo");
    assert_eq!(bare_package_name("@acme/demo"), "@acme/demo");
    assert_eq!(bare_package_name("acp-demo"), "acp-demo");
}

#[test]
fn displays_uninstall_outcomes() {
    assert_eq!(
        CacheUninstallOutcome::Cache {
            agent_id: "demo".to_string()
        }
        .to_text(),
        "Uninstalled demo from the local cache"
    );
    assert_eq!(
        CacheUninstallOutcome::PackageManager {
            agent_id: "demo".to_string(),
            method: InstallMethod::Npm,
            package: "@acme/demo".to_string(),
        }
        .to_text(),
        "Uninstalled demo via npm: @acme/demo"
    );
    assert_eq!(
        CacheUninstallOutcome::PackageManager {
            agent_id: "demo".to_string(),
            method: InstallMethod::Uvx,
            package: "acme-demo".to_string(),
        }
        .to_text(),
        "Uninstalled demo via uv: acme-demo"
    );
}

#[test]
fn npm_packages_are_removed_by_whoever_is_there() {
    let by_npm = uninstall_npx_package("demo", "@acme/demo@1.0.0", Ok(true), Ok(true)).unwrap();
    assert_eq!(by_npm.command.program, "npm");
    assert_eq!(
        by_npm.command.args,
        vec!["uninstall", "--global", "@acme/demo"]
    );
    assert_eq!(by_npm.command.subject, "npm package @acme/demo");
    let by_deno = uninstall_npx_package("demo", "@acme/demo", Ok(false), Ok(true)).unwrap();
    assert_eq!(by_deno.command.program, "deno");
    assert_eq!(
        by_deno.outcome.to_text(),
        "Uninstalled demo via deno: @acme/demo"
    );
    let nobody = uninstall_npx_package("demo", "@acme/demo@2", Ok(false), Ok(false)).unwrap_err();
    assert_eq!(
        nobody.message,
        "cannot uninstall npm package @acme/demo: neither npm nor deno is available"
    );
    let unknown = uninstall_npx_package(
        "demo",
        "@acme/demo",
        Err(Failure::new("no PATH".to_string())),
        Ok(true),
    )
    .unwrap_err();
    assert_eq!(unknown.message, "no PATH");
    let uv = uninstall_uvx_package("demo", "acme-demo");
    assert_eq!(uv.command.program, "uv");
    assert_eq!(uv.command.args, vec!["tool", "uninstall", "acme-demo"]);
}

#[test]
fn writes_name_id_and_description_for_each_agent() {
    let registry = Registry {
        version: "1".to_string(),
        agents: vec![
            registry_agent("z-agent", "Zulu", "1.0.0", "Last agent"),
            registry_agent("a-agent", "Alpha", "1.0.0", "First agent"),
        ],
    };
    assert_eq!(
        write_agent_list(&registry),
        "Alpha\ta-agent\tFirst agent\nZulu\tz-agent\tLast agent\n"
    );
    let ids: Vec<&str> = sorted_agents(&registry)
        .iter()
        .map(|listed| listed.agent.id.as_str())
        .collect();
    assert_eq!(ids, vec!["a-agent", "z-agent"]);
}

#[test]
fn names_that_differ_only_in_case_are_listed_by_id() {
    let registry = Registry {
        version: "1".to_string(),
        agents: vec![
            registry_agent("2", "demo", "1", "second"),
            registry_agent("1", "DEMO", "1", "first"),
            registry_agent("3", "beta", "1", "zeroth"),
        ],
    };
    assert_eq!(
        write_agent_list(&registry),
        "beta\t3\tzeroth\nDEMO\t1\tfirst\ndemo\t2\tsecond\n"
    );
}

fn running_server() -> ServerRecord {
    ServerRecord {
        name: "work".into(),
        state: "running".into(),
        host: "127.0.0.1".into(),
        port: 8010,
        address: "http://127.0.0.1:8010".into(),
    }
}

#[test]
fn renders_server_records_as_table_and_json() {
    let table = write_server_list(&vec![running_server()]);
    assert!(table.starts_with("NAME"));
    assert!(table.contains("work"));
    assert!(table.contains("http://127.0.0.1:8010"));
    assert_eq!(
        table,
        format!(
            "{:<20} {:<9} {:<16} {:<6} ADDRESS\n{:<20} {:<9} {:<16} {:<6} {}\n",
            "NAME",
            "STATE",
            "HOST",
            "PORT",
            "work",
            "running",
            "127.0.0.1",
            8010,
            "http://127.0.0.1:8010"
        )
    );
    assert_eq!(write_server_list(&Vec::new()), "no named servers found\n");
}

#[test]
fn renders_status_and_registration_details() {
    let status = write_status(&running_server());
    assert!(status.contains("state:   running"));
    assert!(status.contains("host:    127.0.0.1"));
    assert!(status.contains("port:    8010"));
    assert!(status.contains("address: http://127.0.0.1:8010"));

    let registrations = write_registrations(
        "work",
        &vec![RegistrationRecord {
            id: "demo".into(),
            route: "/demo".into(),
            readiness: "not_ready".into(),
            detail: Some("spawn failed".into()),
        }],
    );
    assert!(registrations.contains("not_ready: spawn failed"));
}

#[test]
fn route_tables_are_aligned() {
    let table = write_registrations(
        "work",
        &vec![RegistrationRecord {
            id: "demo".into(),
            route: "/demo".into(),
            readiness: "ready".into(),
            detail: None,
        }],
    );
    assert_eq!(
        table,
        format!(
            "{:<24} {:<28} READINESS\n{:<24} {:<28} ready\n",
            "AGENT", "ROUTE", "demo", "/demo"
        )
    );
    assert_eq!(
        write_registrations("work", &Vec::new()),
        "server \"work\" has no registered agents\n"
    );
    assert_eq!(pad_right("ab", 4), "ab  ");
    assert_eq!(pad_right("abcde", 4), "abcde");
    assert_eq!(pad_right("äö", 3), "äö ");
}

#[test]
fn prompts_default_to_yes_on_empty_input() {
    let (decision, output) = prompt_for_installation(&vec!["\n".to_string()]);
    assert!(decision);
    assert_eq!(output, "Proceed with installation? [Y/n]: ");
}

#[test]
fn prompts_accept_no_after_retry() {
    let (decision, output) =
        prompt_for_installation(&vec!["maybe\n".to_string(), "n\n".to_string()]);
    assert!(!decision);
    assert_eq!(
        output,
        "Proceed with installation? [Y/n]: Please answer with y or n.\nProceed with installation? [Y/n]: "
    );
}

#[test]
fn answers_have_a_meaning() {
    assert_eq!(judge_answer(None), Answer::Yes);
    assert_eq!(judge_answer(Some(" YES \n")), Answer::Yes);
    assert_eq!(judge_answer(Some("No\n")), Answer::No);
    assert_eq!(judge_answer(Some("nope")), Answer::Unclear);
    let (decision, output) = prompt_for_installation(&Vec::new());
    assert!(decision);
    assert_eq!(output, "Proceed with installation? [Y/n]: ");
}

#[test]
fn environment_texts_are_stable() {
    let report = EnvironmentReport {
        js: vec![
            ToolAvailability {
                name: "npm",
                path: Some("/bin/npm".to_string()),
            },
            ToolAvailability {
                name: "deno",
                path: None,
            },
        ],
        python: vec![ToolAvailability {
            name: "uv",
            path: None,
        }],
    };
    assert_eq!(
        write_detection_report(&report),
        "Environment detection results:\nJavaScript tools:\nnpm: available (/bin/npm)\ndeno: missing\nPython tools:\nuv: missing\n"
    );
    let plan = InstallationPlan {
        targets: vec![InstallTarget::Uv],
    };
    assert_eq!(
        write_installation_plan(&plan, HostFamily::Unix),
        "\nPlanned installation:\nuv: sh -c \"curl -LsSf https://astral.sh/uv/install.sh | sh\"\n"
    );
    assert_eq!(write_cancelled(), "Installation cancelled.\n");
    assert_eq!(
        write_nothing_to_install(),
        "\nEnvironment already satisfies the requirements. No installation is needed.\n"
    );
    assert_eq!(write_installation_start(), "\nStarting installation...\n");
    let results = vec![
        InstallationResult {
            target: InstallTarget::Deno,
            path: "/home/me/.deno/bin/deno".to_string(),
            on_path: false,
        },
        InstallationResult {
            target: InstallTarget::Uv,
            path: "/bin/uv".to_string(),
            on_path: true,
        },
    ];
    assert_eq!(
        write_installation_complete(&results),
        "\ndeno installed and verified at /home/me/.deno/bin/deno\nNote: deno was installed outside the current PATH. Open a new shell if the command is not yet recognized.\nuv installed and verified at /bin/uv\nEnvironment installation complete.\n"
    );
}

#[test]
fn exit_from_status_returns_success_for_zero_exit() {
    assert_eq!(exit_from_status(Some(0), true), CliExit::Success);
}

#[test]
fn exit_from_status_returns_process_code_for_non_zero_exit() {
    assert_eq!(exit_from_status(Some(5), false), CliExit::Code(5));
}

#[test]
fn exit_from_status_returns_one_for_signal_exit() {
    assert_eq!(exit_from_status(None, false), CliExit::Code(1));
}

#[test]
fn failed_commands_name_their_agent() {
    let error = AgentCommand::Serve.report("demo-agent", Failure::new("bind failed".to_string()));
    assert_eq!(error.message, "failed to serve agent \"demo-agent\"");
    assert_eq!(error.causes, vec!["bind failed"]);
    let error = AgentCommand::Install.report("demo-agent", Failure::new("offline".to_string()));
    assert_eq!(error.message, "failed to install agent \"demo-agent\"");
    let error = AgentCommand::Run.report("demo-agent", Failure::new("gone".to_string()));
    assert_eq!(
        error.chain(),
        "failed to run agent \"demo-agent\": gone"
    );
}
