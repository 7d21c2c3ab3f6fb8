use acp_agent::failure::Failure;
use acp_agent::installer::binary::CachedBinary;
use acp_agent::registry::{
    AgentDistribution, BinaryDistribution, BinaryTarget, Environment, NpxDistribution, Platform,
    Registry, RegistryAgent, UvxDistribution,
};
use acp_agent::runner::{
    binary_command_spec, npm_command_spec, npm_package_runner, plan_launch, resolve_distribution,
    uvx_command_spec, LaunchPlan, PackageRunner, ResolvedDistribution,
};

fn strings(values: &[&str]) -> Vec<String> {
    values.iter().map(|value| value.to_string()).collect()
}

fn demo_env() -> Environment {
    vec![("DEMO_MODE".to_string(), "local".to_string())]
}

fn sample_npx_agent() -> RegistryAgent {
    RegistryAgent {
        id: "demo".to_string(),
        name: "Demo".to_string(),
        version: "1.0.0".to_string(),
        description: String::new(),
        repository: None,
        website: None,
        authors: Vec::new(),
        license: "MIT".to_string(),
        icon: None,
        distribution: AgentDistribution {
            binary: None,
            npx: Some(NpxDistribution {
                package: "@acme/demo".to_string(),
                args: Some(vec!["--stdio".to_string()]),
                env: Some(demo_env()),
            }),
            uvx: None,
        },
    }
}

fn sample_uvx_agent() -> RegistryAgent {
    RegistryAgent {
        distribution: AgentDistribution {
            binary: None,
            npx: None,
            uvx: Some(UvxDistribution {
                package: "acme-demo".to_string(),
                args: Some(vec!["--stdio".to_string()]),
                env: Some(demo_env()),
            }),
        },
        ..sample_npx_agent()
    }
}

#[test]
fn resolves_npm_distribution_through_npm_when_available() {
    let agent = sample_npx_agent();
    let npx = agent.distribution.npx.as_ref().unwrap();
    let spec = npm_command_spec(
        PackageRunner::Npm,
        &npx.package,
        &npx.args,
        &npx.env,
        &strings(&["--model", "gpt-5"]),
    );

    assert_eq!(spec.program, "npm");
    assert_eq!(
        spec.args,
        strings(&["exec", "--", "@acme/demo", "--stdio", "--model", "gpt-5"])
    );
    assert_eq!(spec.env, demo_env());
    assert_eq!(spec.current_dir, None);
}

#[test]
fn resolves_npm_distribution_through_deno_when_npm_is_unavailable() {
    let agent = sample_npx_agent();
    let npx = agent.distribution.npx.as_ref().unwrap();
    let spec = npm_command_spec(
        PackageRunner::Deno,
        &npx.package,
        &npx.args,
        &npx.env,
        &strings(&["--model", "gpt-5"]),
    );

    assert_eq!(spec.program, "deno");
    assert_eq!(
        spec.args,
        strings(&[
            "x",
            "--allow-all",
            "--minimum-dependency-age",
            "0",
            "@acme/demo",
            "--stdio",
            "--model",
            "gpt-5",
        ])
    );
}

#[test]
fn package_runner_is_shared_between_install_and_run() {
    let binary_agent = RegistryAgent {
        distribution: AgentDistribution {
            binary: Some(BinaryDistribution::default()),
            npx: None,
            uvx: None,
        },
        ..sample_npx_agent()
    };
    assert_eq!(
        resolve_distribution(&binary_agent, Platform::LinuxX86_64, Ok(true)).unwrap(),
        None,
        "binary distributions are prepared through the binary cache"
    );
    assert_eq!(
        resolve_distribution(&sample_uvx_agent(), Platform::LinuxX86_64, Ok(true)).unwrap(),
        Some(ResolvedDistribution::Uvx {
            distribution: sample_uvx_agent().distribution.uvx.as_ref().unwrap(),
        })
    );
    assert_eq!(PackageRunner::Uvx.program(), "uvx");
    assert_eq!(PackageRunner::Npm.to_text(), "npm");
    assert_eq!(PackageRunner::Deno.to_text(), "deno");
}

#[test]
fn shared_runner_decision_follows_npm_availability() {
    assert_eq!(npm_package_runner(true), PackageRunner::Npm);
    assert_eq!(npm_package_runner(false), PackageRunner::Deno);
    let agent = sample_npx_agent();
    for (npm, program) in [(true, "npm"), (false, "deno")] {
        match plan_launch(&agent, Platform::LinuxX86_64, Ok(npm), &Vec::new()).unwrap() {
            LaunchPlan::Package(spec) => assert_eq!(spec.program, program),
            other => panic!("unexpected plan: {other:?}"),
        }
    }
}

#[test]
fn launches_are_planned() {
    let agent = sample_uvx_agent();
    let uvx = agent.distribution.uvx.as_ref().unwrap();
    let spec = uvx_command_spec(uvx, &strings(&["--x"]));
    assert_eq!(spec.program, "uvx");
    assert_eq!(spec.args, strings(&["acme-demo", "--stdio", "--x"]));
    let error = plan_launch(
        &sample_npx_agent(),
        Platform::LinuxX86_64,
        Err(Failure::new("odd".to_string())),
        &Vec::new(),
    )
    .unwrap_err();
    assert_eq!(error.message, "odd");
    let mut agent = sample_npx_agent();
    agent.distribution.npx = None;
    let error = plan_launch(&agent, Platform::LinuxX86_64, Ok(true), &Vec::new()).unwrap_err();
    assert_eq!(
        error.message,
        "agent \"demo\" does not have a runnable distribution"
    );
}

#[test]
fn binaries_run_in_their_payload() {
    let target = BinaryTarget {
        archive: "https://example.com/demo.zip".to_string(),
        cmd: "./demo".to_string(),
        sha256: None,
        args: Some(strings(&["acp"])),
        env: Some(demo_env()),
    };
    let mut agent = sample_npx_agent();
    agent.distribution.binary = Some(BinaryDistribution {
        linux_x86_64: Some(target.clone()),
        ..BinaryDistribution::default()
    });
    match plan_launch(&agent, Platform::LinuxX86_64, Ok(true), &Vec::new()).unwrap() {
        LaunchPlan::Binary {
            platform,
            target: found,
        } => {
            assert_eq!(platform, Platform::LinuxX86_64);
            assert_eq!(found, &target);
        }
        other => panic!("unexpected plan: {other:?}"),
    }
    assert!(matches!(
        plan_launch(&agent, Platform::LinuxAarch64, Ok(true), &Vec::new()),
        Ok(LaunchPlan::Package(_))
    ));
    let spec = binary_command_spec(
        &CachedBinary {
            executable_path: "/c/extracted/demo".to_string(),
            extracted_dir: "/c/extracted".to_string(),
            cache_dir: "/c".to_string(),
        },
        &target,
        &strings(&["--x"]),
    );
    assert_eq!(spec.program, "/c/extracted/demo");
    assert_eq!(spec.args, strings(&["acp", "--x"]));
    assert_eq!(spec.env, demo_env());
    assert_eq!(spec.current_dir.as_deref(), Some("/c/extracted"));
}

#[test]
fn agents_are_found_by_their_id() {
    let registry = Registry {
        version: "1".to_string(),
        agents: vec![sample_npx_agent()],
    };
    assert_eq!(registry.list_agents().len(), 1);
    assert_eq!(registry.get_agent("demo").unwrap().name, "Demo");
    assert!(registry.find_agent("Demo").is_none());
    assert_eq!(
        registry.get_agent("x").unwrap_err().message,
        "agent \"x\" not found in registry"
    );
}
