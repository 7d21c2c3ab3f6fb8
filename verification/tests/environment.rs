use acp_agent::failure::Failure;
use acp_agent::installer::environment::{
    detect_environment, display_status, ensure_installer_prerequisites, installer_outcome,
    locate_installation, plan_installation, render_output, search_directories, version_outcome,
    EnvironmentReport, HostFamily, InstallTarget, InstallationPlan, InstallationResult,
    InstallationRun, ProcessOutput, ToolAvailability,
};

fn report(js_available: &[&str], python_available: &[&str]) -> EnvironmentReport {
    let tool = |name: &'static str, available: &[&str]| ToolAvailability {
        name,
        path: available.contains(&name).then(|| format!("/bin/{name}")),
    };
    EnvironmentReport {
        js: vec![tool("npm", js_available), tool("deno", js_available)],
        python: vec![tool("uv", python_available)],
    }
}

#[test]
fn plans_deno_and_uv_when_both_toolchains_are_missing() {
    let plan = plan_installation(&report(&[], &[]));

    assert_eq!(plan.targets, vec![InstallTarget::Deno, InstallTarget::Uv]);
}

#[test]
fn skips_deno_installation_when_npm_is_available() {
    let plan = plan_installation(&report(&["npm"], &["uv"]));

    assert!(plan.targets.is_empty());
}

#[test]
fn skips_deno_installation_when_deno_is_available() {
    let plan = plan_installation(&report(&["deno"], &["uv"]));

    assert!(plan.targets.is_empty());
}

#[test]
fn installer_command_display_is_derived_from_the_same_specification() {
    for target in [InstallTarget::Deno, InstallTarget::Uv] {
        for family in [HostFamily::Unix, HostFamily::Windows] {
            let command = target.installer_command(family);
            let display = command.display();
            let (script, prefix) = command
                .args
                .split_last()
                .expect("every installer command has a script");

            assert!(display.starts_with(command.program), "{display}");
            for arg in prefix {
                assert!(display.contains(arg), "{display} missing {arg}");
            }
            assert!(
                display.ends_with(&format!("\"{}\"", *script)),
                "{display} must quote the script"
            );
            assert_eq!(target.official_command_display(family), display);
        }
    }
}

#[test]
fn tools_are_looked_for_in_turn() {
    let found = detect_environment(
        Ok(Some("/bin/npm".to_string())),
        Ok(None),
        Ok(Some("/bin/uv".to_string())),
    )
    .unwrap();
    assert_eq!(found.js.len(), 2);
    assert_eq!(found.js[0].name, "npm");
    assert!(found.js[0].is_available());
    assert_eq!(found.js[1].name, "deno");
    assert!(!found.js[1].is_available());
    assert_eq!(found.python.len(), 1);
    assert_eq!(found.python[0].path.as_deref(), Some("/bin/uv"));
    let error = detect_environment(
        Ok(None),
        Err(Failure::new("odd".to_string())),
        Err(Failure::new("late".to_string())),
    )
    .unwrap_err();
    assert_eq!(error.message, "odd");
}

#[test]
fn scripts_need_curl_on_unix() {
    assert!(InstallTarget::Deno.requires_curl(HostFamily::Unix));
    assert!(!InstallTarget::Uv.requires_curl(HostFamily::Windows));
    assert!(ensure_installer_prerequisites(
        InstallTarget::Deno,
        HostFamily::Unix,
        Ok(Some("/bin/curl".to_string()))
    )
    .is_ok());
    assert!(
        ensure_installer_prerequisites(InstallTarget::Deno, HostFamily::Windows, Ok(None)).is_ok()
    );
    let error = ensure_installer_prerequisites(InstallTarget::Uv, HostFamily::Unix, Ok(None))
        .unwrap_err();
    assert_eq!(
        error.message,
        "Cannot install uv because curl is not available in the current environment"
    );
}

fn output(success: bool, code: Option<i32>, stdout: &[u8], stderr: &[u8]) -> ProcessOutput {
    ProcessOutput {
        success,
        code,
        signal: if code.is_none() { Some(9) } else { None },
        stdout: stdout.to_vec(),
        stderr: stderr.to_vec(),
    }
}

#[test]
fn output_is_shown_as_text() {
    assert_eq!(display_status(Some(3), None), "3");
    assert_eq!(display_status(Some(-1), None), "-1");
    assert_eq!(display_status(None, Some(9)), "signal 9");
    assert_eq!(display_status(None, None), "unknown");
    assert_eq!(render_output(b"out \xff\n", b" err "), "out \u{fffd}\nerr");
    assert_eq!(render_output(b"out", b""), "out");
    assert_eq!(render_output(b"", b"err"), "err");
    assert_eq!(render_output(b" ", b""), "installer exited without any output");
    let error = installer_outcome(InstallTarget::Deno, &output(false, Some(3), b"a", b"b"))
        .unwrap_err();
    assert_eq!(
        error.message,
        "installer for deno failed with status 3: a\nb"
    );
    assert!(installer_outcome(InstallTarget::Deno, &output(true, Some(0), b"", b"")).is_ok());
    assert!(version_outcome("deno", &output(true, Some(0), b"", b"")).is_ok());
    let error = version_outcome("deno", &output(false, None, b"", b"")).unwrap_err();
    assert!(error.message.contains("deno"));
}

#[test]
fn verify_installation_derives_path_and_on_path_from_one_resolution() {
    let found = locate_installation(
        InstallTarget::Deno,
        Some("/home/me"),
        Ok(Some("/usr/bin/deno".to_string())),
        Ok(Some("/home/me/.deno/bin/deno".to_string())),
    )
    .unwrap();
    assert_eq!(found.path, "/usr/bin/deno");
    assert!(found.on_path);
    let found = locate_installation(
        InstallTarget::Deno,
        Some("/home/me"),
        Ok(None),
        Ok(Some("/home/me/.deno/bin/deno".to_string())),
    )
    .unwrap();
    assert_eq!(found.path, "/home/me/.deno/bin/deno");
    assert!(!found.on_path);
    assert!(locate_installation(InstallTarget::Uv, None, Ok(None), Ok(None)).is_err());
}

#[test]
fn installers_put_tools_into_known_directories() {
    assert_eq!(
        InstallTarget::Deno.known_bin_directories("/home/me", HostFamily::Unix),
        vec!["/home/me/.deno/bin"]
    );
    assert_eq!(
        InstallTarget::Uv
            .known_bin_directories("/home/me", HostFamily::Unix)
            .first()
            .map(String::as_str),
        Some("/home/me/.local/bin")
    );
    assert_eq!(
        search_directories(&vec!["/a".to_string()], Some(vec!["/b".to_string()])),
        Some(vec!["/a".to_string(), "/b".to_string()])
    );
}

fn plan() -> InstallationPlan {
    InstallationPlan {
        targets: vec![InstallTarget::Deno, InstallTarget::Uv],
    }
}

fn installed(target: InstallTarget) -> InstallationResult {
    InstallationResult {
        target,
        path: "/bin/x".to_string(),
        on_path: true,
    }
}

#[test]
fn installs_targets_sequentially_in_plan_order() {
    let mut run = InstallationRun::new(&plan());
    let mut order = Vec::new();
    while let Some(target) = run.next_target() {
        order.push(target);
        run.record(Ok(installed(target)));
    }
    assert_eq!(order, vec![InstallTarget::Deno, InstallTarget::Uv]);
    let results = run.finish().unwrap();
    assert_eq!(results.len(), 2);
    assert_eq!(results[1].target, InstallTarget::Uv);
}

#[test]
fn installs_targets_stop_at_the_first_failure() {
    let mut run = InstallationRun::new(&plan());
    assert_eq!(run.next_target(), Some(InstallTarget::Deno));
    run.record(Err(Failure::new("broken".to_string())));
    assert_eq!(run.next_target(), None);
    assert_eq!(run.finish().unwrap_err().message, "broken");
}
