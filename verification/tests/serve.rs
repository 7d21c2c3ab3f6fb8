use acp_agent::failure::Failure;
use acp_agent::serve::admission::{
    connection_kind, process_capacity_exhausted, upgrade_accepted, AdmissionState, ConnectionKind,
    RequestShape, Reservation,
};
use acp_agent::serve::health::AgentHealth;
use acp_agent::serve::launch::{
    drop_report, must_report_drops, LaunchState, RequestId, STDERR_TAIL_BYTES,
};
use acp_agent::serve::shutdown::{
    ServeAction, ServeEvent, ServeRun, FORCE_CLOSE_GRACE_MILLIS, SHUTDOWN_GRACE_MILLIS,
};
use acp_agent::serve::{
    announce, cors_options, http_server_options, report_bind_failure, router_options,
    validate_mount_path, validate_process_limit, validate_route_config, validate_subpath,
    AgentRouterOptions, CorsPolicy, RouteConfig, ServeOptions, DEFAULT_MAX_PROCESSES,
};

#[test]
fn rejects_invalid_endpoint_and_cors_configuration() {
    for (path, expected) in [
        ("acp", "must start with '/'"),
        ("/", "cannot be '/'"),
        ("/health", "conflicts with the health endpoint"),
        ("/readyz", "conflicts with the readiness endpoint"),
    ] {
        let error = http_server_options(&AgentRouterOptions {
            path: path.to_string(),
            ..AgentRouterOptions::default()
        })
        .unwrap_err();
        assert!(error.message.contains(expected), "{error:#?}");
    }

    for (subpath, expected) in [
        ("myapp", "must start with '/'"),
        ("/", "cannot be '/'"),
        ("/myapp/", "must not end with '/'"),
    ] {
        let error = validate_subpath(subpath).unwrap_err();
        assert!(error.message.contains(expected), "{error:#?}");
    }

    let error = cors_options(vec!["bad\norigin".to_string()], false).unwrap_err();
    assert!(error.message.contains("invalid HTTP header value"));

    let error = cors_options(vec!["https://example.com".to_string()], true).unwrap_err();
    assert!(error
        .message
        .contains("cannot be combined with allow_any_origin"));
}

#[test]
fn origin_policies_follow_the_configuration() {
    assert!(matches!(
        cors_options(Vec::new(), false),
        Ok(CorsPolicy::Disabled)
    ));
    assert!(matches!(
        cors_options(Vec::new(), true),
        Ok(CorsPolicy::AllowAnyOrigin)
    ));
    let origins = vec!["https://a.example".to_string(), "https://b\t".to_string()];
    match cors_options(origins.clone(), false) {
        Ok(CorsPolicy::AllowOrigins(allowed)) => assert_eq!(allowed, origins),
        other => panic!("unexpected policy: {other:?}"),
    }
    let error = cors_options(
        vec!["https://ok".to_string(), "bad\u{7f}".to_string()],
        false,
    )
    .unwrap_err();
    assert_eq!(
        error.message,
        "CORS origin contains an invalid HTTP header value"
    );
    assert_eq!(error.causes.len(), 2);
    assert_eq!(error.causes[0], "invalid CORS origin \"bad\\u{7f}\"");
    assert_eq!(error.causes[1], "failed to parse header value");
}

#[test]
fn process_limits_are_bounded() {
    assert_eq!(
        validate_process_limit(0).unwrap_err().message,
        "max_processes must be greater than zero"
    );
    assert!(validate_process_limit(1).is_ok());
    assert!(validate_process_limit(usize::MAX / 8).is_ok());
    assert_eq!(
        validate_process_limit(usize::MAX / 8 + 1)
            .unwrap_err()
            .message,
        format!("max_processes must not exceed {}", usize::MAX >> 3)
    );
}

#[test]
fn route_configurations_have_defaults_and_become_router_options() {
    let route = RouteConfig::default();
    assert_eq!(route.path, "/acp");
    assert_eq!(route.max_processes, DEFAULT_MAX_PROCESSES);
    assert!(route.health_endpoint && route.readyz_endpoint && !route.allow_any_origin);
    let options = ServeOptions::default();
    assert_eq!(options.host, "127.0.0.1");
    assert_eq!(options.port, 0);
    assert_eq!(options.mount_path, None);

    let options = router_options(&RouteConfig {
        cors_origins: vec!["https://example.com".to_string()],
        ..RouteConfig::default()
    })
    .unwrap();
    assert!(matches!(options.cors, CorsPolicy::AllowOrigins(ref list) if list.len() == 1));
    let error = router_options(&RouteConfig {
        max_processes: 0,
        ..RouteConfig::default()
    })
    .unwrap_err();
    assert_eq!(error.message, "max_processes must be greater than zero");
    let hidden = RouteConfig {
        path: "/health".to_string(),
        health_endpoint: false,
        ..RouteConfig::default()
    };
    assert!(validate_route_config(&hidden).is_ok());
}

#[test]
fn mount_paths_are_checked() {
    assert!(validate_mount_path("/app").is_ok());
    assert_eq!(
        validate_mount_path("app").unwrap_err().message,
        "mount path must start with '/'"
    );
    assert_eq!(
        validate_mount_path("/").unwrap_err().message,
        "mount path cannot be '/'"
    );
    assert_eq!(
        validate_mount_path("/app/").unwrap_err().message,
        "mount path must not end with '/'"
    );
}

#[test]
fn servers_are_announced() {
    assert_eq!(
        announce("127.0.0.1:8010", Some("/app"), &RouteConfig::default()),
        vec![
            "Serving ACP agent at http://127.0.0.1:8010/app/acp (WebSocket available on the same endpoint)",
            "Agent readiness probe at http://127.0.0.1:8010/app/readyz",
        ]
    );
    let quiet = RouteConfig {
        readyz_endpoint: false,
        ..RouteConfig::default()
    };
    assert_eq!(
        announce("[::1]:1", None, &quiet),
        vec!["Serving ACP agent at http://[::1]:1/acp (WebSocket available on the same endpoint)"]
    );
    let error = report_bind_failure(Failure::new("in use".to_string()), "127.0.0.1", 8010);
    assert_eq!(
        error.message,
        "failed to bind ACP HTTP listener on 127.0.0.1:8010"
    );
    assert_eq!(error.causes, vec!["in use"]);
}

#[test]
fn launch_guard_records_failure_for_clean_connection_exit() {
    let mut state = LaunchState::new(1);
    let mut health = AgentHealth::default();

    state.complete(&mut health, None, 0);
    // What ends afterwards must not record a second outcome.
    state.cut_off(&mut health, 1);

    let recorded = &health.state;
    assert_eq!(recorded.attempts, 1);
    assert_eq!(recorded.failures, 1);
    assert!(recorded.last_attempt_failed);
}

#[test]
fn launch_guard_drop_records_success_after_protocol_response() {
    let mut state = LaunchState::new(1);
    let mut health = AgentHealth::default();
    state.outcome_recorded = true;
    health.record_ok(1);
    state.cut_off(&mut health, 0);

    let recorded = &health.state;
    assert_eq!(recorded.attempts, 1);
    assert_eq!(recorded.failures, 0);
    assert!(!recorded.last_attempt_failed);
}

#[test]
fn launch_guard_drop_records_failure_with_stderr_tail_after_initialize() {
    let mut state = LaunchState::new(1);
    state.initialize_requested = true;
    state.push_stderr("error: boom");
    let mut health = AgentHealth::default();
    state.cut_off(&mut health, 0);

    let recorded = &health.state;
    assert_eq!(recorded.attempts, 1);
    assert_eq!(recorded.failures, 1);
    assert!(recorded.last_attempt_failed);
    assert!(recorded
        .last_failure
        .as_ref()
        .unwrap()
        .detail
        .contains("error: boom"));
}

#[test]
fn stderr_tail_truncates_at_byte_boundaries_without_panicking() {
    let mut state = LaunchState::new(1);
    let line = "你好".repeat(STDERR_TAIL_BYTES);
    state.push_stderr(&line);

    let mut expected = line.into_bytes();
    expected.push(b'\n');
    let start = expected.len().saturating_sub(STDERR_TAIL_BYTES);
    let expected = String::from_utf8_lossy(&expected[start..]).into_owned();

    assert_eq!(state.stderr_tail(), expected);
}

#[test]
fn stderr_tail_does_not_grow_for_one_extremely_long_line() {
    let mut state = LaunchState::new(1);
    state.push_stderr(&"x".repeat(STDERR_TAIL_BYTES * 64));

    let tail = &state.stderr_tail;
    assert_eq!(tail.len(), STDERR_TAIL_BYTES);
    assert_eq!(tail.last(), Some(&b'\n'));
}

#[test]
fn stderr_tail_is_the_end_of_all_lines() {
    let mut state = LaunchState::new(1);
    let mut all: Vec<u8> = Vec::new();
    for n in 0..600 {
        let line = format!("line {n} {}", "y".repeat(n % 97));
        state.push_stderr(&line);
        all.extend_from_slice(line.as_bytes());
        all.push(b'\n');
    }
    assert!(all.len() > STDERR_TAIL_BYTES);
    assert_eq!(
        state.stderr_tail.as_slice(),
        &all[all.len() - STDERR_TAIL_BYTES..]
    );
}

#[test]
fn launch_guard_drop_without_signals_records_failure() {
    let mut state = LaunchState::new(1);
    let mut health = AgentHealth::default();
    state.cut_off(&mut health, 0);

    let recorded = &health.state;
    assert_eq!(recorded.attempts, 1);
    assert_eq!(recorded.failures, 1);
    assert!(recorded.last_attempt_failed);
}

#[test]
fn stale_launch_outcome_does_not_overwrite_newer_generation() {
    let mut health = AgentHealth::default();
    // Launch 1 and launch 2 started concurrently; launch 2 (newer) failed
    // first, then launch 1's connection closed later reporting success.
    health.record_failure(2, "launch 2 failed".to_string(), 0);
    health.record_ok(1);

    let recorded = &health.state;
    assert_eq!(recorded.attempts, 2);
    assert_eq!(recorded.failures, 1);
    assert!(recorded.last_attempt_failed);
    assert!(recorded
        .last_failure
        .as_ref()
        .unwrap()
        .detail
        .contains("launch 2 failed"));
}

#[test]
fn newer_launch_outcome_overwrites_older_generation() {
    let mut health = AgentHealth::default();
    health.record_failure(1, "launch 1 failed".to_string(), 0);
    health.record_ok(2);

    let recorded = &health.state;
    assert_eq!(recorded.attempts, 2);
    assert_eq!(recorded.failures, 1);
    assert!(!recorded.last_attempt_failed);
    // The older failure detail stays available for diagnostics.
    assert!(recorded
        .last_failure
        .as_ref()
        .unwrap()
        .detail
        .contains("launch 1 failed"));
}

#[test]
fn generations_are_monotonic_across_launches() {
    let mut health = AgentHealth::default();
    assert_eq!(health.next_generation(), 1);
    assert_eq!(health.next_generation(), 2);
    assert_eq!(health.next_generation(), 3);
}

#[test]
fn readiness_does_not_depend_on_the_order_of_outcomes() {
    let mut one = AgentHealth::default();
    one.record_ok(1);
    one.record_failure(3, "three".to_string(), 3);
    one.record_ok(2);
    let mut other = AgentHealth::default();
    other.record_failure(3, "three".to_string(), 3);
    other.record_ok(2);
    other.record_ok(1);
    for health in [&one, &other] {
        let snapshot = health.readiness_snapshot();
        assert_eq!(snapshot.attempts, 3);
        assert_eq!(snapshot.failures, 1);
        assert!(snapshot.last_attempt_failed);
        assert_eq!(snapshot.last_failure.unwrap().detail, "three");
    }
}

#[test]
fn probes_tell_of_the_last_failure() {
    let mut health = AgentHealth::default();
    assert_eq!(health.readyz(0), (200, "ready\n".to_string()));
    health.record_ok(1);
    health.record_failure(2, "no such file".to_string(), 1_000_000_000);
    assert_eq!(
        health.readyz(3_500_000_000),
        (
            503,
            "not ready: 1 of 2 agent launches failed; last failure (2.5s ago): no such file\n"
                .to_string()
        )
    );
    assert_eq!(
        health.readyz(0),
        (
            503,
            "not ready: 1 of 2 agent launches failed; last failure (recently): no such file\n"
                .to_string()
        )
    );
    health.record_ok(3);
    assert_eq!(health.readyz(0).0, 200);
}

#[test]
fn the_answer_to_initialize_is_the_outcome() {
    let mut health = AgentHealth::default();
    let mut state = LaunchState::new(health.next_generation());
    state.observe_request("ping", RequestId::Number(1));
    state.observe_response(&mut health, &RequestId::Number(1), None, 0);
    assert_eq!(health.state.attempts, 0);
    state.observe_request("initialize", RequestId::Str("a".to_string()));
    state.observe_response(&mut health, &RequestId::Str("b".to_string()), None, 0);
    assert_eq!(health.state.attempts, 0);
    state.observe_response(&mut health, &RequestId::Str("a".to_string()), None, 0);
    assert_eq!(health.state.attempts, 1);
    assert_eq!(health.state.failures, 0);
    state.complete(&mut health, Some("late".to_string()), 1);
    state.cut_off(&mut health, 2);
    assert_eq!(health.state.attempts, 1);

    let mut failed = LaunchState::new(health.next_generation());
    failed.observe_request("initialize", RequestId::Null);
    failed.observe_response(
        &mut health,
        &RequestId::Null,
        Some("refused".to_string()),
        9,
    );
    assert_eq!(health.state.failures, 1);
    assert_eq!(health.state.last_failure.as_ref().unwrap().detail, "refused");
    assert_eq!(health.state.last_failure.as_ref().unwrap().at, 9);
}

#[test]
fn ended_connections_are_told_apart() {
    let detail = |run: &dyn Fn(&mut LaunchState, &mut AgentHealth)| {
        let mut health = AgentHealth::default();
        let mut state = LaunchState::new(1);
        run(&mut state, &mut health);
        health.state.last_failure.unwrap().detail
    };
    assert_eq!(
        detail(&|state, health| state.complete(health, None, 0)),
        "agent connection ended without sending initialize"
    );
    assert_eq!(
        detail(&|state, health| {
            state.observe_request("initialize", RequestId::Number(1));
            state.complete(health, None, 0)
        }),
        "agent connection ended before completing initialize"
    );
    assert_eq!(
        detail(&|state, health| state.complete(health, Some("broken pipe".to_string()), 0)),
        "broken pipe"
    );
    assert_eq!(
        detail(&|state, health| {
            state.observe_request("initialize", RequestId::Number(1));
            state.cut_off(health, 0)
        }),
        "agent connection ended before completing initialize (no stderr captured)"
    );
    assert_eq!(
        detail(&|state, health| {
            state.observe_request("initialize", RequestId::Number(1));
            state.push_stderr("boom");
            state.cut_off(health, 0)
        }),
        "agent connection ended before completing initialize; stderr tail:\nboom\n"
    );
}

#[test]
fn lost_output_is_reported_once_in_a_second() {
    assert!(must_report_drops(3, 2, 1000));
    assert!(!must_report_drops(3, 3, 5000));
    assert!(!must_report_drops(3, 2, 999));
    assert_eq!(
        drop_report(12),
        "[agent stderr] dropped 12 lines: stderr channel full"
    );
}

#[test]
fn websocket_reservations_are_correlated_until_factory_claim() {
    let mut admission = AdmissionState::new(2);
    let first = admission.reserve_websocket();
    assert_eq!(first, Reservation::Reserved(0));
    assert_eq!(
        admission.reserve_websocket(),
        Reservation::Pending,
        "a second handshake bypassed the outstanding reservation"
    );
    assert!(admission.take_websocket_reservation());
    let second = admission.reserve_websocket();
    let second_id = match second {
        Reservation::Reserved(id) => id,
        other => panic!("unexpected answer: {other:?}"),
    };
    admission.cancel_websocket_reservation(second_id);

    assert_eq!(admission.available_permits(), 1);
    admission.release();
    assert_eq!(admission.available_permits(), 2);
}

#[test]
fn slots_are_never_given_out_twice() {
    let mut admission = AdmissionState::new(1);
    assert!(admission.try_acquire());
    assert!(!admission.try_acquire());
    assert_eq!(admission.reserve_websocket(), Reservation::Exhausted);
    admission.release();
    let id = match admission.reserve_websocket() {
        Reservation::Reserved(id) => id,
        other => panic!("unexpected answer: {other:?}"),
    };
    assert!(!admission.try_acquire());
    assert!(admission.take_websocket_reservation());
    assert!(!admission.take_websocket_reservation());
    admission.cancel_websocket_reservation(id);
    assert_eq!(admission.available_permits(), 0);
    assert!(!admission.slot_for_launch(false));
    assert!(admission.slot_for_launch(true));
    admission.release();
    assert!(admission.slot_for_launch(false));
}

#[test]
fn requests_are_told_apart() {
    let plain = RequestShape {
        is_post: false,
        is_connect: false,
        is_http2: false,
        has_connection_id: false,
        upgrade: None,
    };
    assert_eq!(connection_kind(&plain), ConnectionKind::Other);
    assert_eq!(
        connection_kind(&RequestShape {
            is_post: true,
            ..plain.clone()
        }),
        ConnectionKind::InitialHttp
    );
    assert_eq!(
        connection_kind(&RequestShape {
            is_post: true,
            has_connection_id: true,
            ..plain.clone()
        }),
        ConnectionKind::Other
    );
    assert_eq!(
        connection_kind(&RequestShape {
            upgrade: Some("WebSocket".to_string()),
            ..plain.clone()
        }),
        ConnectionKind::WebSocket { http2: false }
    );
    assert_eq!(
        connection_kind(&RequestShape {
            is_connect: true,
            is_http2: true,
            ..plain.clone()
        }),
        ConnectionKind::WebSocket { http2: true }
    );
    assert!(upgrade_accepted(101, false));
    assert!(!upgrade_accepted(200, false));
    assert!(upgrade_accepted(200, true));
    assert!(!upgrade_accepted(300, true));
    assert_eq!(
        process_capacity_exhausted(),
        (503, "agent process capacity exhausted\n")
    );
}

#[test]
fn shutdown_drains_and_then_closes_by_force() {
    let late = || Failure::new("deadline has elapsed".to_string());
    let mut run = ServeRun::new(SHUTDOWN_GRACE_MILLIS);
    assert!(matches!(
        run.on(ServeEvent::ShutdownRequested),
        ServeAction::Drain(3000)
    ));
    assert!(matches!(
        run.on(ServeEvent::TimedOut(late())),
        ServeAction::ForceClose(FORCE_CLOSE_GRACE_MILLIS)
    ));
    match run.on(ServeEvent::TimedOut(late())) {
        ServeAction::Finish(Err(error)) => {
            assert_eq!(
                error.message,
                "ACP HTTP connections did not close after forced shutdown"
            );
            assert_eq!(error.causes, vec!["deadline has elapsed"]);
        }
        other => panic!("unexpected action: {other:?}"),
    }
    assert!(matches!(
        run.on(ServeEvent::ShutdownRequested),
        ServeAction::Wait
    ));

    let mut run = ServeRun::new(1);
    match run.on(ServeEvent::Ended(Err(Failure::new("accept".to_string())))) {
        ServeAction::Finish(Err(error)) => assert_eq!(error.message, "ACP HTTP server failed"),
        other => panic!("unexpected action: {other:?}"),
    }
    let mut run = ServeRun::new(1);
    run.on(ServeEvent::ShutdownRequested);
    assert!(matches!(
        run.on(ServeEvent::Ended(Ok(()))),
        ServeAction::Finish(Ok(()))
    ));
}
