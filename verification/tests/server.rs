use acp_agent::failure::Failure;
use acp_agent::registry::Registry;
use acp_agent::serve::health::{ReadinessFailure, ReadinessSnapshot};
use acp_agent::serve::RouteConfig;
use acp_agent::server::client::{
    endpoint_error, judge_probe, list_result, protocol_error, register_request, register_result,
    registration_record, registrations_request, registrations_result, response_result,
    server_record, start_request, start_result, startup_failure, startup_timed_out,
    status_request, status_result, stop_request, stop_result, unregister_request,
    unregister_result, ClientError, Probe, ProbeVerdict, StartupWatch,
};
use acp_agent::server::control::{
    daemon_outcome, ends_daemon, error_response, handle_request, receive, registration_agent,
    respond, success, unreadable_request, Handled, RegistrationStep, SocketRemoval,
};
use acp_agent::server::protocol::{
    CreateInstanceRequest, ErrorCode, HealthResult, InstanceResult, InstanceState, ListResult,
    ProtocolError, ReadinessResult, ReadinessStatus, RegisterRequest, RegistrationResult,
    RegistrationsResult, Request, RequestEnvelope, Response, ResponseEnvelope, StatusRequest,
    StopInstanceRequest, StopInstanceResult, UnregisterRequest,
    UnregisterResult as ProtocolUnregisterResult, PROTOCOL_VERSION,
};
use acp_agent::server::routes::{
    public_address, readiness_result, registrations, report_rewrite, rewrite_route_prefix,
    rewrite_target, route_matches, ListenAddress, RouteKey,
};
use acp_agent::server::state::{
    already_running, bare_host, control_url, http_url, is_loopback_host, must_remove_state,
    public_url, report_url, state_directory, ServerPaths, UrlFault,
};
use acp_agent::server::supervisor::{
    BindFault, CreateStep, Dispatch, ListenerEnd, SupervisorState,
};
use acp_agent::server::{
    judge_route, validate_agent_id, validate_name, validate_route, RegisterOptions, StartOptions,
};

#[test]
fn maps_protocol_errors_to_stable_typed_messages() {
    let error = protocol_error(ProtocolError {
        code: ErrorCode::NotFound,
        message: "missing".to_string(),
    });
    assert_eq!(error.to_text(), "daemon not_found error: missing");
    assert_eq!(error.code, ErrorCode::NotFound);
}

#[test]
fn maps_instance_states_without_legacy_process_fields() {
    let record = server_record(&InstanceResult {
        name: "default".to_string(),
        host: "127.0.0.1".to_string(),
        port: 8010,
        address: "http://127.0.0.1:8010".to_string(),
        state: InstanceState::Running,
    });
    assert_eq!(record.state, "running");
    assert_eq!(record.host, "127.0.0.1");
    assert_eq!(record.port, 8010);
    assert_eq!(record.address, "http://127.0.0.1:8010");
}

fn registration(id: &str, route: &str, status: ReadinessStatus) -> RegistrationResult {
    RegistrationResult {
        name: "work".into(),
        id: id.into(),
        route: route.into(),
        address: "http://127.0.0.1:8010".into(),
        path: "/acp".into(),
        health_endpoint: true,
        readyz_endpoint: true,
        max_processes: 1,
        readiness: ReadinessResult {
            status,
            attempts: 2,
            failures: 1,
            detail: None,
        },
    }
}

#[test]
fn maps_readiness_status_and_detail() {
    let mut shown = registration("demo", "/demo", ReadinessStatus::NotReady);
    shown.readiness.detail = Some("spawn failed".into());
    let record = registration_record(shown);

    assert_eq!(record.id, "demo");
    assert_eq!(record.route, "/demo");
    assert_eq!(record.readiness, "not_ready");
    assert_eq!(record.detail.as_deref(), Some("spawn failed"));
}

#[test]
fn longest_match_and_uri_rewrite_preserve_query_and_request_metadata() {
    assert!(route_matches("/agent", "/agent/acp"));
    assert!(!route_matches("/agent", "/agent-two/acp"));
    assert_eq!(
        rewrite_route_prefix("/agent/acp", Some("x=1"), "/agent").unwrap(),
        "/acp?x=1"
    );
}

#[test]
fn rewriting_cuts_off_the_route_alone() {
    assert_eq!(rewrite_target("/agent", None, "/agent").unwrap(), "/");
    assert_eq!(
        rewrite_target("/agent", Some("q"), "/agent").unwrap(),
        "/?q"
    );
    assert_eq!(
        rewrite_target("/agent/a/b", None, "/agent").unwrap(),
        "/a/b"
    );
    assert_eq!(
        rewrite_target("/agents/a", None, "/agent").unwrap_err(),
        "route /agent does not match request path /agents/a"
    );
    assert_eq!(rewrite_route_prefix("/agent", None, "/agent").unwrap(), "/");
    assert_eq!(
        report_rewrite(Err("bad".to_string())).unwrap_err(),
        "failed to rewrite request URI: bad"
    );
    assert!(rewrite_route_prefix("/agent/a b", None, "/agent")
        .unwrap_err()
        .starts_with("failed to rewrite request URI: "));
}

fn snapshot(attempts: u64, failures: u64, failed: bool, detail: Option<&str>) -> ReadinessSnapshot {
    ReadinessSnapshot {
        attempts,
        failures,
        last_attempt_failed: failed,
        last_failure: detail.map(|detail| ReadinessFailure {
            at: 1,
            detail: detail.to_string(),
        }),
    }
}

#[test]
fn readiness_projection_reports_disabled_without_detail() {
    let result = readiness_result(false, snapshot(3, 2, true, Some("ignored when disabled")));

    assert_eq!(result.status, ReadinessStatus::Disabled);
    assert_eq!(result.attempts, 3);
    assert_eq!(result.failures, 2);
    assert_eq!(result.detail, None);
}

#[test]
fn readiness_projection_reports_initial_ready() {
    let result = readiness_result(true, snapshot(0, 0, false, None));

    assert_eq!(result.status, ReadinessStatus::Ready);
    assert_eq!(result.attempts, 0);
    assert_eq!(result.failures, 0);
    assert_eq!(result.detail, None);
}

#[test]
fn readiness_projection_reports_failed_detail() {
    let result = readiness_result(true, snapshot(2, 1, true, Some("spawn failed")));

    assert_eq!(result.status, ReadinessStatus::NotReady);
    assert_eq!(result.attempts, 2);
    assert_eq!(result.failures, 1);
    assert_eq!(result.detail.as_deref(), Some("spawn failed"));
}

#[test]
fn readiness_projection_omits_stale_detail_after_recovery() {
    let result = readiness_result(true, snapshot(3, 1, false, Some("stale failure")));

    assert_eq!(result.status, ReadinessStatus::Ready);
    assert_eq!(result.attempts, 3);
    assert_eq!(result.failures, 1);
    assert_eq!(result.detail, None);
}

fn address(ip: &str, is_ipv6: bool, port: u16) -> ListenAddress {
    ListenAddress {
        ip: ip.to_string(),
        is_ipv6,
        port,
    }
}

#[test]
fn public_address_rewrites_unspecified_bind_hosts() {
    assert_eq!(
        public_address(&address("0.0.0.0", false, 8123)),
        "http://127.0.0.1:8123"
    );
    assert_eq!(
        public_address(&address("::", true, 8123)),
        "http://[::1]:8123"
    );
    assert_eq!(
        public_address(&address("192.0.2.1", false, 8123)),
        "http://192.0.2.1:8123"
    );
    assert_eq!(
        public_address(&address("2001:db8::1", true, 80)),
        "http://[2001:db8::1]:80"
    );
}

#[test]
fn validates_names_routes_and_agent_ids() {
    assert!(validate_name("team.one").is_ok());
    assert!(validate_name("../bad").is_err());
    assert!(validate_route("/team/codex").is_ok());
    assert!(validate_route("/").is_err());
    assert!(validate_route("/bad/").is_err());
    assert!(validate_agent_id("agent"));
    assert!(!validate_agent_id(" "));
}

#[test]
fn start_options_default_to_the_cli_server_defaults() {
    let options = StartOptions::default();
    assert_eq!(options.name, "default");
    assert_eq!(options.host, "127.0.0.1");
    assert_eq!(options.port, 8010);
}

#[test]
fn validates_server_names_and_agent_routes() {
    assert!(validate_name("default").is_ok());
    assert!(validate_name("team.one").is_ok());
    assert!(validate_name("../bad").is_err());
    assert!(validate_route("/codex-acp").is_ok());
    assert!(validate_route("/team/codex").is_ok());
    assert!(validate_route("/").is_err());
    assert!(validate_route("/custom/route").is_ok());
    assert!(validate_route("/bad/").is_err());
    assert!(validate_route("/bad path").is_err());
}

#[test]
fn refused_routes_and_names_say_why() {
    assert_eq!(
        validate_name("").unwrap_err().message,
        "server name must contain only letters, digits, '.', '-' or '_'"
    );
    for route in ["agent", "/", "/agent/"] {
        assert_eq!(
            validate_route(route).unwrap_err().message,
            "agent route must start with '/', cannot be '/', and must not end with '/'"
        );
    }
    for route in ["/a?b", "/a#b", "/a/../b", "/.."] {
        assert_eq!(
            validate_route(route).unwrap_err().message,
            "agent route contains an invalid path segment"
        );
    }
    let error = validate_route("/bad path").unwrap_err();
    assert_eq!(error.message, "agent route is not a valid URI path");
    assert_eq!(error.causes.len(), 1);
    assert!(judge_route("/a", Ok(("/a".to_string(), None))).is_ok());
    assert!(judge_route("/a", Ok(("/b".to_string(), None))).is_err());
    assert!(judge_route("/a", Ok(("/a".to_string(), Some(String::new())))).is_err());
    let error = judge_route("/a", Err("odd".to_string())).unwrap_err();
    assert_eq!(error.chain(), "agent route is not a valid URI path: odd");
}

#[test]
fn route_matching_uses_complete_path_segments() {
    assert!(route_matches("/agent", "/agent"));
    assert!(route_matches("/agent", "/agent/acp"));
    assert!(!route_matches("/agent", "/agent-two/acp"));
}

fn create_request(name: &str, host: &str, port: u16) -> CreateInstanceRequest {
    CreateInstanceRequest {
        name: name.to_string(),
        host: host.to_string(),
        port,
    }
}

fn create(state: &mut SupervisorState, name: &str, port: u16) -> InstanceResult {
    state
        .create_instance(
            create_request(name, "127.0.0.1", 0),
            Ok(address("127.0.0.1", false, port)),
        )
        .unwrap()
}

fn key(id: &str, route: &str) -> RouteKey {
    RouteKey {
        id: id.to_string(),
        public_route: route.to_string(),
        config: RouteConfig::default(),
    }
}

fn register_command(name: &str, id: &str, route: &str) -> RegisterRequest {
    RegisterRequest {
        name: name.to_string(),
        id: id.to_string(),
        route: route.to_string(),
        config: RouteConfig::default(),
        yolo: false,
        args: Vec::new(),
    }
}

#[test]
fn create_binds_before_commit_and_reports_port_zero_address() {
    let mut state = SupervisorState::new();
    assert!(matches!(
        state.check_creation(&create_request("ephemeral", "127.0.0.1", 0)),
        Ok(CreateStep::Bind)
    ));
    let result = create(&mut state, "ephemeral", 40123);
    assert_eq!(result.name, "ephemeral");
    assert_eq!(result.host, "127.0.0.1");
    assert_eq!(result.port, 40123);
    assert_eq!(result.address, "http://127.0.0.1:40123");
}

#[test]
fn equal_creates_are_idempotent_and_conflicts_do_not_bind() {
    let mut state = SupervisorState::new();
    let first = create(&mut state, "shared", 40123);
    let second = state
        .create_instance(
            create_request("shared", "127.0.0.1", 0),
            Ok(address("127.0.0.1", false, 50000)),
        )
        .unwrap();
    assert_eq!(first.port, second.port);
    assert_eq!(first.address, second.address);
    assert_eq!(state.instances.len(), 1);
    let conflict = state
        .check_creation(&create_request("shared", "127.0.0.1", 1))
        .unwrap_err();
    assert_eq!(conflict.code, ErrorCode::Conflict);
    assert_eq!(
        conflict.message,
        "instance \"shared\" already exists with a different configuration"
    );
}

#[test]
fn failed_bind_leaves_no_instance() {
    let mut state = SupervisorState::new();
    let error = state
        .create_instance(
            create_request("occupied", "127.0.0.1", 8010),
            Err(BindFault::Refused("address in use".to_string())),
        )
        .unwrap_err();
    assert_eq!(error.code, ErrorCode::Unavailable);
    assert_eq!(
        error.message,
        "failed to bind instance 127.0.0.1:8010: address in use"
    );
    assert!(state.instances.is_empty());
    let error = state
        .create_instance(
            create_request("occupied", "127.0.0.1", 8010),
            Err(BindFault::Unread("gone".to_string())),
        )
        .unwrap_err();
    assert_eq!(error.code, ErrorCode::Operation);
    assert_eq!(
        error.message,
        "failed to read instance listener address: gone"
    );
}

#[test]
fn refused_creates_say_why() {
    let mut state = SupervisorState::new();
    let error = state
        .check_creation(&create_request("../x", "127.0.0.1", 0))
        .unwrap_err();
    assert_eq!(error.code, ErrorCode::InvalidInput);
    let error = state
        .check_creation(&create_request("work", " ", 0))
        .unwrap_err();
    assert_eq!(error.message, "instance host must not be empty");
    create(&mut state, "work", 1);
    state.begin_stop("work").unwrap();
    let error = state
        .check_creation(&create_request("work", "127.0.0.1", 0))
        .unwrap_err();
    assert_eq!(error.message, "instance \"work\" is stopping");
    state.shut_down();
    let error = state
        .check_creation(&create_request("other", "127.0.0.1", 0))
        .unwrap_err();
    assert_eq!(error.code, ErrorCode::Operation);
    assert_eq!(error.message, "daemon is shutting down");
}

#[test]
fn stopping_instance_rejects_public_dispatch() {
    let mut state = SupervisorState::new();
    create(&mut state, "public", 1);
    let serial = state.instances[0].serial;
    assert!(matches!(
        state.dispatch(serial, "/route"),
        Dispatch::NotFound
    ));
    let step = state.begin_stop("public").unwrap();
    assert!(step.signal);
    assert!(matches!(
        state.dispatch(serial, "/route"),
        Dispatch::Unavailable
    ));
    assert!(!state.begin_stop("public").unwrap().signal);
    state.finish_stop(step.serial, ListenerEnd::Gone).unwrap();
    assert!(state.instances.is_empty());
    assert!(matches!(
        state.dispatch(serial, "/route"),
        Dispatch::Unavailable
    ));
}

#[test]
fn late_stops_leave_a_later_server_alone() {
    let mut state = SupervisorState::new();
    create(&mut state, "work", 1);
    let first = state.begin_stop("work").unwrap();
    state
        .finish_stop(first.serial, ListenerEnd::Ended(Ok(())))
        .unwrap();
    create(&mut state, "work", 2);
    state.finish_stop(first.serial, ListenerEnd::Gone).unwrap();
    assert_eq!(state.status_instance("work").unwrap().port, 2);
    let second = state.begin_stop("work").unwrap();
    let error = state
        .finish_stop(
            second.serial,
            ListenerEnd::Ended(Err(
                Failure::new("inner".to_string()).within("outer".to_string())
            )),
        )
        .unwrap_err();
    assert_eq!(error.message, "instance listener failed: outer: inner");
    let error = state
        .finish_stop(second.serial, ListenerEnd::Aborted("panic".to_string()))
        .unwrap_err();
    assert_eq!(
        error.message,
        "instance listener failed: instance listener task failed: panic"
    );
    let error = state.status_instance("work").unwrap_err();
    assert_eq!(error.code, ErrorCode::NotFound);
    assert_eq!(error.message, "instance \"work\" was not found");
}

#[test]
fn servers_are_listed_by_name() {
    let mut state = SupervisorState::new();
    create(&mut state, "second", 2);
    create(&mut state, "first", 1);
    let names: Vec<String> = state
        .list_instances()
        .into_iter()
        .map(|instance| instance.name)
        .collect();
    assert_eq!(names, vec!["first", "second"]);
    assert_eq!(state.instance_names(), vec!["second", "first"]);
}

#[test]
fn routes_are_registered_once_and_taken_off_again() {
    let mut state = SupervisorState::new();
    create(&mut state, "work", 8010);
    let serial = state
        .check_registration(&register_command("work", "demo", "/demo"))
        .unwrap();
    let shown = state
        .register(serial, "work", key("demo", "/demo"), 7, snapshot(0, 0, false, None))
        .unwrap();
    assert_eq!(shown.address, "http://127.0.0.1:8010");
    assert_eq!(shown.readiness.status, ReadinessStatus::Ready);
    let error = state
        .register(serial, "work", key("demo", "/other"), 8, snapshot(0, 0, false, None))
        .unwrap_err();
    assert_eq!(error.code, ErrorCode::Conflict);
    assert_eq!(error.message, "agent id demo is already registered");
    let error = state
        .register(serial, "work", key("other", "/demo"), 8, snapshot(0, 0, false, None))
        .unwrap_err();
    assert_eq!(error.message, "route /demo is already registered");
    let unregister = |id: &str| UnregisterRequest {
        name: "work".to_string(),
        id: id.to_string(),
    };
    let error = state.unregister(unregister("other")).unwrap_err();
    assert_eq!(error.code, ErrorCode::NotFound);
    assert_eq!(error.message, "agent other is not registered");
    let (result, runtime) = state.unregister(unregister("demo")).unwrap();
    assert_eq!(result.id, "demo");
    assert_eq!(runtime, 7);
    assert!(state.instances[0].routes.is_empty());
    let error = state.unregister(unregister(" ")).unwrap_err();
    assert_eq!(error.message, "agent id must not be empty");
}

#[test]
fn refused_registrations_say_why() {
    let mut state = SupervisorState::new();
    let error = state
        .check_registration(&register_command("work", "demo", "/demo"))
        .unwrap_err();
    assert_eq!(error.message, "instance \"work\" was not found");
    create(&mut state, "work", 1);
    let mut request = register_command("work", "demo", "/demo");
    request.config.max_processes = 0;
    let error = state.check_registration(&request).unwrap_err();
    assert_eq!(error.code, ErrorCode::InvalidInput);
    assert_eq!(error.message, "max_processes must be greater than zero");
    let error = state
        .check_registration(&register_command("work", "", "/demo"))
        .unwrap_err();
    assert_eq!(error.message, "agent id must not be empty");
    let error = state
        .check_registration(&register_command("work", "demo", "demo"))
        .unwrap_err();
    assert_eq!(error.code, ErrorCode::InvalidInput);
    let step = state.begin_stop("work").unwrap();
    let error = state
        .check_registration(&register_command("work", "demo", "/demo"))
        .unwrap_err();
    assert_eq!(error.message, "instance work is stopping");
    state.finish_stop(step.serial, ListenerEnd::Gone).unwrap();
    let error = state
        .register(
            step.serial,
            "work",
            key("demo", "/demo"),
            1,
            snapshot(0, 0, false, None),
        )
        .unwrap_err();
    assert_eq!(error.message, "instance work is stopping");
}

#[test]
fn requests_take_the_longest_route() {
    let mut state = SupervisorState::new();
    create(&mut state, "work", 1);
    let serial = state.instances[0].serial;
    for (id, route, runtime) in [("a", "/team", 1), ("b", "/team/codex", 2), ("c", "/t", 3)] {
        state
            .register(serial, "work", key(id, route), runtime, snapshot(0, 0, false, None))
            .unwrap();
    }
    let taken = |path: &str| match state.dispatch(serial, path) {
        Dispatch::Forward { route, runtime } => (route, runtime),
        other => panic!("unexpected dispatch of {path}: {other:?}"),
    };
    assert_eq!(taken("/team/codex/acp"), ("/team/codex".to_string(), 2));
    assert_eq!(taken("/team/codex-two"), ("/team".to_string(), 1));
    assert_eq!(taken("/t"), ("/t".to_string(), 3));
    assert!(matches!(
        state.dispatch(serial, "/other"),
        Dispatch::NotFound
    ));
    let (listening, routes) = state.routes_of("work").unwrap();
    assert_eq!(listening.port, 1);
    assert_eq!(routes.len(), 3);
    assert_eq!(routes[1].key.public_route, "/team/codex");
    assert_eq!(routes[1].runtime, 2);
}

#[test]
fn routes_are_listed_in_order() {
    let listed = registrations(
        "work",
        vec![
            registration("z", "/b", ReadinessStatus::Ready),
            registration("y", "/a", ReadinessStatus::Ready),
            registration("x", "/b", ReadinessStatus::Ready),
        ],
    );
    assert_eq!(listed.name, "work");
    let ids: Vec<&str> = listed
        .registrations
        .iter()
        .map(|shown| shown.id.as_str())
        .collect();
    assert_eq!(ids, vec!["y", "x", "z"]);
}

#[test]
fn requests_are_answered() {
    let mut state = SupervisorState::new();
    match handle_request(&mut state, Request::Health) {
        Handled::Reply(ResponseEnvelope::Success {
            version,
            result: Response::Health(health),
        }) => {
            assert_eq!(version, PROTOCOL_VERSION);
            assert_eq!(health.protocol_version, PROTOCOL_VERSION);
        }
        other => panic!("unexpected answer: {other:?}"),
    }
    assert!(matches!(
        handle_request(
            &mut state,
            Request::CreateInstance(create_request("work", "127.0.0.1", 0))
        ),
        Handled::Create(_)
    ));
    create(&mut state, "work", 8010);
    match handle_request(&mut state, Request::List) {
        Handled::Reply(ResponseEnvelope::Success {
            result: Response::List(list),
            ..
        }) => assert_eq!(list.instances.len(), 1),
        other => panic!("unexpected answer: {other:?}"),
    }
    match handle_request(
        &mut state,
        Request::Status(StatusRequest {
            name: "none".to_string(),
        }),
    ) {
        Handled::Reply(ResponseEnvelope::Error { error, .. }) => {
            assert_eq!(error.code, ErrorCode::NotFound)
        }
        other => panic!("unexpected answer: {other:?}"),
    }
    let serial = state.instances[0].serial;
    state
        .register(serial, "work", key("demo", "/demo"), 5, snapshot(0, 0, false, None))
        .unwrap();
    assert!(matches!(
        handle_request(
            &mut state,
            Request::Unregister(UnregisterRequest {
                name: "work".to_string(),
                id: "demo".to_string(),
            })
        ),
        Handled::Released(_, 5)
    ));
    assert!(matches!(
        handle_request(&mut state, Request::Shutdown),
        Handled::Reply(ResponseEnvelope::Success {
            result: Response::Shutdown,
            ..
        })
    ));
    for command in [
        Request::CreateInstance(create_request("more", "127.0.0.1", 0)),
        Request::StopInstance(StopInstanceRequest {
            name: "work".to_string(),
        }),
        Request::Register(register_command("work", "demo", "/demo")),
        Request::Unregister(UnregisterRequest {
            name: "work".to_string(),
            id: "demo".to_string(),
        }),
    ] {
        match handle_request(&mut state, command) {
            Handled::Reply(ResponseEnvelope::Error { error, .. }) => {
                assert_eq!(error.code, ErrorCode::Operation);
                assert_eq!(error.message, "daemon is shutting down");
            }
            other => panic!("unexpected answer: {other:?}"),
        }
    }
    assert!(matches!(
        handle_request(&mut state, Request::List),
        Handled::Reply(ResponseEnvelope::Success { .. })
    ));
}

#[test]
fn other_protocol_versions_are_refused() {
    let envelope = RequestEnvelope {
        version: 1,
        command: Request::Shutdown,
    };
    assert!(!ends_daemon(&envelope));
    match receive(envelope) {
        Err(ResponseEnvelope::Error { version, error }) => {
            assert_eq!(version, 2);
            assert_eq!(error.code, ErrorCode::InvalidInput);
            assert_eq!(
                error.message,
                "unsupported protocol version 1; expected 2"
            );
        }
        other => panic!("unexpected answer: {other:?}"),
    }
    let envelope = RequestEnvelope {
        version: 2,
        command: Request::Shutdown,
    };
    assert!(ends_daemon(&envelope));
    assert!(matches!(receive(envelope), Ok(Request::Shutdown)));
    match response_result(ResponseEnvelope::Success {
        version: 3,
        result: Response::Shutdown,
    }) {
        Err(error) => assert_eq!(
            error.into_failure().message,
            "daemon response used protocol version 3, expected 2"
        ),
        other => panic!("unexpected result: {other:?}"),
    }
    match response_result(ResponseEnvelope::Error {
        version: 3,
        error: ProtocolError {
            code: ErrorCode::Conflict,
            message: "x".to_string(),
        },
    }) {
        Err(ClientError::Protocol(error)) => assert_eq!(
            error.message,
            "daemon error response used protocol version 3, expected 2"
        ),
        other => panic!("unexpected result: {other:?}"),
    }
    match response_result(error_response(ErrorCode::Conflict, "taken".to_string())) {
        Err(ClientError::Daemon(error)) => {
            assert_eq!(error.to_text(), "daemon conflict error: taken")
        }
        other => panic!("unexpected result: {other:?}"),
    }
    assert!(matches!(
        response_result(success(Response::Shutdown)),
        Ok(Response::Shutdown)
    ));
    assert!(matches!(
        respond(Ok(Response::Shutdown)),
        ResponseEnvelope::Success { version: 2, .. }
    ));
    match unreadable_request(Failure::new("inner".to_string()).within("outer".to_string())) {
        ResponseEnvelope::Error { error, .. } => assert_eq!(error.message, "outer"),
        other => panic!("unexpected answer: {other:?}"),
    }
}

#[test]
fn registrations_fail_step_by_step() {
    let registry = Registry {
        version: "1".to_string(),
        agents: Vec::new(),
    };
    let error = registration_agent("demo", Ok(&registry)).unwrap_err();
    assert_eq!(error.code, ErrorCode::NotFound);
    assert_eq!(error.message, "agent demo was not found in the registry");
    let cause = || Failure::new("inner".to_string()).within("outer".to_string());
    let error = registration_agent("demo", Err(cause())).unwrap_err();
    assert_eq!(error.code, ErrorCode::Unavailable);
    assert_eq!(
        error.message,
        "failed to fetch agent registry: outer: inner"
    );
    let error = RegistrationStep::Arguments.report("demo", cause());
    assert_eq!(error.message, "outer");
    let error = RegistrationStep::Resolution.report("demo", cause());
    assert_eq!(error.message, "failed to resolve agent demo: outer: inner");
    let error = RegistrationStep::Runtime.report("demo", cause());
    assert_eq!(error.code, ErrorCode::InvalidInput);
    assert_eq!(
        error.message,
        "failed to construct route runtime: outer: inner"
    );
}

#[test]
fn the_daemon_ends_as_its_socket_does() {
    assert!(daemon_outcome(Ok(()), SocketRemoval::Removed, "/s").is_ok());
    assert!(daemon_outcome(Ok(()), SocketRemoval::Missing, "/s").is_ok());
    let error = daemon_outcome(
        Err(Failure::new("accept".to_string())),
        SocketRemoval::Removed,
        "/s",
    )
    .unwrap_err();
    assert_eq!(error.chain(), "failed to accept daemon connection: accept");
    let error = daemon_outcome(
        Err(Failure::new("accept".to_string())),
        SocketRemoval::Refused(Failure::new("denied".to_string())),
        "/s",
    )
    .unwrap_err();
    assert_eq!(error.chain(), "failed to remove daemon socket /s: denied");
}

#[test]
fn requests_are_built_from_options() {
    match start_request(StartOptions::default()) {
        Ok(Request::CreateInstance(request)) => {
            assert_eq!(request.name, "default");
            assert_eq!(request.port, 8010);
        }
        other => panic!("unexpected request: {other:?}"),
    }
    assert!(stop_request("../x").is_err());
    assert!(matches!(stop_request("x"), Ok(Request::StopInstance(_))));
    assert!(matches!(status_request("x"), Ok(Request::Status(_))));
    assert!(matches!(
        registrations_request("x"),
        Ok(Request::Registrations(_))
    ));
    assert!(matches!(
        unregister_request("demo", "x"),
        Ok(Request::Unregister(_))
    ));
    let options = |route: Option<&str>| RegisterOptions {
        name: "work".to_string(),
        route: route.map(str::to_string),
        config: RouteConfig::default(),
        yolo: true,
        args: vec!["--x".to_string()],
    };
    match register_request("demo", options(None)) {
        Ok(Request::Register(request)) => {
            assert_eq!(request.route, "/demo");
            assert_eq!(request.id, "demo");
            assert!(request.yolo);
            assert_eq!(request.args, vec!["--x"]);
        }
        other => panic!("unexpected request: {other:?}"),
    }
    match register_request("demo", options(Some("/team/demo"))) {
        Ok(Request::Register(request)) => assert_eq!(request.route, "/team/demo"),
        other => panic!("unexpected request: {other:?}"),
    }
    assert!(register_request("demo", options(Some("demo"))).is_err());
}

#[test]
fn answers_are_checked_against_their_request() {
    let instance = InstanceResult {
        name: "work".to_string(),
        host: "127.0.0.1".to_string(),
        port: 1,
        address: "http://127.0.0.1:1".to_string(),
        state: InstanceState::Stopping,
    };
    let started = start_result(Response::CreateInstance(instance.clone()), "").unwrap();
    assert_eq!(started.address, "http://127.0.0.1:1");
    assert_eq!(
        start_result(Response::Shutdown, "Shutdown")
            .unwrap_err()
            .message,
        "daemon returned Shutdown for CreateInstance"
    );
    let stopped = stop_result(
        Response::StopInstance(StopInstanceResult {
            name: "work".to_string(),
        }),
        "",
    )
    .unwrap();
    assert_eq!(stopped.name, "work");
    assert!(stop_result(Response::Shutdown, "Shutdown")
        .unwrap_err()
        .message
        .ends_with("for StopInstance"));
    let shown = status_result(Response::Status(instance.clone()), "").unwrap();
    assert_eq!(shown.state, "stopping");
    assert!(status_result(Response::Shutdown, "Shutdown")
        .unwrap_err()
        .message
        .ends_with("for Status"));
    let listed = list_result(
        Response::List(ListResult {
            instances: vec![instance],
        }),
        "",
    )
    .unwrap();
    assert_eq!(listed.len(), 1);
    assert_eq!(listed[0].name, "work");
    assert!(list_result(Response::Shutdown, "x").is_err());
    let registered = register_result(
        Response::Register(registration("demo", "/demo", ReadinessStatus::Disabled)),
        "",
    )
    .unwrap();
    assert_eq!(registered.agent_id, "demo");
    assert!(register_result(Response::Shutdown, "x").is_err());
    let gone = unregister_result(
        Response::Unregister(ProtocolUnregisterResult {
            name: "work".to_string(),
            id: "demo".to_string(),
        }),
        "",
    )
    .unwrap();
    assert_eq!(gone.server_name, "work");
    assert_eq!(gone.agent_id, "demo");
    assert!(unregister_result(Response::Shutdown, "x").is_err());
    let routes = registrations_result(
        Response::Registrations(RegistrationsResult {
            name: "work".to_string(),
            registrations: vec![registration("demo", "/demo", ReadinessStatus::Disabled)],
        }),
        "",
    )
    .unwrap();
    assert_eq!(routes[0].readiness, "disabled");
    assert!(registrations_result(Response::Shutdown, "x").is_err());
}

#[test]
fn startup_waits_for_health() {
    assert!(matches!(
        judge_probe(Probe::Unreachable),
        ProbeVerdict::NotYet
    ));
    let health = |protocol_version| Response::Health(HealthResult { protocol_version });
    assert!(matches!(
        judge_probe(Probe::Answered(health(2), String::new())),
        ProbeVerdict::Healthy
    ));
    match judge_probe(Probe::Answered(health(1), String::new())) {
        ProbeVerdict::GiveUp(error) => assert_eq!(
            error.message,
            "daemon reported protocol version 1, expected 2"
        ),
        other => panic!("unexpected answer: {other:?}"),
    }
    match judge_probe(Probe::Answered(Response::Shutdown, "Shutdown".to_string())) {
        ProbeVerdict::GiveUp(error) => {
            assert_eq!(error.message, "daemon returned Shutdown for Health")
        }
        other => panic!("unexpected answer: {other:?}"),
    }
    match judge_probe(Probe::Failed(Failure::new("odd".to_string()))) {
        ProbeVerdict::GiveUp(error) => assert_eq!(error.message, "odd"),
        other => panic!("unexpected answer: {other:?}"),
    }
    let mut watch = StartupWatch::new();
    assert!(watch.on_child(None).is_ok());
    assert!(watch.on_child(Some(false)).is_ok());
    assert!(watch.on_child(None).is_ok());
    let mut watch = StartupWatch::new();
    assert_eq!(
        watch.on_child(Some(true)).unwrap_err().message,
        "acp-agent daemon exited before health succeeded"
    );
    assert!(watch.on_child(None).is_err());
    assert_eq!(
        startup_timed_out().message,
        "timed out waiting for the acp-agent daemon to become healthy"
    );
    let plain = startup_failure(Failure::new("late".to_string()), Ok(()));
    assert_eq!(plain.chain(), "late");
    let worse = startup_failure(
        Failure::new("late".to_string()),
        Err(Failure::new("stuck".to_string())),
    );
    assert_eq!(
        worse.chain(),
        "failed to clean up daemon after startup failure: stuck: late"
    );
    let missing = endpoint_error("/s", true, "no such file");
    assert!(missing.missing);
    assert_eq!(
        missing.failure.message,
        "daemon endpoint /s is missing: no such file"
    );
    let broken = endpoint_error("/s", false, "denied");
    assert!(!broken.missing);
    assert_eq!(
        broken.failure.message,
        "daemon endpoint /s is unusable: denied"
    );
}

#[test]
fn server_urls_are_normalised() {
    assert_eq!(
        http_url("127.0.0.1", 8010).unwrap(),
        "http://127.0.0.1:8010"
    );
    assert_eq!(http_url("[::1]", 8010).unwrap(), "http://[::1]:8010");
    assert_eq!(http_url("::1", 8010).unwrap(), "http://[::1]:8010");
    assert_eq!(
        public_url("example.com", 80).unwrap(),
        "http://example.com"
    );
    assert_eq!(
        control_url("0.0.0.0", 8010).unwrap(),
        "http://127.0.0.1:8010"
    );
    assert_eq!(control_url("::", 8010).unwrap(), "http://[::1]:8010");
    assert_eq!(control_url("[::]", 8010).unwrap(), "http://[::1]:8010");
    assert_eq!(
        control_url("LOCALHOST", 1).unwrap(),
        "http://localhost:1"
    );
    assert_eq!(
        http_url("bad host", 1).unwrap_err().message,
        "invalid server host \"bad host\""
    );
    assert_eq!(bare_host("[x]"), "x");
    assert_eq!(bare_host("[x"), "[x");
    assert_eq!(bare_host("["), "[");
    assert_eq!(
        report_url(Ok("http://a//".to_string()), "a", 1).unwrap(),
        "http://a"
    );
    assert_eq!(
        report_url(Err(UrlFault::Port), "a", 1).unwrap_err().message,
        "invalid server port 1"
    );
    assert_eq!(
        report_url(Err(UrlFault::Base("odd".to_string())), "a", 1)
            .unwrap_err()
            .message,
        "odd"
    );
}

#[test]
fn server_files_have_their_places() {
    let paths = ServerPaths {
        directory: "/state".to_string(),
    };
    assert_eq!(paths.state_file("work"), "/state/work.json");
    assert_eq!(paths.log_file("work"), "/state/work.log");
    assert_eq!(state_directory(Some("/x"), None).unwrap(), "/x");
    assert_eq!(
        state_directory(None, Some("/cache")).unwrap(),
        "/cache/acp-agent/servers"
    );
    assert_eq!(
        state_directory(None, None).unwrap_err().message,
        "failed to locate the platform cache directory"
    );
    assert!(is_loopback_host("LocalHost", false));
    assert!(is_loopback_host("[::1]", true));
    assert!(!is_loopback_host("example.com", false));
    assert!(must_remove_state(None, 1));
    assert!(must_remove_state(Some(1), 1));
    assert!(!must_remove_state(Some(2), 1));
    assert_eq!(
        already_running("work").message,
        "server \"work\" is already starting or running"
    );
}
