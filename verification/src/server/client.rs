//! The command line's side of the control protocol: what it asks, and what it makes of the
//! answers.

use vstd::prelude::*;
use crate::failure;
use crate::failure::{Failure, FailureView};
use crate::server;
use crate::server::protocol::{
    CreateInstanceRequest, ErrorCode, InstanceResult, InstanceResultView,
    InstanceState, ProtocolError, ReadinessStatus, RegisterRequest,
    RegistrationResult, RegistrationResultView, RegistrationsRequest, Request, RequestEnvelope,
    Response, ResponseEnvelope, StatusRequest, StopInstanceRequest, UnregisterRequest,
    PROTOCOL_VERSION,
};
use crate::server::{
    validate_name, validate_route, RegisterOptions, RegisterResult, RegistrationRecord,
    RegistrationRecordView, ServerRecord, ServerRecordView, StartOptions, StartResult, StopResult,
    UnregisterResult,
};
use crate::text;
use crate::text::to_decimal;

verus! {

/// How long a daemon that was started may take to answer, in milliseconds.
pub const DAEMON_START_TIMEOUT_MILLIS: u64 = 10000;

/// The name of a server's state.
pub open spec fn state_name(state: InstanceState) -> Seq<char> {
    match state {
        InstanceState::Running => "running"@,
        InstanceState::Stopping => "stopping"@,
    }
}

/// Names a server's state.
pub fn instance_state_name(state: InstanceState) -> (r: &'static str)
    ensures
        r@ == state_name(state),
{
    match state {
        InstanceState::Running => "running",
        InstanceState::Stopping => "stopping",
    }
}

/// The name of a readiness status.
pub open spec fn status_name(status: ReadinessStatus) -> Seq<char> {
    match status {
        ReadinessStatus::Disabled => "disabled"@,
        ReadinessStatus::Ready => "ready"@,
        ReadinessStatus::NotReady => "not_ready"@,
    }
}

/// Names a readiness status.
pub fn readiness_status_name(status: ReadinessStatus) -> (r: &'static str)
    ensures
        r@ == status_name(status),
{
    match status {
        ReadinessStatus::Disabled => "disabled",
        ReadinessStatus::Ready => "ready",
        ReadinessStatus::NotReady => "not_ready",
    }
}

/// The name of an error category.
pub open spec fn code_name(code: ErrorCode) -> Seq<char> {
    match code {
        ErrorCode::Unavailable => "unavailable"@,
        ErrorCode::InvalidInput => "invalid_input"@,
        ErrorCode::NotFound => "not_found"@,
        ErrorCode::Conflict => "conflict"@,
        ErrorCode::Operation => "operation"@,
    }
}

/// Names an error category.
pub fn error_code_name(code: ErrorCode) -> (r: &'static str)
    ensures
        r@ == code_name(code),
{
    match code {
        ErrorCode::Unavailable => "unavailable",
        ErrorCode::InvalidInput => "invalid_input",
        ErrorCode::NotFound => "not_found",
        ErrorCode::Conflict => "conflict",
        ErrorCode::Operation => "operation",
    }
}

/// What is shown of a server.
pub open spec fn record_of(instance: InstanceResultView) -> ServerRecordView {
    ServerRecordView {
        name: instance.name,
        state: state_name(instance.state),
        host: instance.host,
        port: instance.port,
        address: instance.address,
    }
}

/// Makes the record of a server.
pub fn server_record(instance: &InstanceResult) -> (r: ServerRecord)
    ensures
        r@ == record_of(instance@),
{
    ServerRecord {
        name: instance.name.clone(),
        state: instance_state_name(instance.state).to_owned(),
        host: instance.host.clone(),
        port: instance.port,
        address: instance.address.clone(),
    }
}

/// What is shown of a registration.
pub open spec fn registration_of(registration: RegistrationResultView) -> RegistrationRecordView {
    RegistrationRecordView {
        id: registration.id,
        route: registration.route,
        readiness: status_name(registration.readiness.status),
        detail: registration.readiness.detail,
    }
}

/// Makes the record of a registration.
pub fn registration_record(registration: RegistrationResult) -> (r: RegistrationRecord)
    ensures
        r@ == registration_of(registration@),
{
    RegistrationRecord {
        id: registration.id,
        route: registration.route,
        readiness: readiness_status_name(registration.readiness.status).to_owned(),
        detail: registration.readiness.detail,
    }
}

/// A request that the daemon refused.
#[derive(Debug)]
pub struct DaemonClientError {
    pub code: ErrorCode,
    pub message: String,
}

impl DaemonClientError {
    /// The refusal in words.
    pub fn to_text(&self) -> (r: String)
        ensures
            r@ == "daemon "@ + code_name(self.code) + " error: "@ + self.message@,
    {
        "daemon ".to_owned().concat(error_code_name(self.code)).concat(" error: ").concat(
            self.message.as_str(),
        )
    }
}

/// Why a request brought no result.
#[derive(Debug)]
pub enum ClientError {
    /// The daemon refused it.
    Daemon(DaemonClientError),
    /// The answer could not be used.
    Protocol(Failure),
}

impl ClientError {
    /// The failure as it is reported.
    pub open spec fn reported(self) -> FailureView {
        match self {
            ClientError::Daemon(e) => failure::failure(
                "daemon "@ + code_name(e.code) + " error: "@ + e.message@,
            ),
            ClientError::Protocol(e) => e@,
        }
    }

    /// Reports the failure.
    pub fn into_failure(self) -> (r: Failure)
        ensures
            r@ == self.reported(),
    {
        match self {
            ClientError::Daemon(e) => Failure::new(e.to_text()),
            ClientError::Protocol(e) => e,
        }
    }
}

/// Takes over the daemon's refusal.
pub fn protocol_error(error: ProtocolError) -> (r: DaemonClientError)
    ensures
        r.code == error.code,
        r.message == error.message,
{
    DaemonClientError { code: error.code, message: error.message }
}

/// The envelope in which a command is sent.
pub fn envelope(command: Request) -> (r: RequestEnvelope)
    ensures
        r.version == PROTOCOL_VERSION,
        r.command == command,
{
    RequestEnvelope { version: PROTOCOL_VERSION, command }
}

/// The complaint about a response in another version of the protocol.
pub open spec fn version_words(what: Seq<char>, version: u32) -> Seq<char> {
    what + text::decimal(version as nat) + ", expected "@ + text::decimal(PROTOCOL_VERSION as nat)
}

fn version_complaint(what: &str, version: u32) -> (r: Failure)
    ensures
        r@ == failure::failure(version_words(what@, version)),
{
    Failure::new(
        what.to_owned().concat(to_decimal(version as u128).as_str()).concat(", expected ").concat(
            to_decimal(PROTOCOL_VERSION as u128).as_str(),
        ),
    )
}

/// Takes the result out of a response. One in another version of the protocol is not read.
pub fn response_result(response: ResponseEnvelope) -> (r: Result<Response, ClientError>)
    ensures
        match response {
            ResponseEnvelope::Success { version, result } => if version == PROTOCOL_VERSION {
                r == Ok::<Response, ClientError>(result)
            } else {
                r is Err && r->Err_0 is Protocol && r->Err_0->Protocol_0@ == failure::failure(
                    version_words("daemon response used protocol version "@, version),
                )
            },
            ResponseEnvelope::Error { version, error } => if version == PROTOCOL_VERSION {
                r is Err && r->Err_0 is Daemon && r->Err_0->Daemon_0.code == error.code
                    && r->Err_0->Daemon_0.message == error.message
            } else {
                r is Err && r->Err_0 is Protocol && r->Err_0->Protocol_0@ == failure::failure(
                    version_words("daemon error response used protocol version "@, version),
                )
            },
        },
{
    match response {
        ResponseEnvelope::Success { version, result } => {
            if version != PROTOCOL_VERSION {
                return Err(
                    ClientError::Protocol(
                        version_complaint("daemon response used protocol version ", version),
                    ),
                );
            }
            Ok(result)
        },
        ResponseEnvelope::Error { version, error } => {
            if version != PROTOCOL_VERSION {
                return Err(
                    ClientError::Protocol(
                        version_complaint("daemon error response used protocol version ", version),
                    ),
                );
            }
            Err(ClientError::Daemon(protocol_error(error)))
        },
    }
}

/// The complaint about an answer, shown in words, that does not belong to the request.
pub open spec fn unexpected(shown: Seq<char>, request: Seq<char>) -> FailureView {
    failure::failure("daemon returned "@ + shown + " for "@ + request)
}

fn unexpected_answer(shown: &str, request: &str) -> (r: Failure)
    ensures
        r@ == unexpected(shown@, request@),
{
    Failure::new("daemon returned ".to_owned().concat(shown).concat(" for ").concat(request))
}

/// The request that starts a server.
pub fn start_request(options: StartOptions) -> (r: Result<Request, Failure>)
    ensures
        if server::is_server_name(options.name@) {
            &&& r is Ok
            &&& r->Ok_0 is CreateInstance
            &&& r->Ok_0->CreateInstance_0.name == options.name
            &&& r->Ok_0->CreateInstance_0.host == options.host
            &&& r->Ok_0->CreateInstance_0.port == options.port
        } else {
            r is Err && r->Err_0@ == failure::failure(server::bad_name())
        },
{
    validate_name(options.name.as_str())?;
    Ok(
        Request::CreateInstance(
            CreateInstanceRequest { name: options.name, host: options.host, port: options.port },
        ),
    )
}

/// What the start of a server brought; `shown` is the answer in words.
pub fn start_result(response: Response, shown: &str) -> (r: Result<StartResult, Failure>)
    ensures
        match response {
            Response::CreateInstance(instance) => r is Ok && r->Ok_0.name == instance.name
                && r->Ok_0.address == instance.address,
            _ => r is Err && r->Err_0@ == unexpected(shown@, "CreateInstance"@),
        },
{
    match response {
        Response::CreateInstance(instance) => Ok(
            StartResult { name: instance.name, address: instance.address },
        ),
        _ => Err(unexpected_answer(shown, "CreateInstance")),
    }
}

/// The request that stops a server.
pub fn stop_request(name: &str) -> (r: Result<Request, Failure>)
    ensures
        if server::is_server_name(name@) {
            r is Ok && r->Ok_0 is StopInstance && r->Ok_0->StopInstance_0.name@ == name@
        } else {
            r is Err && r->Err_0@ == failure::failure(server::bad_name())
        },
{
    validate_name(name)?;
    Ok(Request::StopInstance(StopInstanceRequest { name: name.to_owned() }))
}

/// What the stop of a server brought; `shown` is the answer in words.
pub fn stop_result(response: Response, shown: &str) -> (r: Result<StopResult, Failure>)
    ensures
        match response {
            Response::StopInstance(result) => r is Ok && r->Ok_0.name == result.name,
            _ => r is Err && r->Err_0@ == unexpected(shown@, "StopInstance"@),
        },
{
    match response {
        Response::StopInstance(result) => Ok(StopResult { name: result.name }),
        _ => Err(unexpected_answer(shown, "StopInstance")),
    }
}

/// The route under which an agent is registered: the one asked for, or the agent's name.
pub open spec fn route_or_default(route: Option<Seq<char>>, agent_id: Seq<char>) -> Seq<char> {
    match route {
        Some(r) => r,
        None => "/"@ + agent_id,
    }
}

/// The request that registers an agent.
pub fn register_request(agent_id: &str, options: RegisterOptions) -> (r: Result<Request, Failure>)
    ensures
        ({
            let route = route_or_default(text::opt_text(options.route), agent_id@);
            if !server::is_server_name(options.name@) {
                r is Err && r->Err_0@ == failure::failure(server::bad_name())
            } else {
                match server::route_fault(route) {
                    Some(fault) => r is Err && r->Err_0@ == fault,
                    None => {
                        &&& r is Ok
                        &&& r->Ok_0 is Register
                        &&& r->Ok_0->Register_0.name == options.name
                        &&& r->Ok_0->Register_0.id@ == agent_id@
                        &&& r->Ok_0->Register_0.route@ == route
                        &&& r->Ok_0->Register_0.config == options.config
                        &&& r->Ok_0->Register_0.yolo == options.yolo
                        &&& r->Ok_0->Register_0.args == options.args
                    },
                }
            }
        }),
{
    validate_name(options.name.as_str())?;
    let route: String = match options.route {
        Some(route) => route,
        None => "/".to_owned().concat(agent_id),
    };
    validate_route(route.as_str())?;
    Ok(
        Request::Register(
            RegisterRequest {
                name: options.name,
                id: agent_id.to_owned(),
                route,
                config: options.config,
                yolo: options.yolo,
                args: options.args,
            },
        ),
    )
}

/// What the registration of an agent brought; `shown` is the answer in words.
pub fn register_result(response: Response, shown: &str) -> (r: Result<RegisterResult, Failure>)
    ensures
        match response {
            Response::Register(registration) => r is Ok && r->Ok_0.agent_id == registration.id
                && r->Ok_0.route == registration.route && r->Ok_0.address == registration.address,
            _ => r is Err && r->Err_0@ == unexpected(shown@, "Register"@),
        },
{
    match response {
        Response::Register(registration) => Ok(
            RegisterResult {
                agent_id: registration.id,
                route: registration.route,
                address: registration.address,
            },
        ),
        _ => Err(unexpected_answer(shown, "Register")),
    }
}

/// The request that takes an agent off a server.
pub fn unregister_request(agent_id: &str, name: &str) -> (r: Result<Request, Failure>)
    ensures
        if server::is_server_name(name@) {
            r is Ok && r->Ok_0 is Unregister && r->Ok_0->Unregister_0.name@ == name@
                && r->Ok_0->Unregister_0.id@ == agent_id@
        } else {
            r is Err && r->Err_0@ == failure::failure(server::bad_name())
        },
{
    validate_name(name)?;
    Ok(
        Request::Unregister(UnregisterRequest { name: name.to_owned(), id: agent_id.to_owned() }),
    )
}

/// What taking an agent off a server brought; `shown` is the answer in words.
pub fn unregister_result(response: Response, shown: &str) -> (r: Result<UnregisterResult, Failure>)
    ensures
        match response {
            Response::Unregister(result) => r is Ok && r->Ok_0.agent_id == result.id
                && r->Ok_0.server_name == result.name,
            _ => r is Err && r->Err_0@ == unexpected(shown@, "Unregister"@),
        },
{
    match response {
        Response::Unregister(result) => Ok(
            UnregisterResult { agent_id: result.id, server_name: result.name },
        ),
        _ => Err(unexpected_answer(shown, "Unregister")),
    }
}

/// The servers of an answer, each as it is shown; `shown` is the answer in words.
pub fn list_result(response: Response, shown: &str) -> (r: Result<Vec<ServerRecord>, Failure>)
    ensures
        match response {
            Response::List(result) => {
                &&& r is Ok
                &&& r->Ok_0.len() == result.instances.len()
                &&& forall|i: int|
                    0 <= i < result.instances.len() ==> (#[trigger] r->Ok_0@[i])@ == record_of(
                        result.instances@[i]@,
                    )
            },
            _ => r is Err && r->Err_0@ == unexpected(shown@, "List"@),
        },
{
    match response {
        Response::List(result) => {
            let mut records: Vec<ServerRecord> = Vec::new();
            let mut i: usize = 0;
            while i < result.instances.len()
                invariant
                    i <= result.instances.len(),
                    records.len() == i,
                    forall|k: int|
                        0 <= k < i ==> (#[trigger] records@[k])@ == record_of(
                            result.instances@[k]@,
                        ),
                decreases result.instances.len() - i,
            {
                records.push(server_record(&result.instances[i]));
                i += 1;
            }
            Ok(records)
        },
        _ => Err(unexpected_answer(shown, "List")),
    }
}

/// The request that asks for one server.
pub fn status_request(name: &str) -> (r: Result<Request, Failure>)
    ensures
        if server::is_server_name(name@) {
            r is Ok && r->Ok_0 is Status && r->Ok_0->Status_0.name@ == name@
        } else {
            r is Err && r->Err_0@ == failure::failure(server::bad_name())
        },
{
    validate_name(name)?;
    Ok(Request::Status(StatusRequest { name: name.to_owned() }))
}

/// The server of an answer, as it is shown; `shown` is the answer in words.
pub fn status_result(response: Response, shown: &str) -> (r: Result<ServerRecord, Failure>)
    ensures
        match response {
            Response::Status(instance) => r is Ok && r->Ok_0@ == record_of(instance@),
            _ => r is Err && r->Err_0@ == unexpected(shown@, "Status"@),
        },
{
    match response {
        Response::Status(instance) => Ok(server_record(&instance)),
        _ => Err(unexpected_answer(shown, "Status")),
    }
}

/// The request that asks for the routes of a server.
pub fn registrations_request(name: &str) -> (r: Result<Request, Failure>)
    ensures
        if server::is_server_name(name@) {
            r is Ok && r->Ok_0 is Registrations && r->Ok_0->Registrations_0.name@ == name@
        } else {
            r is Err && r->Err_0@ == failure::failure(server::bad_name())
        },
{
    validate_name(name)?;
    Ok(Request::Registrations(RegistrationsRequest { name: name.to_owned() }))
}

/// The routes of an answer, each as it is shown; `shown` is the answer in words.
pub fn registrations_result(response: Response, shown: &str) -> (r: Result<
    Vec<RegistrationRecord>,
    Failure,
>)
    ensures
        match response {
            Response::Registrations(result) => {
                &&& r is Ok
                &&& r->Ok_0.len() == result.registrations.len()
                &&& forall|i: int|
                    0 <= i < result.registrations.len() ==> (#[trigger] r->Ok_0@[i])@
                        == registration_of(result.registrations@[i]@)
            },
            _ => r is Err && r->Err_0@ == unexpected(shown@, "Registrations"@),
        },
{
    match response {
        Response::Registrations(result) => {
            let mut records: Vec<RegistrationRecord> = Vec::new();
            let ghost all = result.registrations@;
            for registration in it: result.registrations
                invariant
                    it.seq() == all,
                    records.len() == it.index(),
                    forall|k: int|
                        0 <= k < it.index() ==> (#[trigger] records@[k])@ == registration_of(
                            all[k]@,
                        ),
            {
                records.push(registration_record(registration));
            }
            Ok(records)
        },
        _ => Err(unexpected_answer(shown, "Registrations")),
    }
}

/// Why the daemon's socket could not be reached.
#[derive(Debug)]
pub struct EndpointError {
    /// Whether nobody listens there; then a daemon may be started.
    pub missing: bool,
    /// The failure as it is reported.
    pub failure: Failure,
}

/// Judges a connection to the daemon's socket that failed: `absent` tells that there was no socket,
/// or that nobody listened.
pub fn endpoint_error(path: &str, absent: bool, source: &str) -> (r: EndpointError)
    ensures
        r.missing == absent,
        r.failure@ == failure::failure(source@).within(
            "daemon endpoint "@ + path@ + (if absent {
                " is missing: "@
            } else {
                " is unusable: "@
            }) + source@,
        ),
{
    let what = if absent {
        " is missing: "
    } else {
        " is unusable: "
    };
    let message = "daemon endpoint ".to_owned().concat(path).concat(what).concat(source);
    EndpointError { missing: absent, failure: Failure::new(source.to_owned()).within(message) }
}

/// What a probe of a daemon that is being started brought.
#[derive(Debug)]
pub enum Probe {
    /// It could not be reached yet.
    Unreachable,
    /// It answered; the answer in words is there too.
    Answered(Response, String),
    /// It answered, but the answer could not be used.
    Failed(Failure),
}

/// The verdict on a probe.
#[derive(Debug)]
pub enum ProbeVerdict {
    /// The daemon is up.
    Healthy,
    /// Look after the process, and try again.
    NotYet,
    /// Give up.
    GiveUp(Failure),
}

/// Judges a probe.
pub fn judge_probe(probe: Probe) -> (r: ProbeVerdict)
    ensures
        match probe {
            Probe::Unreachable => r is NotYet,
            Probe::Failed(e) => r == ProbeVerdict::GiveUp(e),
            Probe::Answered(Response::Health(result), _) => if result.protocol_version
                == PROTOCOL_VERSION {
                r is Healthy
            } else {
                r is GiveUp && r->GiveUp_0@ == failure::failure(
                    version_words(
                        "daemon reported protocol version "@,
                        result.protocol_version,
                    ),
                )
            },
            Probe::Answered(_, shown) => r is GiveUp && r->GiveUp_0@ == unexpected(
                shown@,
                "Health"@,
            ),
        },
{
    match probe {
        Probe::Unreachable => ProbeVerdict::NotYet,
        Probe::Failed(e) => ProbeVerdict::GiveUp(e),
        Probe::Answered(Response::Health(result), _) => {
            if result.protocol_version != PROTOCOL_VERSION {
                return ProbeVerdict::GiveUp(
                    version_complaint(
                        "daemon reported protocol version ",
                        result.protocol_version,
                    ),
                );
            }
            ProbeVerdict::Healthy
        },
        Probe::Answered(_, shown) => ProbeVerdict::GiveUp(
            unexpected_answer(shown.as_str(), "Health"),
        ),
    }
}

/// What is known of the process of a daemon that is being started.
#[derive(Debug)]
pub struct StartupWatch {
    pub child_exited: bool,
    /// It failed, maybe because another starter was faster: that one's daemon is waited for.
    pub waiting_for_winner: bool,
}

impl StartupWatch {
    /// A process that runs.
    pub fn new() -> (r: StartupWatch)
        ensures
            !r.child_exited,
            !r.waiting_for_winner,
    {
        StartupWatch { child_exited: false, waiting_for_winner: false }
    }

    /// Looks after the process: `exited` tells whether it ended well, if it has ended. Only one
    /// that ended in failure leaves hope.
    pub fn on_child(&mut self, exited: Option<bool>) -> (r: Result<(), Failure>)
        ensures
            match (old(self).child_exited, exited) {
                (false, None) => r is Ok && *final(self) == *old(self),
                (false, Some(well)) => {
                    &&& final(self).child_exited
                    &&& final(self).waiting_for_winner == (old(self).waiting_for_winner || !well)
                    &&& r is Ok <==> !well
                },
                (true, _) => (r is Ok <==> old(self).waiting_for_winner) && *final(self) == *old(self),
            },
            r is Err ==> r->Err_0@ == failure::failure(
                "acp-agent daemon exited before health succeeded"@,
            ),
    {
        if !self.child_exited {
            match exited {
                None => Ok(()),
                Some(well) => {
                    self.child_exited = true;
                    if well {
                        return Err(
                            Failure::new(
                                "acp-agent daemon exited before health succeeded".to_owned(),
                            ),
                        );
                    }
                    self.waiting_for_winner = true;
                    Ok(())
                },
            }
        } else if !self.waiting_for_winner {
            Err(Failure::new("acp-agent daemon exited before health succeeded".to_owned()))
        } else {
            Ok(())
        }
    }
}

/// The failure of a daemon that was not up in time.
pub fn startup_timed_out() -> (r: Failure)
    ensures
        r@ == failure::failure("timed out waiting for the acp-agent daemon to become healthy"@),
{
    Failure::new("timed out waiting for the acp-agent daemon to become healthy".to_owned())
}

/// Reports a start that failed, and with it the failure to clean up after it.
pub fn startup_failure(error: Failure, cleanup: Result<(), Failure>) -> (r: Failure)
    ensures
        match cleanup {
            Ok(_) => r@ == error@,
            Err(e) => r@ == error@.within(
                "failed to clean up daemon after startup failure: "@ + e@.chain(),
            ),
        },
{
    match cleanup {
        Ok(_) => error,
        Err(e) => error.within(
            "failed to clean up daemon after startup failure: ".to_owned().concat(
                e.chain().as_str(),
            ),
        ),
    }
}

/// States, readiness and error codes are told apart by their names, which are single words in lower
/// case.
pub proof fn law_names_tell_apart(
    s: (InstanceState, InstanceState),
    r: (ReadinessStatus, ReadinessStatus),
    c: (ErrorCode, ErrorCode),
)
    ensures
        state_name(s.0) == state_name(s.1) ==> s.0 == s.1,
        status_name(r.0) == status_name(r.1) ==> r.0 == r.1,
        code_name(c.0) == code_name(c.1) ==> c.0 == c.1,
        is_word(state_name(s.0)),
        is_word(status_name(r.0)),
        is_word(code_name(c.0)),
{
    reveal_strlit("running");
    reveal_strlit("stopping");
    reveal_strlit("disabled");
    reveal_strlit("ready");
    reveal_strlit("not_ready");
    reveal_strlit("unavailable");
    reveal_strlit("invalid_input");
    reveal_strlit("not_found");
    reveal_strlit("conflict");
    reveal_strlit("operation");
    assert("running"@[0] == 'r' && "stopping"@[0] == 's');
    assert("disabled"@[0] == 'd' && "ready"@[0] == 'r' && "not_ready"@[0] == 'n');
    assert("unavailable"@[0] == 'u' && "invalid_input"@[0] == 'i' && "not_found"@[0] == 'n'
        && "conflict"@[0] == 'c' && "operation"@[0] == 'o');
}

/// Whether `s` is made of small letters and underscores.
pub open spec fn is_word(s: Seq<char>) -> bool {
    s.len() > 0 && forall|i: int| 0 <= i < s.len() ==> 'a' <= #[trigger] s[i] <= 'z' || s[i] == '_'
}

/// Records tell of servers and routes what the daemon said: which one, where it is, and how it is.
pub proof fn law_records_tell_what_the_daemon_said(
    instance: InstanceResultView,
    registration: RegistrationResultView,
)
    ensures
        record_of(instance).name == instance.name,
        record_of(instance).host == instance.host,
        record_of(instance).port == instance.port,
        record_of(instance).address == instance.address,
        record_of(instance).state == "running"@ <==> instance.state == InstanceState::Running,
        record_of(instance).state == "stopping"@ <==> instance.state == InstanceState::Stopping,
        registration_of(registration).id == registration.id,
        registration_of(registration).route == registration.route,
        registration_of(registration).detail == registration.readiness.detail,
        registration_of(registration).readiness == "ready"@ <==> registration.readiness.status
            == ReadinessStatus::Ready,
        registration_of(registration).readiness == "not_ready"@ <==> registration.readiness.status
            == ReadinessStatus::NotReady,
        registration_of(registration).readiness == "disabled"@ <==> registration.readiness.status
            == ReadinessStatus::Disabled,
{
    reveal_strlit("running");
    reveal_strlit("stopping");
    reveal_strlit("disabled");
    reveal_strlit("ready");
    reveal_strlit("not_ready");
    assert("running"@[0] == 'r' && "stopping"@[0] == 's');
    assert("disabled"@[0] == 'd' && "ready"@[0] == 'r' && "not_ready"@[0] == 'n');
}

/// Errors keep their codes: each is called by its own word and no other.
pub proof fn law_codes_go_by_their_names(code: ErrorCode)
    ensures
        code_name(code) == "unavailable"@ <==> code == ErrorCode::Unavailable,
        code_name(code) == "invalid_input"@ <==> code == ErrorCode::InvalidInput,
        code_name(code) == "not_found"@ <==> code == ErrorCode::NotFound,
        code_name(code) == "conflict"@ <==> code == ErrorCode::Conflict,
        code_name(code) == "operation"@ <==> code == ErrorCode::Operation,
{
    reveal_strlit("unavailable");
    reveal_strlit("invalid_input");
    reveal_strlit("not_found");
    reveal_strlit("conflict");
    reveal_strlit("operation");
    assert("unavailable"@[0] == 'u' && "invalid_input"@[0] == 'i' && "not_found"@[0] == 'n'
        && "conflict"@[0] == 'c' && "operation"@[0] == 'o');
}

/// A route that is named is taken as it is; without one, an agent is registered under its own id.
pub proof fn law_agents_go_by_their_own_route(route: Seq<char>, id: Seq<char>)
    ensures
        route_or_default(Some(route), id) == route,
        route_or_default(None, id) == seq!['/'] + id,
{
    reveal_strlit("/");
    assert("/"@ =~= seq!['/']);
}

/// What a daemon failed at is reported with its code and its words; a failure to talk to it is
/// reported as it is.
pub proof fn law_daemon_errors_are_reported(e: DaemonClientError, f: Failure)
    ensures
        ClientError::Daemon(e).reported().message == "daemon "@ + code_name(e.code) + " error: "@
            + e.message@,
        ClientError::Daemon(e).reported().causes.len() == 0,
        ClientError::Protocol(f).reported() == f@,
{
}

/// A reply is taken exactly if it speaks the daemon's protocol: a result as it is, an error with its
/// code and its words. A request is sent in the same protocol.
pub proof fn law_replies_are_taken_as_they_are(
    response: ResponseEnvelope,
    r: Result<Response, ClientError>,
    command: Request,
    sent: RequestEnvelope,
)
    requires
        call_ensures(response_result, (response,), r),
        call_ensures(envelope, (command,), sent),
    ensures
        r is Ok <==> response is Success && response->Success_version == 2,
        r is Ok ==> r->Ok_0 == response->result,
        r is Err && r->Err_0 is Daemon <==> response is Error && response->Error_version == 2,
        r is Err && r->Err_0 is Daemon ==> r->Err_0->Daemon_0.code == response->error.code
            && r->Err_0->Daemon_0.message == response->error.message,
        sent.version == 2,
        sent.command == command,
{
}

/// Servers are started, stopped and asked after by their names; a name that is none is refused
/// before anything is sent.
pub proof fn law_requests_name_their_server(
    options: StartOptions,
    name: &str,
    started: Result<Request, Failure>,
    stopped: Result<Request, Failure>,
    asked: Result<Request, Failure>,
    listed: Result<Request, Failure>,
)
    requires
        call_ensures(start_request, (options,), started),
        call_ensures(stop_request, (name,), stopped),
        call_ensures(status_request, (name,), asked),
        call_ensures(registrations_request, (name,), listed),
    ensures
        started is Ok <==> server::is_server_name(options.name@),
        started is Ok ==> {
            let request = started->Ok_0->CreateInstance_0;
            &&& started->Ok_0 is CreateInstance
            &&& request.name@ == options.name@
            &&& request.host@ == options.host@
            &&& request.port == options.port
        },
        stopped is Ok <==> server::is_server_name(name@),
        asked is Ok <==> server::is_server_name(name@),
        listed is Ok <==> server::is_server_name(name@),
        stopped is Ok ==> stopped->Ok_0 is StopInstance && stopped->Ok_0->StopInstance_0.name@
            == name@,
        asked is Ok ==> asked->Ok_0 is Status && asked->Ok_0->Status_0.name@ == name@,
        listed is Ok ==> listed->Ok_0 is Registrations && listed->Ok_0->Registrations_0.name@
            == name@,
{
}

/// An agent is registered with everything that was asked for, under its own id; a server's name or
/// a route that is none is refused.
pub proof fn law_registrations_ask_for_everything(
    agent_id: &str,
    options: RegisterOptions,
    r: Result<Request, Failure>,
    name: &str,
    taken_off: Result<Request, Failure>,
)
    requires
        call_ensures(register_request, (agent_id, options), r),
        call_ensures(unregister_request, (agent_id, name), taken_off),
    ensures
        r is Ok ==> {
            let request = r->Ok_0->Register_0;
            &&& r->Ok_0 is Register
            &&& request.name@ == options.name@
            &&& request.id@ == agent_id@
            &&& options.route is Some ==> request.route@ == options.route->Some_0@
            &&& options.route is None ==> request.route@ == seq!['/'] + agent_id@
            &&& request.config@ == options.config@
            &&& request.yolo == options.yolo
            &&& request.args.deep_view() == options.args.deep_view()
            &&& server::is_server_name(options.name@)
            &&& server::route_fault(request.route@) is None
        },
        r is Err ==> !server::is_server_name(options.name@) || server::route_fault(
            route_or_default(text::opt_text(options.route), agent_id@),
        ) is Some,
        taken_off is Ok <==> server::is_server_name(name@),
        taken_off is Ok ==> taken_off->Ok_0 is Unregister && taken_off->Ok_0->Unregister_0.name@
            == name@ && taken_off->Ok_0->Unregister_0.id@ == agent_id@,
{
    law_agents_go_by_their_own_route(Seq::empty(), agent_id@);
}

/// An answer is taken exactly if it is of the kind that was asked for, with what it says.
pub proof fn law_answers_fit_their_request(
    response: Response,
    shown: &str,
    started: Result<StartResult, Failure>,
    stopped: Result<StopResult, Failure>,
    registered: Result<RegisterResult, Failure>,
    removed: Result<UnregisterResult, Failure>,
    told: Result<ServerRecord, Failure>,
)
    requires
        call_ensures(start_result, (response, shown), started),
        call_ensures(stop_result, (response, shown), stopped),
        call_ensures(register_result, (response, shown), registered),
        call_ensures(unregister_result, (response, shown), removed),
        call_ensures(status_result, (response, shown), told),
    ensures
        started is Ok <==> response is CreateInstance,
        started is Ok ==> started->Ok_0.name@ == response->CreateInstance_0.name@
            && started->Ok_0.address@ == response->CreateInstance_0.address@,
        stopped is Ok <==> response is StopInstance,
        stopped is Ok ==> stopped->Ok_0.name@ == response->StopInstance_0.name@,
        registered is Ok <==> response is Register,
        registered is Ok ==> registered->Ok_0.agent_id@ == response->Register_0.id@
            && registered->Ok_0.route@ == response->Register_0.route@ && registered->Ok_0.address@
            == response->Register_0.address@,
        removed is Ok <==> response is Unregister,
        removed is Ok ==> removed->Ok_0.agent_id@ == response->Unregister_0.id@
            && removed->Ok_0.server_name@ == response->Unregister_0.name@,
        told is Ok <==> response is Status,
        told is Ok ==> told->Ok_0@.name == response->Status_0.name@ && told->Ok_0@.host
            == response->Status_0.host@ && told->Ok_0@.port == response->Status_0.port,
{
}

/// Lists tell of everything that the daemon told of, in its order.
pub proof fn law_lists_tell_of_everything(
    response: Response,
    shown: &str,
    servers: Result<Vec<ServerRecord>, Failure>,
    routes: Result<Vec<RegistrationRecord>, Failure>,
    i: int,
)
    requires
        call_ensures(list_result, (response, shown), servers),
        call_ensures(registrations_result, (response, shown), routes),
    ensures
        servers is Ok <==> response is List,
        servers is Ok ==> servers->Ok_0.len() == response->List_0.instances.len(),
        servers is Ok && 0 <= i < servers->Ok_0.len() ==> servers->Ok_0@[i]@.name
            == response->List_0.instances@[i].name@ && servers->Ok_0@[i]@.address
            == response->List_0.instances@[i].address@,
        routes is Ok <==> response is Registrations,
        routes is Ok ==> routes->Ok_0.len() == response->Registrations_0.registrations.len(),
        routes is Ok && 0 <= i < routes->Ok_0.len() ==> routes->Ok_0@[i]@.id
            == response->Registrations_0.registrations@[i].id@ && routes->Ok_0@[i]@.route
            == response->Registrations_0.registrations@[i].route@,
{
    if servers is Ok && 0 <= i < servers->Ok_0.len() {
        assert(servers->Ok_0@[i]@ == record_of(response->List_0.instances@[i]@));
    }
    if routes is Ok && 0 <= i < routes->Ok_0.len() {
        assert(routes->Ok_0@[i]@ == registration_of(
            response->Registrations_0.registrations@[i]@,
        ));
    }
}

/// A daemon is healthy exactly if it answered the question after its health in the right version; it
/// is waited for only as long as it cannot be reached.
pub proof fn law_daemons_are_waited_for_until_they_answer(probe: Probe, r: ProbeVerdict)
    requires
        call_ensures(judge_probe, (probe,), r),
    ensures
        r is NotYet <==> probe is Unreachable,
        r is Healthy <==> probe is Answered && probe->Answered_0 is Health
            && probe->Answered_0->Health_0.protocol_version == 2,
        probe is Failed ==> r is GiveUp && r->GiveUp_0 == probe->Failed_0,
{
}

/// A daemon's endpoint that is not there is told apart from one that cannot be used; and a start that
/// failed is reported as such, with what went wrong in clearing up.
pub proof fn law_endpoints_are_missing_or_unusable(
    path: &str,
    absent: bool,
    source: &str,
    r: EndpointError,
    error: Failure,
    cleanup: Result<(), Failure>,
    reported: Failure,
)
    requires
        call_ensures(endpoint_error, (path, absent, source), r),
        call_ensures(startup_failure, (error, cleanup), reported),
    ensures
        r.missing == absent,
        ("daemon endpoint "@ + path@).is_prefix_of(r.failure@.message),
        source@.is_suffix_of(r.failure@.message),
        cleanup is Ok ==> reported@ == error@,
        cleanup is Err ==> reported@.causes.first() == error@.message
            && cleanup->Err_0@.chain().is_suffix_of(reported@.message),
{
    let all = r.failure@.message;
    let head = "daemon endpoint "@ + path@;
    assert(all.take(head.len() as int) =~= head);
    assert(all.skip(all.len() - source@.len()) =~= source@);
    if cleanup is Err {
        let words = reported@.message;
        let tail = cleanup->Err_0@.chain();
        assert(words.skip(words.len() - tail.len()) =~= tail);
    }
}

/// A daemon that exits ends the wait for it: at once if it ended well, and else only if no other one
/// is waited for, which a failed exit is taken as a sign of. One that still runs changes nothing.
pub proof fn law_exits_end_the_wait(
    watch: &mut StartupWatch,
    exited: Option<bool>,
    r: Result<(), Failure>,
)
    requires
        call_ensures(StartupWatch::on_child, (watch, exited), r),
    ensures
        exited is None && !old(watch).child_exited ==> r is Ok && *final(watch) == *old(watch),
        exited == Some(true) && !old(watch).child_exited ==> r is Err,
        exited == Some(false) && !old(watch).child_exited ==> r is Ok && final(watch).waiting_for_winner,
        exited is Some ==> final(watch).child_exited,
        old(watch).child_exited ==> *final(watch) == *old(watch) && (r is Ok <==> old(watch).waiting_for_winner),
{
}

} // verus!
