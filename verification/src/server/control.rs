//! Answering the requests of the control protocol.

use vstd::prelude::*;
use crate::failure::{Failure, FailureView};
use crate::order;
use crate::registry;
use crate::registry::{Registry, RegistryAgent};
use crate::server::protocol::{
    CreateInstanceRequest, ErrorCode, HealthResult, InstanceResult, ListResult, ProtocolError,
    ProtocolErrorView, RegisterRequest, RegistrationsRequest, Request, RequestEnvelope, Response,
    ResponseEnvelope, StopInstanceRequest, PROTOCOL_VERSION,
};
use crate::server::supervisor;
use crate::server::supervisor::{
    refusal, DaemonOperationError, DaemonPhase, SupervisorState, SupervisorView,
};
use crate::text;
use crate::text::to_decimal;

verus! {

/// Whether `reply` says that a request was refused, and why.
pub open spec fn refuses(reply: ResponseEnvelope, error: ProtocolErrorView) -> bool {
    &&& reply is Error
    &&& reply->Error_version == PROTOCOL_VERSION
    &&& reply->Error_error@ == error
}

/// Answers a request with its result.
pub fn success(result: Response) -> (r: ResponseEnvelope)
    ensures
        r == (ResponseEnvelope::Success { version: PROTOCOL_VERSION, result }),
{
    ResponseEnvelope::Success { version: PROTOCOL_VERSION, result }
}

/// Answers a request with a refusal.
pub fn error_response(code: ErrorCode, message: String) -> (r: ResponseEnvelope)
    ensures
        refuses(r, refusal(code, message@)),
{
    ResponseEnvelope::Error { version: PROTOCOL_VERSION, error: ProtocolError { code, message } }
}

/// Answers a request with its result, or with its refusal.
pub fn respond(result: Result<Response, DaemonOperationError>) -> (r: ResponseEnvelope)
    ensures
        match result {
            Ok(response) => r == (ResponseEnvelope::Success {
                version: PROTOCOL_VERSION,
                result: response,
            }),
            Err(e) => refuses(r, e@),
        },
{
    match result {
        Ok(response) => success(response),
        Err(e) => error_response(e.code, e.message),
    }
}

/// Whether a request ends the daemon once it is answered.
pub fn ends_daemon(envelope: &RequestEnvelope) -> (r: bool)
    ensures
        r == (envelope.version == PROTOCOL_VERSION && envelope.command is Shutdown),
{
    envelope.version == PROTOCOL_VERSION && matches!(&envelope.command, Request::Shutdown)
}

/// The refusal of a request in another version of the protocol.
pub open spec fn wrong_version(version: u32) -> ProtocolErrorView {
    refusal(
        ErrorCode::InvalidInput,
        "unsupported protocol version "@ + text::decimal(version as nat) + "; expected "@
            + text::decimal(PROTOCOL_VERSION as nat),
    )
}

/// Takes the command out of a request, unless it is in another version of the protocol.
pub fn receive(envelope: RequestEnvelope) -> (r: Result<Request, ResponseEnvelope>)
    ensures
        match r {
            Ok(command) => envelope.version == PROTOCOL_VERSION && command == envelope.command,
            Err(reply) => envelope.version != PROTOCOL_VERSION && refuses(
                reply,
                wrong_version(envelope.version),
            ),
        },
{
    if envelope.version != PROTOCOL_VERSION {
        return Err(
            error_response(
                ErrorCode::InvalidInput,
                "unsupported protocol version ".to_owned().concat(
                    to_decimal(envelope.version as u128).as_str(),
                ).concat("; expected ").concat(to_decimal(PROTOCOL_VERSION as u128).as_str()),
            ),
        );
    }
    Ok(envelope.command)
}

/// Whether a command changes what the daemon runs.
pub open spec fn is_mutation(command: Request) -> bool {
    command is CreateInstance || command is StopInstance || command is Register
        || command is Unregister
}

/// What becomes of a command.
#[derive(Debug)]
pub enum Handled {
    /// It is answered.
    Reply(ResponseEnvelope),
    /// It is answered, and this runtime is no longer served.
    Released(ResponseEnvelope, u64),
    /// A server is to be made, if its address can be had.
    Create(CreateInstanceRequest),
    /// A server is to be stopped.
    Stop(StopInstanceRequest),
    /// An agent's runtime is to be made, and registered.
    Register(RegisterRequest),
    /// The routes of a server are to be listed, with the health of their agents.
    Registrations(RegistrationsRequest),
}

/// Whether `reply` lists the servers by name.
pub open spec fn lists(reply: ResponseEnvelope, s: SupervisorView) -> bool {
    &&& reply is Success
    &&& reply->Success_version == PROTOCOL_VERSION
    &&& reply->Success_result is List
    &&& exists|all: Seq<InstanceResult>|
        #[trigger] supervisor::is_listing(all, s.instances)
            && reply->Success_result->List_0.instances@ == order::sorted(all)
}

/// Whether `reply` tells of the server called `name`.
pub open spec fn tells(reply: ResponseEnvelope, s: SupervisorView, name: Seq<char>) -> bool {
    match s.named(name) {
        None => refuses(reply, supervisor::not_found(name)),
        Some(at) => {
            &&& reply is Success
            &&& reply->Success_version == PROTOCOL_VERSION
            &&& reply->Success_result is Status
            &&& reply->Success_result->Status_0@ == s.instances[at].shown()
        },
    }
}

/// Whether an agent was taken off a server, and `handled` says so, or says why not.
pub open spec fn unregistered(
    before: SupervisorView,
    after: SupervisorView,
    name: Seq<char>,
    id: Seq<char>,
    handled: Handled,
) -> bool {
    match supervisor::removal_fault(before, name, id) {
        Some(e) => handled is Reply && refuses(handled->Reply_0, e) && after == before,
        None => {
            let at = before.named(name)->Some_0;
            let routes = before.instances[at].routes;
            &&& handled is Released
            &&& handled->Released_0 is Success
            &&& handled->Released_0->Success_version == PROTOCOL_VERSION
            &&& handled->Released_0->Success_result is Unregister
            &&& handled->Released_0->Success_result->Unregister_0.name@ == name
            &&& handled->Released_0->Success_result->Unregister_0.id@ == id
            &&& exists|i: int|
                0 <= i < routes.len() && (#[trigger] routes[i]).key.id == id
                    && handled->Released_1 == routes[i].runtime && after == supervisor::removed(
                    before,
                    at,
                    i,
                )
        },
    }
}

/// Decides what becomes of a command.
pub fn handle_request(state: &mut SupervisorState, command: Request) -> (r: Handled)
    requires
        old(state)@.is_sound(),
    ensures
        final(state)@.is_sound(),
        if is_mutation(command) && old(state)@.phase != DaemonPhase::Running {
            &&& r is Reply
            &&& refuses(r->Reply_0, supervisor::shutting_down())
            &&& final(state)@ == old(state)@
        } else {
            match command {
                Request::Health => {
                    &&& final(state)@ == old(state)@
                    &&& r == Handled::Reply(
                        ResponseEnvelope::Success {
                            version: PROTOCOL_VERSION,
                            result: Response::Health(
                                HealthResult { protocol_version: PROTOCOL_VERSION },
                            ),
                        },
                    )
                },
                Request::CreateInstance(request) => final(state)@ == old(state)@ && r
                    == Handled::Create(request),
                Request::StopInstance(request) => final(state)@ == old(state)@ && r
                    == Handled::Stop(request),
                Request::Register(request) => final(state)@ == old(state)@ && r
                    == Handled::Register(request),
                Request::Unregister(request) => unregistered(
                    old(state)@,
                    final(state)@,
                    request.name@,
                    request.id@,
                    r,
                ),
                Request::List => final(state)@ == old(state)@ && r is Reply && lists(
                    r->Reply_0,
                    old(state)@,
                ),
                Request::Status(request) => final(state)@ == old(state)@ && r is Reply && tells(
                    r->Reply_0,
                    old(state)@,
                    request.name@,
                ),
                Request::Registrations(request) => final(state)@ == old(state)@ && r
                    == Handled::Registrations(request),
                Request::Shutdown => {
                    &&& final(state)@ == (SupervisorView {
                        phase: DaemonPhase::ShuttingDown,
                        ..old(state)@
                    })
                    &&& r == Handled::Reply(
                        ResponseEnvelope::Success {
                            version: PROTOCOL_VERSION,
                            result: Response::Shutdown,
                        },
                    )
                },
            }
        },
{
    let mutation = matches!(&command, Request::CreateInstance(_) | Request::StopInstance(_)
        | Request::Register(_) | Request::Unregister(_));
    if mutation && state.phase != DaemonPhase::Running {
        return Handled::Reply(
            error_response(ErrorCode::Operation, "daemon is shutting down".to_owned()),
        );
    }
    match command {
        Request::Health => Handled::Reply(
            success(Response::Health(HealthResult { protocol_version: PROTOCOL_VERSION })),
        ),
        Request::CreateInstance(request) => Handled::Create(request),
        Request::StopInstance(request) => Handled::Stop(request),
        Request::Register(request) => Handled::Register(request),
        Request::Unregister(request) => match state.unregister(request) {
            Ok((result, runtime)) => Handled::Released(
                success(Response::Unregister(result)),
                runtime,
            ),
            Err(e) => Handled::Reply(error_response(e.code, e.message)),
        },
        Request::List => Handled::Reply(
            success(Response::List(ListResult { instances: state.list_instances() })),
        ),
        Request::Status(request) => Handled::Reply(
            match state.status_instance(request.name.as_str()) {
                Ok(instance) => success(Response::Status(instance)),
                Err(e) => error_response(e.code, e.message),
            },
        ),
        Request::Registrations(request) => Handled::Registrations(request),
        Request::Shutdown => {
            state.shut_down();
            Handled::Reply(success(Response::Shutdown))
        },
    }
}

/// The outcome of looking up the agent to be registered.
pub open spec fn lookup_fault(id: Seq<char>, registry: Result<&Registry, Failure>) -> Option<
    ProtocolErrorView,
> {
    match registry {
        Err(e) => Some(
            refusal(
                ErrorCode::Unavailable,
                "failed to fetch agent registry: "@ + e@.chain(),
            ),
        ),
        Ok(found) => if registry::has_no_id(found.agents@, id) {
            Some(
                refusal(
                    ErrorCode::NotFound,
                    "agent "@ + id + " was not found in the registry"@,
                ),
            )
        } else {
            None
        },
    }
}

/// Looks up the agent to be registered.
pub fn registration_agent<'a>(id: &str, registry: Result<&'a Registry, Failure>) -> (r: Result<
    &'a RegistryAgent,
    DaemonOperationError,
>)
    ensures
        match lookup_fault(id@, registry) {
            Some(e) => r is Err && r->Err_0@ == e,
            None => r is Ok && exists|at: int| #[trigger]
                registry::is_first_with_id(registry->Ok_0.agents@, id@, at) && *r->Ok_0
                    == registry->Ok_0.agents@[at],
        },
{
    match registry {
        Err(e) => Err(
            DaemonOperationError::new(
                ErrorCode::Unavailable,
                "failed to fetch agent registry: ".to_owned().concat(e.chain().as_str()),
            ),
        ),
        Ok(found) => match found.find_agent(id) {
            Some(agent) => Ok(agent),
            None => Err(
                DaemonOperationError::new(
                    ErrorCode::NotFound,
                    "agent ".to_owned().concat(id).concat(" was not found in the registry"),
                ),
            ),
        },
    }
}

/// A step on the way to an agent's runtime.
#[derive(Debug, Clone, Copy, PartialEq, Eq, Structural)]
pub enum RegistrationStep {
    /// Finding its arguments.
    Arguments,
    /// Finding its command.
    Resolution,
    /// Making its runtime.
    Runtime,
}

impl RegistrationStep {
    /// The refusal of a registration that failed at this step.
    pub open spec fn fault(self, id: Seq<char>, cause: FailureView) -> ProtocolErrorView {
        match self {
            RegistrationStep::Arguments => refusal(ErrorCode::InvalidInput, cause.message),
            RegistrationStep::Resolution => refusal(
                ErrorCode::Unavailable,
                "failed to resolve agent "@ + id + ": "@ + cause.chain(),
            ),
            RegistrationStep::Runtime => refusal(
                ErrorCode::InvalidInput,
                "failed to construct route runtime: "@ + cause.chain(),
            ),
        }
    }

    /// Refuses a registration that failed at this step.
    pub fn report(self, id: &str, cause: Failure) -> (r: DaemonOperationError)
        ensures
            r@ == self.fault(id@, cause@),
    {
        match self {
            RegistrationStep::Arguments => DaemonOperationError::new(
                ErrorCode::InvalidInput,
                cause.message,
            ),
            RegistrationStep::Resolution => DaemonOperationError::new(
                ErrorCode::Unavailable,
                "failed to resolve agent ".to_owned().concat(id).concat(": ").concat(
                    cause.chain().as_str(),
                ),
            ),
            RegistrationStep::Runtime => DaemonOperationError::new(
                ErrorCode::InvalidInput,
                "failed to construct route runtime: ".to_owned().concat(cause.chain().as_str()),
            ),
        }
    }
}

/// Answers a request that could not be read.
pub fn unreadable_request(cause: Failure) -> (r: ResponseEnvelope)
    ensures
        refuses(r, refusal(ErrorCode::InvalidInput, cause@.message)),
{
    error_response(ErrorCode::InvalidInput, cause.message)
}

/// What became of the daemon's socket when the daemon ended.
#[derive(Debug)]
pub enum SocketRemoval {
    Removed,
    /// It was gone already.
    Missing,
    Refused(Failure),
}

/// How the daemon ends: `accepting` tells whether it stopped because it could not accept another
/// connection. A socket that cannot be removed is reported before that.
pub fn daemon_outcome(
    accepting: Result<(), Failure>,
    removal: SocketRemoval,
    socket_path: &str,
) -> (r: Result<(), Failure>)
    ensures
        match (removal, accepting) {
            (SocketRemoval::Refused(e), _) => r is Err && r->Err_0@ == e@.within(
                "failed to remove daemon socket "@ + socket_path@,
            ),
            (_, Err(e)) => r is Err && r->Err_0@ == e@.within(
                "failed to accept daemon connection"@,
            ),
            (_, Ok(_)) => r is Ok,
        },
{
    match removal {
        SocketRemoval::Refused(e) => Err(
            e.within("failed to remove daemon socket ".to_owned().concat(socket_path)),
        ),
        _ => match accepting {
            Ok(_) => Ok(()),
            Err(e) => Err(e.within("failed to accept daemon connection".to_owned())),
        },
    }
}

/// A refusal speaks the daemon's protocol and holds the code and the words of the error.
pub proof fn law_refusals_tell_the_error(
    reply: ResponseEnvelope,
    code: ErrorCode,
    message: Seq<char>,
)
    requires
        refuses(reply, refusal(code, message)),
    ensures
        reply is Error,
        reply->Error_version == 2,
        reply->Error_error.code == code,
        reply->Error_error.message@ == message,
{
}

/// Servers and routes are changed by four requests only; looking at them, and ending the daemon, is
/// always possible.
pub proof fn law_looking_changes_nothing(command: Request)
    ensures
        command is Health || command is List || command is Status || command is Registrations
            || command is Shutdown <==> !is_mutation(command),
{
}

/// A list tells of every server once and of nothing else, in the order of their names.
pub proof fn law_every_server_is_listed(reply: ResponseEnvelope, s: SupervisorView, at: int)
    requires
        lists(reply, s),
        0 <= at < s.instances.len(),
    ensures
        reply->Success_result->List_0.instances.len() == s.instances.len(),
        order::in_order(reply->Success_result->List_0.instances@),
        exists|i: int|
            0 <= i < s.instances.len() && (
            #[trigger] reply->Success_result->List_0.instances@[i])@ == s.instances[at].shown(),
{
    broadcast use vstd::seq_lib::group_to_multiset_ensures;

    let all = choose|all: Seq<InstanceResult>|
        #[trigger] supervisor::is_listing(all, s.instances)
            && reply->Success_result->List_0.instances@ == order::sorted(all);
    order::lemma_sorted(all);
    let listed = reply->Success_result->List_0.instances@;
    assert(all.contains(all[at]));
    assert(all.to_multiset().count(all[at]) > 0);
    assert(listed.contains(all[at]));
    let i = choose|i: int| 0 <= i < listed.len() && listed[i] == all[at];
    assert(listed[i]@ == s.instances[at].shown());
}

/// A status tells of the server of that name; of no server, it is said that there is none.
pub proof fn law_statuses_tell_of_the_named_server(
    reply: ResponseEnvelope,
    s: SupervisorView,
    name: Seq<char>,
    at: int,
)
    requires
        s.is_sound(),
        tells(reply, s, name),
    ensures
        0 <= at < s.instances.len() && s.instances[at].name == name ==> {
            &&& reply is Success
            &&& reply->Success_result is Status
            &&& reply->Success_result->Status_0.name@ == name
            &&& reply->Success_result->Status_0@ == s.instances[at].shown()
        },
        (forall|i: int| 0 <= i < s.instances.len() ==> (#[trigger] s.instances[i]).name != name)
            ==> reply is Error && reply->Error_error.code == ErrorCode::NotFound,
{
    if 0 <= at < s.instances.len() && s.instances[at].name == name {
        supervisor::law_servers_are_found_by_name_and_number(s, at, name, 0);
        assert(reply->Success_result->Status_0@.name == reply->Success_result->Status_0.name@);
    } else if s.named(name) is Some {
        let found = s.named(name)->Some_0;
        assert(s.has_name(name, found));
        assert(s.instances[found].name == name);
    }
}

/// An agent that was taken off its server is no longer there, what ran it is handed back, and every
/// other route is as it was.
pub proof fn law_unregistered_agents_are_gone(
    before: SupervisorView,
    after: SupervisorView,
    name: Seq<char>,
    id: Seq<char>,
    handled: Handled,
    at: int,
    n: int,
)
    requires
        before.is_sound(),
        unregistered(before, after, name, id, handled),
        handled is Released,
        0 <= at < before.instances.len(),
        before.instances[at].name == name,
        0 <= n < before.instances[at].routes.len(),
    ensures
        ({
            let old_routes = before.instances[at].routes;
            let routes = after.instances[at].routes;
            &&& !supervisor::has_agent(routes, id)
            &&& routes.len() == old_routes.len() - 1
            &&& old_routes[n].key.id == id ==> handled->Released_1 == old_routes[n].runtime
            &&& old_routes[n].key.id != id ==> routes.contains(old_routes[n])
            &&& after.phase == before.phase
            &&& after.instances.len() == before.instances.len()
        }),
        forall|b: int|
            0 <= b < before.instances.len() && b != at ==> #[trigger] after.instances[b]
                == before.instances[b],
{
    supervisor::law_servers_are_found_by_name_and_number(before, at, name, 0);
    let old_routes = before.instances[at].routes;
    let routes = after.instances[at].routes;
    let i = choose|i: int|
        0 <= i < old_routes.len() && (#[trigger] old_routes[i]).key.id == id && handled->Released_1
            == old_routes[i].runtime && after == supervisor::removed(before, at, i);
    assert(before.instances[at].is_sound());
    assert(routes == old_routes.remove(i));
    assert forall|k: int| 0 <= k < routes.len() implies (#[trigger] routes[k]).key.id != id by {
        let from = if k < i {
            k
        } else {
            k + 1
        };
        assert(routes[k] == old_routes[from]);
        if from < i {
            assert(old_routes[from].key.id != old_routes[i].key.id);
        } else {
            assert(old_routes[i].key.id != old_routes[from].key.id);
        }
    }
    if old_routes[n].key.id == id {
        if n < i {
            assert(old_routes[n].key.id != old_routes[i].key.id);
        } else if i < n {
            assert(old_routes[i].key.id != old_routes[n].key.id);
        }
    } else {
        let to = if n < i {
            n
        } else {
            n - 1
        };
        assert(routes[to] == old_routes[n]);
    }
}

/// An agent is unknown exactly if the registry was read and holds none of that id; a registry that
/// could not be read is not available.
pub proof fn law_unknown_agents_are_not_registered(
    id: Seq<char>,
    found: &Registry,
    cause: Failure,
)
    ensures
        lookup_fault(id, Err::<&Registry, Failure>(cause)) is Some,
        lookup_fault(id, Err::<&Registry, Failure>(cause))->Some_0.code == ErrorCode::Unavailable,
        lookup_fault(id, Ok::<&Registry, Failure>(found)) is None <==> exists|i: int|
            0 <= i < found.agents.len() && (#[trigger] found.agents@[i]).id@ == id,
        lookup_fault(id, Ok::<&Registry, Failure>(found)) matches Some(e) ==> e.code
            == ErrorCode::NotFound,
{
}

/// What a registration fails at is told by its code: what was asked for is wrong, or the agent
/// cannot be had. The words hold what was the matter.
pub proof fn law_failed_registrations_say_whose_fault_it_is(
    step: RegistrationStep,
    id: Seq<char>,
    cause: FailureView,
)
    ensures
        step.fault(id, cause).code == ErrorCode::Unavailable <==> step is Resolution,
        step.fault(id, cause).code == ErrorCode::InvalidInput <==> !(step is Resolution),
        step is Arguments ==> step.fault(id, cause).message == cause.message,
        !(step is Arguments) ==> cause.chain().is_suffix_of(step.fault(id, cause).message),
{
    let all = step.fault(id, cause).message;
    let tail = cause.chain();
    if !(step is Arguments) {
        assert(all.skip(all.len() - tail.len()) =~= tail);
    }
}

/// Requests are taken exactly if they speak the daemon's protocol, and answered in it; the daemon is
/// ended by a request to shut down alone.
pub proof fn law_requests_are_taken_in_their_version(
    e: RequestEnvelope,
    r: Result<Request, ResponseEnvelope>,
    ends: bool,
    result: Result<Response, DaemonOperationError>,
    reply: ResponseEnvelope,
)
    requires
        call_ensures(receive, (e,), r),
        call_ensures(ends_daemon, (&e,), ends),
        call_ensures(respond, (result,), reply),
    ensures
        r is Ok <==> e.version == 2,
        r is Ok ==> r->Ok_0 == e.command,
        r is Err ==> r->Err_0 is Error && r->Err_0->Error_version == 2 && r->Err_0->error.code
            == ErrorCode::InvalidInput,
        ends <==> e.version == 2 && e.command is Shutdown,
        reply is Success <==> result is Ok,
        reply is Success ==> reply->Success_version == 2 && reply->result == result->Ok_0,
        reply is Error ==> reply->Error_version == 2 && reply->error.code == result->Err_0.code
            && reply->error.message@ == result->Err_0.message@,
{
}

/// A daemon ends well exactly if it accepted to the end and its socket is gone; a socket that stays is
/// reported before anything else.
pub proof fn law_daemons_end_with_their_socket(
    accepting: Result<(), Failure>,
    removal: SocketRemoval,
    path: &str,
    r: Result<(), Failure>,
)
    requires
        call_ensures(daemon_outcome, (accepting, removal, path), r),
    ensures
        r is Ok <==> accepting is Ok && !(removal is Refused),
        removal is Refused ==> r->Err_0@.causes.first() == removal->Refused_0@.message
            && path@.is_suffix_of(r->Err_0@.message),
        !(removal is Refused) && accepting is Err ==> r->Err_0@.causes.first()
            == accepting->Err_0@.message,
{
    if removal is Refused {
        let all = r->Err_0@.message;
        assert(all.skip(all.len() - path@.len()) =~= path@);
    }
}

/// While the daemon ends nothing is changed; it ends when it is asked to, and it can be looked at
/// without being changed. A change that someone else has to make first is handed on as it was asked
/// for.
pub proof fn law_requests_are_handled_in_their_way(
    state: &mut SupervisorState,
    command: Request,
    r: Handled,
)
    requires
        old(state)@.is_sound(),
        call_ensures(handle_request, (state, command), r),
    ensures
        old(state).phase == DaemonPhase::ShuttingDown && (command is CreateInstance || command
            is StopInstance || command is Register || command is Unregister) ==> r is Reply
            && r->Reply_0 is Error && r->Reply_0->error.code == ErrorCode::Operation && final(state)@ == old(state)@,
        command is Shutdown ==> final(state).phase == DaemonPhase::ShuttingDown && final(state)@.instances == old(state)@.instances,
        command is Health || command is List || command is Status || command is Registrations
            ==> final(state)@ == old(state)@,
        old(state).phase == DaemonPhase::Running && command is CreateInstance ==> r
            == Handled::Create(command->CreateInstance_0),
        old(state).phase == DaemonPhase::Running && command is StopInstance ==> r == Handled::Stop(
            command->StopInstance_0,
        ),
        old(state).phase == DaemonPhase::Running && command is Register ==> r == Handled::Register(
            command->Register_0,
        ),
        command is Registrations ==> r == Handled::Registrations(command->Registrations_0),
        command is Health ==> r is Reply && r->Reply_0 is Success && r->Reply_0->result is Health
            && r->Reply_0->result->Health_0.protocol_version == 2,
        command is List ==> r is Reply && r->Reply_0 is Success && r->Reply_0->result is List,
{
    assert(final(state)@.phase == final(state).phase);
    if r is Reply && r->Reply_0 is Error {
        assert(r->Reply_0->error@.code == r->Reply_0->error.code);
    }
}

} // verus!
