//! The daemon's servers: how they come to be, which routes they have, and how they end.
//!
//! A decision is taken here, and its effects happen elsewhere. Where a wait lies between a request
//! and its effect, the request is checked before the wait, and settled after it on whatever has
//! become of the server meanwhile. A server is told from a later one of its name by its serial
//! number.

use vstd::prelude::*;
use crate::failure::Failure;
use crate::order;
use crate::order::{sort, texts_before, Keyed};
use crate::serve;
use crate::serve::health::ReadinessSnapshot;
use crate::serve::validate_route_config;
use crate::server;
use crate::server::protocol::{
    CreateInstanceRequest, CreateView, ErrorCode, InstanceResult, InstanceResultView, InstanceState,
    ProtocolErrorView, RegisterRequest, RegisterView, RegistrationResult, UnregisterRequest,
    UnregisterResult,
};
use crate::server::routes;
use crate::server::routes::{
    public_address, registration_result, route_matches, AddressView, ListenAddress, RouteKey,
    RouteKeyView,
};
use crate::server::{validate_agent_id, validate_name, validate_route};
use crate::text;
use crate::text::{debug_string, same, to_decimal, trimmed};

verus! {

/// Whether the daemon still takes on work.
#[derive(Debug, Clone, Copy, PartialEq, Eq, Structural)]
pub enum DaemonPhase {
    Running,
    ShuttingDown,
}

/// A refused operation.
#[derive(Debug)]
pub struct DaemonOperationError {
    pub code: ErrorCode,
    pub message: String,
}

impl View for DaemonOperationError {
    type V = ProtocolErrorView;

    open spec fn view(&self) -> ProtocolErrorView {
        ProtocolErrorView { code: self.code, message: self.message@ }
    }
}

impl DaemonOperationError {
    /// A refusal.
    pub fn new(code: ErrorCode, message: String) -> (r: DaemonOperationError)
        ensures
            r@ == refusal(code, message@),
    {
        DaemonOperationError { code, message }
    }
}

/// A refusal over sequences.
pub open spec fn refusal(code: ErrorCode, message: Seq<char>) -> ProtocolErrorView {
    ProtocolErrorView { code, message }
}

/// A route with the runtime that serves it.
#[derive(Debug)]
pub struct RegisteredRoute {
    pub key: RouteKey,
    /// The number under which the runtime is kept.
    pub runtime: u64,
}

/// A [`RegisteredRoute`] over sequences.
#[verifier::ext_equal]
pub struct RegisteredView {
    pub key: RouteKeyView,
    pub runtime: u64,
}

impl View for RegisteredRoute {
    type V = RegisteredView;

    open spec fn view(&self) -> RegisteredView {
        RegisteredView { key: self.key@, runtime: self.runtime }
    }
}

/// One named server.
#[derive(Debug)]
pub struct DaemonInstance {
    /// Tells this server from others that had its name.
    pub serial: u64,
    pub name: String,
    pub requested_host: String,
    pub requested_port: u16,
    pub address: ListenAddress,
    pub state: InstanceState,
    pub routes: Vec<RegisteredRoute>,
}

/// A [`DaemonInstance`] over sequences.
#[verifier::ext_equal]
pub struct InstanceView {
    pub serial: u64,
    pub name: Seq<char>,
    pub requested_host: Seq<char>,
    pub requested_port: u16,
    pub address: AddressView,
    pub state: InstanceState,
    pub routes: Seq<RegisteredView>,
}

impl View for DaemonInstance {
    type V = InstanceView;

    open spec fn view(&self) -> InstanceView {
        InstanceView {
            serial: self.serial,
            name: self.name@,
            requested_host: self.requested_host@,
            requested_port: self.requested_port,
            address: self.address@,
            state: self.state,
            routes: self.routes@.map_values(|r: RegisteredRoute| r@),
        }
    }
}

impl InstanceView {
    /// Whether no agent and no path is registered twice.
    pub open spec fn is_sound(self) -> bool {
        forall|i: int, j: int|
            #![trigger self.routes[i], self.routes[j]]
            0 <= i < j < self.routes.len() ==> {
                &&& self.routes[i].key.id != self.routes[j].key.id
                &&& self.routes[i].key.public_route != self.routes[j].key.public_route
            }
    }

    /// What is told of this server.
    pub open spec fn shown(self) -> InstanceResultView {
        InstanceResultView {
            name: self.name,
            host: self.requested_host,
            port: self.address.port,
            address: routes::public_url(self.address),
            state: self.state,
        }
    }
}

/// The daemon's servers.
#[derive(Debug)]
pub struct SupervisorState {
    pub instances: Vec<DaemonInstance>,
    pub phase: DaemonPhase,
    /// The serial number that the next server will get.
    pub next_serial: u64,
}

/// A [`SupervisorState`] over sequences.
#[verifier::ext_equal]
pub struct SupervisorView {
    pub instances: Seq<InstanceView>,
    pub phase: DaemonPhase,
    pub next_serial: u64,
}

impl View for SupervisorState {
    type V = SupervisorView;

    open spec fn view(&self) -> SupervisorView {
        SupervisorView {
            instances: self.instances@.map_values(|i: DaemonInstance| i@),
            phase: self.phase,
            next_serial: self.next_serial,
        }
    }
}

impl SupervisorView {
    /// Whether no name and no serial number occurs twice, and every server is sound.
    pub open spec fn is_sound(self) -> bool {
        &&& forall|i: int, j: int|
            #![trigger self.instances[i], self.instances[j]]
            0 <= i < j < self.instances.len() ==> {
                &&& self.instances[i].name != self.instances[j].name
                &&& self.instances[i].serial != self.instances[j].serial
            }
        &&& forall|i: int|
            #![trigger self.instances[i]]
            0 <= i < self.instances.len() ==> {
                &&& self.instances[i].serial < self.next_serial
                &&& self.instances[i].is_sound()
            }
    }

    /// Whether the server at `at` is called `name`.
    pub open spec fn has_name(self, name: Seq<char>, at: int) -> bool {
        0 <= at < self.instances.len() && self.instances[at].name == name
    }

    /// Where the server called `name` stands.
    pub open spec fn named(self, name: Seq<char>) -> Option<int> {
        if exists|at: int| self.has_name(name, at) {
            Some(choose|at: int| self.has_name(name, at))
        } else {
            None
        }
    }

    /// Whether the server at `at` has the number `serial`.
    pub open spec fn has_serial(self, serial: u64, at: int) -> bool {
        0 <= at < self.instances.len() && self.instances[at].serial == serial
    }

    /// Where the server with the number `serial` stands.
    pub open spec fn numbered(self, serial: u64) -> Option<int> {
        if exists|at: int| self.has_serial(serial, at) {
            Some(choose|at: int| self.has_serial(serial, at))
        } else {
            None
        }
    }

    /// These servers, with the one at `at` replaced.
    pub open spec fn with(self, at: int, instance: InstanceView) -> SupervisorView {
        SupervisorView { instances: self.instances.update(at, instance), ..self }
    }
}

/// A name or a number points at one server at most.
pub proof fn lemma_one_server(s: SupervisorView, at: int)
    requires
        s.is_sound(),
        0 <= at < s.instances.len(),
    ensures
        s.named(s.instances[at].name) == Some(at),
        s.numbered(s.instances[at].serial) == Some(at),
{
    let name = s.instances[at].name;
    let serial = s.instances[at].serial;
    assert(s.has_name(name, at));
    assert(s.has_serial(serial, at));
    let i = choose|i: int| s.has_name(name, i);
    let j = choose|j: int| s.has_serial(serial, j);
    assert(s.instances[i].name == s.instances[at].name);
    assert(s.instances[j].serial == s.instances[at].serial);
}

/// The refusal of a request that names no server.
pub open spec fn not_found(name: Seq<char>) -> ProtocolErrorView {
    refusal(ErrorCode::NotFound, "instance "@ + text::debug_text(name) + " was not found"@)
}

/// The refusal of a request while the daemon ends.
pub open spec fn shutting_down() -> ProtocolErrorView {
    refusal(ErrorCode::Operation, "daemon is shutting down"@)
}

/// The refusal of a request to a server that ends.
pub open spec fn stopping(name: Seq<char>) -> ProtocolErrorView {
    refusal(ErrorCode::Operation, "instance "@ + name + " is stopping"@)
}

/// What becomes of a request for a server.
pub enum Creation {
    /// There is one already, just as it was asked for.
    Existing(InstanceResultView),
    /// One can be made, if its address can be had.
    Bind,
}

/// What becomes of a request for a server, before its address is asked for.
pub open spec fn creation(s: SupervisorView, request: CreateView) -> Result<
    Creation,
    ProtocolErrorView,
> {
    if !server::is_server_name(request.name) {
        Err(refusal(ErrorCode::InvalidInput, server::bad_name()))
    } else if text::trim(request.host).len() == 0 {
        Err(refusal(ErrorCode::InvalidInput, "instance host must not be empty"@))
    } else if s.phase != DaemonPhase::Running {
        Err(shutting_down())
    } else {
        match s.named(request.name) {
            None => Ok(Creation::Bind),
            Some(at) => {
                let found = s.instances[at];
                if found.state != InstanceState::Running {
                    Err(
                        refusal(
                            ErrorCode::Operation,
                            "instance "@ + text::debug_text(request.name) + " is stopping"@,
                        ),
                    )
                } else if found.requested_host == request.host && found.requested_port
                    == request.port {
                    Ok(Creation::Existing(found.shown()))
                } else {
                    Err(
                        refusal(
                            ErrorCode::Conflict,
                            "instance "@ + text::debug_text(request.name)
                                + " already exists with a different configuration"@,
                        ),
                    )
                }
            },
        }
    }
}

/// A server that was just made.
pub open spec fn fresh(s: SupervisorView, request: CreateView, address: AddressView) -> InstanceView {
    InstanceView {
        serial: s.next_serial,
        name: request.name,
        requested_host: request.host,
        requested_port: request.port,
        address,
        state: InstanceState::Running,
        routes: Seq::empty(),
    }
}

/// The servers with one more.
pub open spec fn created(
    s: SupervisorView,
    request: CreateView,
    address: AddressView,
) -> SupervisorView {
    SupervisorView {
        instances: s.instances.push(fresh(s, request, address)),
        next_serial: (s.next_serial + 1) as u64,
        ..s
    }
}

/// The next step in making a server.
#[derive(Debug)]
pub enum CreateStep {
    /// There is one already, just as it was asked for.
    Existing(InstanceResult),
    /// Ask for its address.
    Bind,
}

/// Why an address could not be had.
#[derive(Debug)]
pub enum BindFault {
    /// The system refused it, in these words.
    Refused(String),
    /// The system would not tell it, in these words.
    Unread(String),
}

/// The refusal of a server whose address could not be had.
pub open spec fn unbound(request: CreateView, fault: BindFault) -> ProtocolErrorView {
    match fault {
        BindFault::Refused(words) => refusal(
            ErrorCode::Unavailable,
            "failed to bind instance "@ + request.host + ":"@ + text::decimal(
                request.port as nat,
            ) + ": "@ + words@,
        ),
        BindFault::Unread(words) => refusal(
            ErrorCode::Operation,
            "failed to read instance listener address: "@ + words@,
        ),
    }
}

/// An address that was asked for, over sequences.
pub open spec fn bound_view(bound: Result<ListenAddress, BindFault>) -> Result<
    AddressView,
    BindFault,
> {
    match bound {
        Ok(address) => Ok(address@),
        Err(fault) => Err(fault),
    }
}

/// The answer to a request for a server, and the servers after it; `bound` is what came of asking
/// for the address.
pub open spec fn creation_outcome(
    s: SupervisorView,
    request: CreateView,
    bound: Result<AddressView, BindFault>,
) -> (Result<InstanceResultView, ProtocolErrorView>, SupervisorView) {
    match creation(s, request) {
        Err(e) => (Err(e), s),
        Ok(Creation::Existing(shown)) => (Ok(shown), s),
        Ok(Creation::Bind) => match bound {
            Err(fault) => (Err(unbound(request, fault)), s),
            Ok(address) => (
                Ok(fresh(s, request, address).shown()),
                created(s, request, address),
            ),
        },
    }
}

/// An answer over sequences.
pub open spec fn answer_view(r: Result<InstanceResult, DaemonOperationError>) -> Result<
    InstanceResultView,
    ProtocolErrorView,
> {
    match r {
        Ok(shown) => Ok(shown@),
        Err(e) => Err(e@),
    }
}

/// The servers after the one at `at` was told to stop.
pub open spec fn stop_begun(s: SupervisorView, at: int) -> SupervisorView {
    s.with(at, InstanceView { state: InstanceState::Stopping, ..s.instances[at] })
}

/// The servers after the one numbered `serial` has ended.
pub open spec fn stop_done(s: SupervisorView, serial: u64) -> SupervisorView {
    match s.numbered(serial) {
        Some(at) => SupervisorView { instances: s.instances.remove(at), ..s },
        None => s,
    }
}

/// A stop that has begun.
#[derive(Debug)]
pub struct StopStep {
    /// The server's number.
    pub serial: u64,
    /// Whether the server must be told; otherwise it was told before.
    pub signal: bool,
}

/// How the listener of a stopped server ended.
#[derive(Debug)]
pub enum ListenerEnd {
    /// By itself.
    Ended(Result<(), Failure>),
    /// Its task failed, in these words.
    Aborted(String),
    /// It had ended before.
    Gone,
}

/// What is wrong with the end of a listener, all causes on one line.
pub open spec fn listener_fault(end: ListenerEnd) -> Option<Seq<char>> {
    match end {
        ListenerEnd::Ended(Ok(_)) => None,
        ListenerEnd::Ended(Err(e)) => Some(e@.chain()),
        ListenerEnd::Aborted(words) => Some("instance listener task failed: "@ + words@),
        ListenerEnd::Gone => None,
    }
}

/// Where an agent that asks for a route would get it, before its runtime is made.
pub open spec fn admission(s: SupervisorView, request: RegisterView) -> Result<
    u64,
    ProtocolErrorView,
> {
    if !server::is_server_name(request.name) {
        Err(refusal(ErrorCode::InvalidInput, server::bad_name()))
    } else if !server::is_agent_id(request.id) {
        Err(refusal(ErrorCode::InvalidInput, "agent id must not be empty"@))
    } else {
        match server::route_fault(request.route) {
            Some(fault) => Err(refusal(ErrorCode::InvalidInput, fault.message)),
            None => match s.named(request.name) {
                None => Err(not_found(request.name)),
                Some(at) => if s.instances[at].state != InstanceState::Running {
                    Err(stopping(s.instances[at].name))
                } else {
                    match serve::route_fault(
                        request.config.max_processes,
                        request.config.path,
                        request.config.health_endpoint,
                        request.config.readyz_endpoint,
                    ) {
                        Some(words) => Err(refusal(ErrorCode::InvalidInput, words)),
                        None => Ok(s.instances[at].serial),
                    }
                },
            },
        }
    }
}

/// Whether the agent `id` has a route among `routes`.
pub open spec fn has_agent(routes: Seq<RegisteredView>, id: Seq<char>) -> bool {
    exists|i: int| 0 <= i < routes.len() && (#[trigger] routes[i]).key.id == id
}

/// Whether the path `route` is taken among `routes`.
pub open spec fn has_route(routes: Seq<RegisteredView>, route: Seq<char>) -> bool {
    exists|i: int| 0 <= i < routes.len() && (#[trigger] routes[i]).key.public_route == route
}

/// Why a route cannot be added to the server numbered `serial` and called `name`.
pub open spec fn addition_fault(
    s: SupervisorView,
    serial: u64,
    name: Seq<char>,
    key: RouteKeyView,
) -> Option<ProtocolErrorView> {
    match s.numbered(serial) {
        None => Some(stopping(name)),
        Some(at) => {
            let instance = s.instances[at];
            if instance.state != InstanceState::Running {
                Some(stopping(instance.name))
            } else if s.phase != DaemonPhase::Running {
                Some(shutting_down())
            } else if has_agent(instance.routes, key.id) {
                Some(
                    refusal(
                        ErrorCode::Conflict,
                        "agent id "@ + key.id + " is already registered"@,
                    ),
                )
            } else if has_route(instance.routes, key.public_route) {
                Some(
                    refusal(
                        ErrorCode::Conflict,
                        "route "@ + key.public_route + " is already registered"@,
                    ),
                )
            } else {
                None
            }
        },
    }
}

/// The servers with one more route at the server `at`.
pub open spec fn added(s: SupervisorView, at: int, route: RegisteredView) -> SupervisorView {
    s.with(
        at,
        InstanceView { routes: s.instances[at].routes.push(route), ..s.instances[at] },
    )
}

/// Why the agent `id` cannot be taken off the server called `name`.
pub open spec fn removal_fault(s: SupervisorView, name: Seq<char>, id: Seq<char>) -> Option<
    ProtocolErrorView,
> {
    if !server::is_server_name(name) {
        Some(refusal(ErrorCode::InvalidInput, server::bad_name()))
    } else if !server::is_agent_id(id) {
        Some(refusal(ErrorCode::InvalidInput, "agent id must not be empty"@))
    } else {
        match s.named(name) {
            None => Some(not_found(name)),
            Some(at) => if s.instances[at].state != InstanceState::Running {
                Some(stopping(s.instances[at].name))
            } else if s.phase != DaemonPhase::Running {
                Some(shutting_down())
            } else if !has_agent(s.instances[at].routes, id) {
                Some(refusal(ErrorCode::NotFound, "agent "@ + id + " is not registered"@))
            } else {
                None
            },
        }
    }
}

/// The servers with the route `route` taken off the server `at`.
pub open spec fn removed(s: SupervisorView, at: int, route: int) -> SupervisorView {
    s.with(
        at,
        InstanceView { routes: s.instances[at].routes.remove(route), ..s.instances[at] },
    )
}

/// What becomes of a request for `path` at a server.
#[derive(Debug)]
pub enum Dispatch {
    /// The server is ending.
    Unavailable,
    /// No route leads there.
    NotFound,
    /// It goes to this runtime, which is at this route.
    Forward { route: String, runtime: u64 },
}

/// Whether `routes[at]` is the longest route that `path` may take.
pub open spec fn is_longest(routes: Seq<RegisteredView>, path: Seq<char>, at: int) -> bool {
    &&& 0 <= at < routes.len()
    &&& routes::matches_route(routes[at].key.public_route, path)
    &&& forall|i: int|
        0 <= i < routes.len() && routes::matches_route(
            (#[trigger] routes[i]).key.public_route,
            path,
        ) ==> routes[i].key.public_route.len() <= routes[at].key.public_route.len()
}

/// Whether `d` is what becomes of a request for `path` at the server numbered `serial`.
pub open spec fn dispatched(s: SupervisorView, serial: u64, path: Seq<char>, d: Dispatch) -> bool {
    match s.numbered(serial) {
        None => d is Unavailable,
        Some(at) => if s.instances[at].state != InstanceState::Running {
            d is Unavailable
        } else {
            let routes = s.instances[at].routes;
            match d {
                Dispatch::Unavailable => false,
                Dispatch::NotFound => forall|i: int|
                    0 <= i < routes.len() ==> !routes::matches_route(
                        (#[trigger] routes[i]).key.public_route,
                        path,
                    ),
                Dispatch::Forward { route, runtime } => exists|i: int| #[trigger]
                    is_longest(routes, path, i) && route@ == routes[i].key.public_route && runtime
                        == routes[i].runtime,
            }
        },
    }
}

/// Whether `all` tells of `instances`, one by one.
pub open spec fn is_listing(all: Seq<InstanceResult>, instances: Seq<InstanceView>) -> bool {
    &&& all.len() == instances.len()
    &&& forall|i: int| 0 <= i < all.len() ==> (#[trigger] all[i])@ == instances[i].shown()
}

impl Keyed for InstanceResult {
    open spec fn sort_key(self) -> Seq<Seq<int>> {
        order::texts_key(seq![self.name@])
    }

    fn comes_before(&self, other: &Self) -> (r: bool) {
        let a: Vec<String> = vec![self.name.clone()];
        let b: Vec<String> = vec![other.name.clone()];
        assert(a.deep_view() =~= seq![self.name@]);
        assert(b.deep_view() =~= seq![other.name@]);
        texts_before(&a, &b)
    }
}

impl DaemonInstance {
    /// Tells of this server.
    pub fn result(&self) -> (r: InstanceResult)
        ensures
            r@ == self@.shown(),
    {
        InstanceResult {
            name: self.name.clone(),
            host: self.requested_host.clone(),
            port: self.address.port,
            address: public_address(&self.address),
            state: self.state,
        }
    }

    fn find_agent(&self, id: &str) -> (r: Option<usize>)
        ensures
            match r {
                Some(at) => at < self.routes.len() && self@.routes[at as int].key.id == id@,
                None => !has_agent(self@.routes, id@),
            },
    {
        let mut i: usize = 0;
        while i < self.routes.len()
            invariant
                i <= self.routes.len(),
                forall|k: int| 0 <= k < i ==> (#[trigger] self@.routes[k]).key.id != id@,
            decreases self.routes.len() - i,
        {
            assert(self@.routes[i as int] == self.routes@[i as int]@);
            if same(self.routes[i].key.id.as_str(), id) {
                return Some(i);
            }
            i += 1;
        }
        None
    }

    fn find_route(&self, route: &str) -> (r: bool)
        ensures
            r == has_route(self@.routes, route@),
    {
        let mut i: usize = 0;
        while i < self.routes.len()
            invariant
                i <= self.routes.len(),
                forall|k: int|
                    0 <= k < i ==> (#[trigger] self@.routes[k]).key.public_route != route@,
            decreases self.routes.len() - i,
        {
            assert(self@.routes[i as int] == self.routes@[i as int]@);
            if same(self.routes[i].key.public_route.as_str(), route) {
                return true;
            }
            i += 1;
        }
        false
    }

    /// Finds the longest route that `path` may take.
    fn longest_route(&self, path: &str) -> (r: Option<usize>)
        ensures
            match r {
                Some(at) => is_longest(self@.routes, path@, at as int),
                None => forall|i: int|
                    0 <= i < self@.routes.len() ==> !routes::matches_route(
                        (#[trigger] self@.routes[i]).key.public_route,
                        path@,
                    ),
            },
    {
        let mut best: Option<usize> = None;
        let mut i: usize = 0;
        let ghost all = self@.routes;
        while i < self.routes.len()
            invariant
                i <= self.routes.len(),
                all == self@.routes,
                match best {
                    Some(at) => at < i && is_longest(all.take(i as int), path@, at as int),
                    None => forall|k: int|
                        0 <= k < i ==> !routes::matches_route(
                            (#[trigger] all[k]).key.public_route,
                            path@,
                        ),
                },
            decreases self.routes.len() - i,
        {
            assert(all[i as int] == self.routes@[i as int]@);
            let ghost before = all.take(i as int);
            let ghost now = all.take(i + 1);
            assert(now.len() == i + 1);
            assert(forall|k: int| 0 <= k < i ==> #[trigger] now[k] == before[k]);
            assert(now[i as int] == all[i as int]);
            let candidate = self.routes[i].key.public_route.as_str();
            if route_matches(candidate, path) {
                match best {
                    None => {
                        best = Some(i);
                    },
                    Some(at) => {
                        assert(all[at as int] == self.routes@[at as int]@);
                        if candidate.unicode_len()
                            >= self.routes[at].key.public_route.as_str().unicode_len() {
                            best = Some(i);
                        }
                    },
                }
            }
            i += 1;
        }
        assert(all.take(all.len() as int) =~= all);
        best
    }
}

impl SupervisorState {
    /// A daemon without servers.
    pub fn new() -> (r: SupervisorState)
        ensures
            r@ == (SupervisorView {
                instances: Seq::empty(),
                phase: DaemonPhase::Running,
                next_serial: 0,
            }),
            r@.is_sound(),
    {
        let r = SupervisorState {
            instances: Vec::new(),
            phase: DaemonPhase::Running,
            next_serial: 0,
        };
        assert(r@.instances =~= Seq::<InstanceView>::empty());
        r
    }

    fn position(&self, name: &str) -> (r: Option<usize>)
        requires
            self@.is_sound(),
        ensures
            match r {
                Some(at) => at < self.instances.len() && self@.named(name@) == Some(at as int),
                None => self@.named(name@) is None,
            },
    {
        let mut i: usize = 0;
        while i < self.instances.len()
            invariant
                i <= self.instances.len(),
                self@.is_sound(),
                forall|k: int| 0 <= k < i ==> (#[trigger] self@.instances[k]).name != name@,
            decreases self.instances.len() - i,
        {
            assert(self@.instances[i as int] == self.instances@[i as int]@);
            if same(self.instances[i].name.as_str(), name) {
                proof {
                    lemma_one_server(self@, i as int);
                }
                return Some(i);
            }
            i += 1;
        }
        None
    }

    fn position_of(&self, serial: u64) -> (r: Option<usize>)
        requires
            self@.is_sound(),
        ensures
            match r {
                Some(at) => at < self.instances.len() && self@.numbered(serial) == Some(at as int),
                None => self@.numbered(serial) is None,
            },
    {
        let mut i: usize = 0;
        while i < self.instances.len()
            invariant
                i <= self.instances.len(),
                self@.is_sound(),
                forall|k: int| 0 <= k < i ==> (#[trigger] self@.instances[k]).serial != serial,
            decreases self.instances.len() - i,
        {
            assert(self@.instances[i as int] == self.instances@[i as int]@);
            if self.instances[i].serial == serial {
                proof {
                    lemma_one_server(self@, i as int);
                }
                return Some(i);
            }
            i += 1;
        }
        None
    }

    /// Decides what becomes of a request for a server, before its address is asked for.
    pub fn check_creation(&self, request: &CreateInstanceRequest) -> (r: Result<
        CreateStep,
        DaemonOperationError,
    >)
        requires
            self@.is_sound(),
        ensures
            match creation(self@, request@) {
                Ok(Creation::Existing(shown)) => r is Ok && r->Ok_0 is Existing
                    && r->Ok_0->Existing_0@ == shown,
                Ok(Creation::Bind) => r is Ok && r->Ok_0 is Bind,
                Err(e) => r is Err && r->Err_0@ == e,
            },
    {
        match validate_name(request.name.as_str()) {
            Ok(_) => {},
            Err(e) => {
                return Err(DaemonOperationError::new(ErrorCode::InvalidInput, e.message));
            },
        }
        if trimmed(request.host.as_str()).as_str().is_empty() {
            return Err(
                DaemonOperationError::new(
                    ErrorCode::InvalidInput,
                    "instance host must not be empty".to_owned(),
                ),
            );
        }
        if self.phase != DaemonPhase::Running {
            return Err(daemon_is_shutting_down());
        }
        match self.position(request.name.as_str()) {
            None => Ok(CreateStep::Bind),
            Some(at) => {
                let found = &self.instances[at];
                assert(self@.instances[at as int] == found@);
                if found.state != InstanceState::Running {
                    return Err(
                        DaemonOperationError::new(
                            ErrorCode::Operation,
                            "instance ".to_owned().concat(
                                debug_string(request.name.as_str()).as_str(),
                            ).concat(" is stopping"),
                        ),
                    );
                }
                if same(found.requested_host.as_str(), request.host.as_str())
                    && found.requested_port == request.port {
                    return Ok(CreateStep::Existing(found.result()));
                }
                Err(
                    DaemonOperationError::new(
                        ErrorCode::Conflict,
                        "instance ".to_owned().concat(
                            debug_string(request.name.as_str()).as_str(),
                        ).concat(" already exists with a different configuration"),
                    ),
                )
            },
        }
    }

    /// Makes a server whose address was asked for, unless it could not be had.
    pub fn create_instance(
        &mut self,
        request: CreateInstanceRequest,
        bound: Result<ListenAddress, BindFault>,
    ) -> (r: Result<InstanceResult, DaemonOperationError>)
        requires
            old(self)@.is_sound(),
            creation(old(self)@, request@) == Ok::<Creation, ProtocolErrorView>(Creation::Bind)
                && bound is Ok ==> old(self).next_serial < u64::MAX,
        ensures
            final(self)@.is_sound(),
            answer_view(r) == creation_outcome(old(self)@, request@, bound_view(bound)).0,
            final(self)@ == creation_outcome(old(self)@, request@, bound_view(bound)).1,
    {
        match self.check_creation(&request) {
            Err(e) => {
                return Err(e);
            },
            Ok(CreateStep::Existing(shown)) => {
                return Ok(shown);
            },
            Ok(CreateStep::Bind) => {},
        }
        let address = match bound {
            Ok(address) => address,
            Err(BindFault::Refused(words)) => {
                return Err(
                    DaemonOperationError::new(
                        ErrorCode::Unavailable,
                        "failed to bind instance ".to_owned().concat(request.host.as_str()).concat(
                            ":",
                        ).concat(to_decimal(request.port as u128).as_str()).concat(": ").concat(
                            words.as_str(),
                        ),
                    ),
                );
            },
            Err(BindFault::Unread(words)) => {
                return Err(
                    DaemonOperationError::new(
                        ErrorCode::Operation,
                        "failed to read instance listener address: ".to_owned().concat(
                            words.as_str(),
                        ),
                    ),
                );
            },
        };
        let ghost before = self@;
        let ghost asked = request@;
        let instance = DaemonInstance {
            serial: self.next_serial,
            name: request.name,
            requested_host: request.host,
            requested_port: request.port,
            address,
            state: InstanceState::Running,
            routes: Vec::new(),
        };
        let shown = instance.result();
        proof {
            assert(instance@.routes =~= Seq::<RegisteredView>::empty());
            assert(instance@ =~= fresh(before, asked, address@));
            lemma_created_is_sound(before, asked, address@);
        }
        self.next_serial = self.next_serial + 1;
        self.instances.push(instance);
        assert(self@.instances =~= created(before, asked, address@).instances);
        Ok(shown)
    }

    /// Lists the servers by name.
    pub fn list_instances(&self) -> (r: Vec<InstanceResult>)
        ensures
            exists|all: Seq<InstanceResult>|
                #[trigger] is_listing(all, self@.instances) && r@ == order::sorted(all),
            order::in_order(r@),
            r.len() == self@.instances.len(),
    {
        let mut all: Vec<InstanceResult> = Vec::new();
        let mut i: usize = 0;
        while i < self.instances.len()
            invariant
                i <= self.instances.len(),
                all.len() == i,
                forall|k: int|
                    0 <= k < i ==> (#[trigger] all@[k])@ == self@.instances[k].shown(),
            decreases self.instances.len() - i,
        {
            assert(self@.instances[i as int] == self.instances@[i as int]@);
            all.push(self.instances[i].result());
            i += 1;
        }
        assert(is_listing(all@, self@.instances));
        proof {
            order::lemma_sorted(all@);
        }
        sort(all)
    }

    /// Tells of one server.
    pub fn status_instance(&self, name: &str) -> (r: Result<InstanceResult, DaemonOperationError>)
        requires
            self@.is_sound(),
        ensures
            match self@.named(name@) {
                Some(at) => r is Ok && r->Ok_0@ == self@.instances[at].shown(),
                None => r is Err && r->Err_0@ == not_found(name@),
            },
    {
        match self.position(name) {
            Some(at) => {
                assert(self@.instances[at as int] == self.instances@[at as int]@);
                Ok(self.instances[at].result())
            },
            None => Err(instance_not_found(name)),
        }
    }

    /// Begins to stop a server. Whoever begins first tells it.
    pub fn begin_stop(&mut self, name: &str) -> (r: Result<StopStep, DaemonOperationError>)
        requires
            old(self)@.is_sound(),
        ensures
            final(self)@.is_sound(),
            match old(self)@.named(name@) {
                None => r is Err && r->Err_0@ == not_found(name@) && final(self)@ == old(self)@,
                Some(at) => {
                    &&& r is Ok
                    &&& r->Ok_0.serial == old(self)@.instances[at].serial
                    &&& r->Ok_0.signal == (old(self)@.instances[at].state
                        == InstanceState::Running)
                    &&& final(self)@ == stop_begun(old(self)@, at)
                },
            },
    {
        let ghost before = self@;
        match self.position(name) {
            None => Err(instance_not_found(name)),
            Some(at) => {
                let mut instance = self.instances.remove(at);
                assert(before.instances[at as int] == instance@);
                let serial: u64 = instance.serial;
                let signal = instance.state == InstanceState::Running;
                instance.state = InstanceState::Stopping;
                self.instances.insert(at, instance);
                assert(self@.instances =~= stop_begun(before, at as int).instances);
                Ok(StopStep { serial, signal })
            },
        }
    }

    /// Ends the stop of a server whose listener has ended.
    pub fn finish_stop(&mut self, serial: u64, end: ListenerEnd) -> (r: Result<
        (),
        DaemonOperationError,
    >)
        requires
            old(self)@.is_sound(),
        ensures
            final(self)@.is_sound(),
            final(self)@ == stop_done(old(self)@, serial),
            match listener_fault(end) {
                None => r is Ok,
                Some(words) => r is Err && r->Err_0@ == refusal(
                    ErrorCode::Operation,
                    "instance listener failed: "@ + words,
                ),
            },
    {
        let ghost before = self@;
        match self.position_of(serial) {
            Some(at) => {
                let _ended = self.instances.remove(at);
                assert(self@.instances =~= before.instances.remove(at as int));
                proof {
                    lemma_removal_is_sound(before, at as int);
                }
            },
            None => {},
        }
        let words: String = match end {
            ListenerEnd::Ended(Ok(_)) => {
                return Ok(());
            },
            ListenerEnd::Gone => {
                return Ok(());
            },
            ListenerEnd::Ended(Err(e)) => e.chain(),
            ListenerEnd::Aborted(words) => "instance listener task failed: ".to_owned().concat(
                words.as_str(),
            ),
        };
        Err(
            DaemonOperationError::new(
                ErrorCode::Operation,
                "instance listener failed: ".to_owned().concat(words.as_str()),
            ),
        )
    }

    /// The names of all servers, which are stopped one by one when the daemon ends.
    pub fn instance_names(&self) -> (r: Vec<String>)
        ensures
            r.len() == self@.instances.len(),
            forall|i: int| 0 <= i < r.len() ==> (#[trigger] r@[i])@ == self@.instances[i].name,
    {
        let mut r: Vec<String> = Vec::new();
        let mut i: usize = 0;
        while i < self.instances.len()
            invariant
                i <= self.instances.len(),
                r.len() == i,
                forall|k: int| 0 <= k < i ==> (#[trigger] r@[k])@ == self@.instances[k].name,
            decreases self.instances.len() - i,
        {
            assert(self@.instances[i as int] == self.instances@[i as int]@);
            r.push(self.instances[i].name.clone());
            i += 1;
        }
        r
    }

    /// Decides where an agent that asks for a route would get it, before its runtime is made.
    pub fn check_registration(&self, request: &RegisterRequest) -> (r: Result<
        u64,
        DaemonOperationError,
    >)
        requires
            self@.is_sound(),
        ensures
            match admission(self@, request@) {
                Ok(serial) => r is Ok && r->Ok_0 == serial,
                Err(e) => r is Err && r->Err_0@ == e,
            },
    {
        match validate_name(request.name.as_str()) {
            Ok(_) => {},
            Err(e) => {
                return Err(DaemonOperationError::new(ErrorCode::InvalidInput, e.message));
            },
        }
        if !validate_agent_id(request.id.as_str()) {
            return Err(agent_id_is_empty());
        }
        match validate_route(request.route.as_str()) {
            Ok(_) => {},
            Err(e) => {
                return Err(DaemonOperationError::new(ErrorCode::InvalidInput, e.message));
            },
        }
        match self.position(request.name.as_str()) {
            None => Err(instance_not_found(request.name.as_str())),
            Some(at) => {
                let found = &self.instances[at];
                assert(self@.instances[at as int] == found@);
                if found.state != InstanceState::Running {
                    return Err(instance_is_stopping(found.name.as_str()));
                }
                match validate_route_config(&request.config) {
                    Ok(_) => Ok(found.serial),
                    Err(e) => Err(
                        DaemonOperationError::new(ErrorCode::InvalidInput, e.message),
                    ),
                }
            },
        }
    }

    /// Adds a route whose runtime was made to the server numbered `serial` and called `name`.
    pub fn register(
        &mut self,
        serial: u64,
        name: &str,
        key: RouteKey,
        runtime: u64,
        snapshot: ReadinessSnapshot,
    ) -> (r: Result<RegistrationResult, DaemonOperationError>)
        requires
            old(self)@.is_sound(),
        ensures
            final(self)@.is_sound(),
            match addition_fault(old(self)@, serial, name@, key@) {
                Some(e) => r is Err && r->Err_0@ == e && final(self)@ == old(self)@,
                None => {
                    let at = old(self)@.numbered(serial)->Some_0;
                    let instance = old(self)@.instances[at];
                    &&& r is Ok
                    &&& r->Ok_0@ == routes::registration(
                        instance.name,
                        instance.address,
                        key@,
                        snapshot@,
                    )
                    &&& final(self)@ == added(
                        old(self)@,
                        at,
                        RegisteredView { key: key@, runtime },
                    )
                },
            },
    {
        let ghost before = self@;
        match self.position_of(serial) {
            None => Err(instance_is_stopping(name)),
            Some(at) => {
                let found = &self.instances[at];
                assert(before.instances[at as int] == found@);
                if found.state != InstanceState::Running {
                    return Err(instance_is_stopping(found.name.as_str()));
                }
                if self.phase != DaemonPhase::Running {
                    return Err(daemon_is_shutting_down());
                }
                if found.find_agent(key.id.as_str()).is_some() {
                    return Err(
                        DaemonOperationError::new(
                            ErrorCode::Conflict,
                            "agent id ".to_owned().concat(key.id.as_str()).concat(
                                " is already registered",
                            ),
                        ),
                    );
                }
                if found.find_route(key.public_route.as_str()) {
                    return Err(
                        DaemonOperationError::new(
                            ErrorCode::Conflict,
                            "route ".to_owned().concat(key.public_route.as_str()).concat(
                                " is already registered",
                            ),
                        ),
                    );
                }
                let shown = registration_result(
                    found.name.as_str(),
                    &found.address,
                    &key,
                    snapshot,
                );
                let ghost route = RegisteredView { key: key@, runtime };
                let mut instance = self.instances.remove(at);
                let ghost was = instance@;
                instance.routes.push(RegisteredRoute { key, runtime });
                assert(instance@.routes =~= was.routes.push(route));
                self.instances.insert(at, instance);
                proof {
                    assert(self@.instances =~= added(before, at as int, route).instances);
                    lemma_added_is_sound(before, at as int, route);
                }
                Ok(shown)
            },
        }
    }

    /// Takes an agent's route off a server, and tells which runtime served it.
    pub fn unregister(&mut self, request: UnregisterRequest) -> (r: Result<
        (UnregisterResult, u64),
        DaemonOperationError,
    >)
        requires
            old(self)@.is_sound(),
        ensures
            final(self)@.is_sound(),
            match removal_fault(old(self)@, request.name@, request.id@) {
                Some(e) => r is Err && r->Err_0@ == e && final(self)@ == old(self)@,
                None => {
                    let at = old(self)@.named(request.name@)->Some_0;
                    let routes = old(self)@.instances[at].routes;
                    &&& r is Ok
                    &&& r->Ok_0.0.name@ == request.name@
                    &&& r->Ok_0.0.id@ == request.id@
                    &&& exists|i: int|
                        0 <= i < routes.len() && (#[trigger] routes[i]).key.id == request.id@
                            && r->Ok_0.1 == routes[i].runtime && final(self)@ == removed(
                            old(self)@,
                            at,
                            i,
                        )
                },
            },
    {
        let ghost before = self@;
        match validate_name(request.name.as_str()) {
            Ok(_) => {},
            Err(e) => {
                return Err(DaemonOperationError::new(ErrorCode::InvalidInput, e.message));
            },
        }
        if !validate_agent_id(request.id.as_str()) {
            return Err(agent_id_is_empty());
        }
        match self.position(request.name.as_str()) {
            None => Err(instance_not_found(request.name.as_str())),
            Some(at) => {
                let found = &self.instances[at];
                assert(before.instances[at as int] == found@);
                if found.state != InstanceState::Running {
                    return Err(instance_is_stopping(found.name.as_str()));
                }
                if self.phase != DaemonPhase::Running {
                    return Err(daemon_is_shutting_down());
                }
                match found.find_agent(request.id.as_str()) {
                    None => Err(
                        DaemonOperationError::new(
                            ErrorCode::NotFound,
                            "agent ".to_owned().concat(request.id.as_str()).concat(
                                " is not registered",
                            ),
                        ),
                    ),
                    Some(i) => {
                        let mut instance = self.instances.remove(at);
                        let ghost was = instance@;
                        let gone = instance.routes.remove(i);
                        assert(was.routes[i as int] == gone@);
                        assert(instance@.routes =~= was.routes.remove(i as int));
                        self.instances.insert(at, instance);
                        proof {
                            assert(self@.instances =~= removed(
                                before,
                                at as int,
                                i as int,
                            ).instances);
                            lemma_removed_is_sound(before, at as int, i as int);
                        }
                        Ok(
                            (
                                UnregisterResult { name: request.name, id: request.id },
                                gone.runtime,
                            ),
                        )
                    },
                }
            },
        }
    }

    /// The address and the routes of a server.
    pub fn routes_of(&self, name: &str) -> (r: Result<
        (ListenAddress, Vec<RegisteredRoute>),
        DaemonOperationError,
    >)
        requires
            self@.is_sound(),
        ensures
            match self@.named(name@) {
                None => r is Err && r->Err_0@ == not_found(name@),
                Some(at) => {
                    &&& r is Ok
                    &&& r->Ok_0.0@ == self@.instances[at].address
                    &&& r->Ok_0.1@.map_values(|x: RegisteredRoute| x@) == self@.instances[at].routes
                },
            },
    {
        match self.position(name) {
            None => Err(instance_not_found(name)),
            Some(at) => {
                let found = &self.instances[at];
                assert(self@.instances[at as int] == found@);
                let mut routes: Vec<RegisteredRoute> = Vec::new();
                let mut i: usize = 0;
                while i < found.routes.len()
                    invariant
                        i <= found.routes.len(),
                        routes.len() == i,
                        forall|k: int|
                            0 <= k < i ==> (#[trigger] routes@[k])@ == found.routes@[k]@,
                    decreases found.routes.len() - i,
                {
                    routes.push(
                        RegisteredRoute {
                            key: found.routes[i].key.duplicate(),
                            runtime: found.routes[i].runtime,
                        },
                    );
                    i += 1;
                }
                assert(routes@.map_values(|x: RegisteredRoute| x@) =~= found@.routes);
                Ok((found.address.duplicate(), routes))
            },
        }
    }

    /// Decides what becomes of a request for `path` at the server numbered `serial`.
    pub fn dispatch(&self, serial: u64, path: &str) -> (r: Dispatch)
        requires
            self@.is_sound(),
        ensures
            dispatched(self@, serial, path@, r),
    {
        match self.position_of(serial) {
            None => Dispatch::Unavailable,
            Some(at) => {
                let found = &self.instances[at];
                assert(self@.instances[at as int] == found@);
                if found.state != InstanceState::Running {
                    return Dispatch::Unavailable;
                }
                match found.longest_route(path) {
                    None => Dispatch::NotFound,
                    Some(i) => {
                        assert(found@.routes[i as int] == found.routes@[i as int]@);
                        Dispatch::Forward {
                            route: found.routes[i].key.public_route.clone(),
                            runtime: found.routes[i].runtime,
                        }
                    },
                }
            },
        }
    }

    /// Takes on no more work.
    pub fn shut_down(&mut self)
        ensures
            final(self)@ == (SupervisorView { phase: DaemonPhase::ShuttingDown, ..old(self)@ }),
            old(self)@.is_sound() ==> final(self)@.is_sound(),
    {
        self.phase = DaemonPhase::ShuttingDown;
    }
}

fn daemon_is_shutting_down() -> (r: DaemonOperationError)
    ensures
        r@ == shutting_down(),
{
    DaemonOperationError::new(ErrorCode::Operation, "daemon is shutting down".to_owned())
}

fn agent_id_is_empty() -> (r: DaemonOperationError)
    ensures
        r@ == refusal(ErrorCode::InvalidInput, "agent id must not be empty"@),
{
    DaemonOperationError::new(ErrorCode::InvalidInput, "agent id must not be empty".to_owned())
}

fn instance_is_stopping(name: &str) -> (r: DaemonOperationError)
    ensures
        r@ == stopping(name@),
{
    DaemonOperationError::new(
        ErrorCode::Operation,
        "instance ".to_owned().concat(name).concat(" is stopping"),
    )
}

fn instance_not_found(name: &str) -> (r: DaemonOperationError)
    ensures
        r@ == not_found(name@),
{
    DaemonOperationError::new(
        ErrorCode::NotFound,
        "instance ".to_owned().concat(debug_string(name).as_str()).concat(" was not found"),
    )
}

proof fn lemma_created_is_sound(s: SupervisorView, request: CreateView, address: AddressView)
    requires
        s.is_sound(),
        s.next_serial < u64::MAX,
        s.named(request.name) is None,
    ensures
        created(s, request, address).is_sound(),
{
    let t = created(s, request, address);
    assert forall|i: int, j: int|
        #![trigger t.instances[i], t.instances[j]]
        0 <= i < j < t.instances.len() implies t.instances[i].name != t.instances[j].name
        && t.instances[i].serial != t.instances[j].serial by {
        assert(t.instances[i] == s.instances[i]);
        if j < s.instances.len() {
            assert(t.instances[j] == s.instances[j]);
        } else {
            assert(!s.has_name(request.name, i));
        }
    }
    assert forall|i: int| #![trigger t.instances[i]] 0 <= i < t.instances.len() implies {
        &&& t.instances[i].serial < t.next_serial
        &&& t.instances[i].is_sound()
    } by {
        if i < s.instances.len() {
            assert(t.instances[i] == s.instances[i]);
        }
    }
}

proof fn lemma_removal_is_sound(s: SupervisorView, at: int)
    requires
        s.is_sound(),
        0 <= at < s.instances.len(),
    ensures
        (SupervisorView { instances: s.instances.remove(at), ..s }).is_sound(),
{
    let t = SupervisorView { instances: s.instances.remove(at), ..s };
    assert forall|i: int, j: int|
        #![trigger t.instances[i], t.instances[j]]
        0 <= i < j < t.instances.len() implies t.instances[i].name != t.instances[j].name
        && t.instances[i].serial != t.instances[j].serial by {
        let p = if i < at {
            i
        } else {
            i + 1
        };
        let q = if j < at {
            j
        } else {
            j + 1
        };
        assert(t.instances[i] == s.instances[p] && t.instances[j] == s.instances[q]);
    }
    assert forall|i: int| #![trigger t.instances[i]] 0 <= i < t.instances.len() implies {
        &&& t.instances[i].serial < t.next_serial
        &&& t.instances[i].is_sound()
    } by {
        let p = if i < at {
            i
        } else {
            i + 1
        };
        assert(t.instances[i] == s.instances[p]);
    }
}

proof fn lemma_added_is_sound(s: SupervisorView, at: int, route: RegisteredView)
    requires
        s.is_sound(),
        0 <= at < s.instances.len(),
        !has_agent(s.instances[at].routes, route.key.id),
        !has_route(s.instances[at].routes, route.key.public_route),
    ensures
        added(s, at, route).is_sound(),
{
    let t = added(s, at, route);
    let old_routes = s.instances[at].routes;
    assert(s.instances[at].is_sound());
    assert(t.instances[at].is_sound()) by {
        let now = t.instances[at];
        assert forall|i: int, j: int|
            #![trigger now.routes[i], now.routes[j]]
            0 <= i < j < now.routes.len() implies now.routes[i].key.id != now.routes[j].key.id
            && now.routes[i].key.public_route != now.routes[j].key.public_route by {
            assert(now.routes[i] == old_routes[i]);
            if j < old_routes.len() {
                assert(now.routes[j] == old_routes[j]);
            }
        }
    }
}

proof fn lemma_removed_is_sound(s: SupervisorView, at: int, route: int)
    requires
        s.is_sound(),
        0 <= at < s.instances.len(),
        0 <= route < s.instances[at].routes.len(),
    ensures
        removed(s, at, route).is_sound(),
{
    let t = removed(s, at, route);
    let old_routes = s.instances[at].routes;
    assert(s.instances[at].is_sound());
    assert(t.instances[at].is_sound()) by {
        let now = t.instances[at];
        assert forall|i: int, j: int|
            #![trigger now.routes[i], now.routes[j]]
            0 <= i < j < now.routes.len() implies now.routes[i].key.id != now.routes[j].key.id
            && now.routes[i].key.public_route != now.routes[j].key.public_route by {
            let p = if i < route {
                i
            } else {
                i + 1
            };
            let q = if j < route {
                j
            } else {
                j + 1
            };
            assert(now.routes[i] == old_routes[p] && now.routes[j] == old_routes[q]);
        }
    }
}

/// A server that was made, and has not been told to stop, is found again by every equal request,
/// which gets the answer that the first one got; a request for the same name that differs is a
/// conflict. Neither makes anything, whatever came of asking for an address.
pub proof fn law_equal_creation_is_idempotent(
    earlier: SupervisorView,
    request: CreateView,
    address: AddressView,
    s: SupervisorView,
    at: int,
    bound: Result<AddressView, BindFault>,
    other: CreateView,
    other_bound: Result<AddressView, BindFault>,
)
    requires
        creation(earlier, request) == Ok::<Creation, ProtocolErrorView>(Creation::Bind),
        s.is_sound(),
        s.phase == DaemonPhase::Running,
        0 <= at < s.instances.len(),
        s.instances[at] == (InstanceView {
            routes: s.instances[at].routes,
            ..fresh(earlier, request, address)
        }),
        other.name == request.name,
        text::trim(other.host).len() > 0,
        other.host != request.host || other.port != request.port,
    ensures
        creation_outcome(s, request, bound).0 == creation_outcome(
            earlier,
            request,
            Ok::<AddressView, BindFault>(address),
        ).0,
        creation_outcome(s, request, bound).0 == Ok::<InstanceResultView, ProtocolErrorView>(
            s.instances[at].shown(),
        ),
        creation_outcome(s, request, bound).1 == s,
        creation_outcome(s, other, other_bound).0 is Err,
        creation_outcome(s, other, other_bound).0->Err_0.code == ErrorCode::Conflict,
        creation_outcome(s, other, other_bound).1 == s,
{
    lemma_one_server(s, at);
}

/// A server that was made stands under its name.
pub proof fn law_created_server_is_known(
    s: SupervisorView,
    request: CreateView,
    address: AddressView,
)
    requires
        s.is_sound(),
        s.next_serial < u64::MAX,
        creation(s, request) == Ok::<Creation, ProtocolErrorView>(Creation::Bind),
    ensures
        ({
            let t = creation_outcome(s, request, Ok::<AddressView, BindFault>(address)).1;
            &&& t.is_sound()
            &&& t.named(request.name) == Some(s.instances.len() as int)
            &&& t.instances[s.instances.len() as int] == fresh(s, request, address)
        }),
{
    let t = created(s, request, address);
    lemma_created_is_sound(s, request, address);
    lemma_one_server(t, s.instances.len() as int);
}

/// A server that was made leaves the others as they were.
pub proof fn law_creation_keeps_the_others(
    s: SupervisorView,
    request: CreateView,
    address: AddressView,
    at: int,
)
    requires
        s.is_sound(),
        s.next_serial < u64::MAX,
        s.named(request.name) is None,
        0 <= at < s.instances.len(),
    ensures
        ({
            let t = created(s, request, address);
            &&& t.named(s.instances[at].name) == Some(at)
            &&& t.instances[at] == s.instances[at]
        }),
{
    lemma_created_is_sound(s, request, address);
    lemma_one_server(created(s, request, address), at);
}

/// A server that was told to stop takes no more requests and no more routes; when its listener has
/// ended, its name is free.
pub proof fn law_stopping_frees_the_name(s: SupervisorView, at: int)
    requires
        s.is_sound(),
        0 <= at < s.instances.len(),
    ensures
        ({
            let name = s.instances[at].name;
            let serial = s.instances[at].serial;
            let begun = stop_begun(s, at);
            let done = stop_done(begun, serial);
            &&& begun.is_sound()
            &&& begun.numbered(serial) == Some(at)
            &&& forall|path: Seq<char>, d: Dispatch|
                #[trigger] dispatched(begun, serial, path, d) ==> d is Unavailable
            &&& forall|n: Seq<char>, key: RouteKeyView|
                #[trigger] addition_fault(begun, serial, n, key) == Some(stopping(name))
            &&& done.is_sound()
            &&& done.named(name) is None
            &&& done.numbered(serial) is None
        }),
{
    let name = s.instances[at].name;
    let serial = s.instances[at].serial;
    let begun = stop_begun(s, at);
    assert(begun.instances[at].is_sound()) by {
        assert(s.instances[at].is_sound());
        assert(begun.instances[at].routes == s.instances[at].routes);
    }
    lemma_one_server(begun, at);
    let done = stop_done(begun, serial);
    assert(done.instances == begun.instances.remove(at));
    lemma_removal_is_sound(begun, at);
    assert forall|i: int| !(#[trigger] done.has_name(name, i)) && !done.has_serial(serial, i) by {
        if 0 <= i < done.instances.len() {
            let p = if i < at {
                i
            } else {
                i + 1
            };
            assert(done.instances[i] == begun.instances[p]);
            assert(begun.instances[p].name != begun.instances[at].name);
        }
    }
    assert forall|i: int| !(#[trigger] done.has_serial(serial, i)) by {
        if 0 <= i < done.instances.len() {
            assert(!done.has_name(name, i));
        }
    }
}

/// A server that is stopped leaves the others as they were.
pub proof fn law_stopping_keeps_the_others(s: SupervisorView, at: int, other: int)
    requires
        s.is_sound(),
        0 <= at < s.instances.len(),
        0 <= other < s.instances.len(),
        other != at,
    ensures
        ({
            let name = s.instances[other].name;
            let done = stop_done(stop_begun(s, at), s.instances[at].serial);
            &&& done.named(name) is Some
            &&& done.instances[done.named(name)->Some_0] == s.instances[other]
        }),
{
    law_stopping_frees_the_name(s, at);
    let begun = stop_begun(s, at);
    let done = stop_done(begun, s.instances[at].serial);
    let place = if other < at {
        other
    } else {
        other - 1
    };
    assert(done.instances[place] == begun.instances[other]);
    lemma_one_server(done, place);
}

/// A stop that ends late ends only the server that it was begun for: a later one of the same name
/// stays.
pub proof fn law_late_stops_end_nothing_else(s: SupervisorView, serial: u64)
    requires
        s.numbered(serial) is None,
    ensures
        stop_done(s, serial) == s,
{
}

/// An agent that is registered and taken off again leaves everything as it was.
pub proof fn law_unregistering_undoes_registering(
    s: SupervisorView,
    serial: u64,
    route: RegisteredView,
)
    requires
        s.is_sound(),
        s.numbered(serial) is Some,
        addition_fault(s, serial, s.instances[s.numbered(serial)->Some_0].name, route.key) is None,
        server::is_server_name(s.instances[s.numbered(serial)->Some_0].name),
        server::is_agent_id(route.key.id),
    ensures
        ({
            let at = s.numbered(serial)->Some_0;
            let name = s.instances[at].name;
            let t = added(s, at, route);
            &&& t.is_sound()
            &&& t.named(name) == Some(at)
            &&& removal_fault(t, name, route.key.id) is None
            &&& forall|i: int|
                0 <= i < t.instances[at].routes.len() && (#[trigger] t.instances[at].routes[i]).key.id
                    == route.key.id ==> removed(t, at, i) == s
        }),
{
    let at = s.numbered(serial)->Some_0;
    assert(s.has_serial(serial, at));
    let t = added(s, at, route);
    lemma_added_is_sound(s, at, route);
    lemma_one_server(t, at);
    let before = s.instances[at].routes;
    let routes = t.instances[at].routes;
    assert(routes[before.len() as int].key.id == route.key.id);
    assert forall|i: int|
        0 <= i < routes.len() && (#[trigger] routes[i]).key.id == route.key.id implies removed(
        t,
        at,
        i,
    ) == s by {
        if i < before.len() {
            assert(routes[i] == before[i]);
            assert(has_agent(before, route.key.id));
        }
        assert(routes.remove(i) =~= before);
        assert(removed(t, at, i).instances =~= s.instances);
    }
}

/// While the daemon ends, no server is made, and no route is added or taken off.
pub proof fn law_ending_daemon_changes_nothing(
    s: SupervisorView,
    request: CreateView,
    serial: u64,
    key: RouteKeyView,
    name: Seq<char>,
    id: Seq<char>,
)
    requires
        s.phase == DaemonPhase::ShuttingDown,
    ensures
        creation(s, request) is Err,
        addition_fault(s, serial, name, key) is Some,
        removal_fault(s, name, id) is Some,
{
}

/// A request takes one route: of all that lead to its path, there is one longest.
pub proof fn law_one_route_is_longest(instance: InstanceView, path: Seq<char>, a: int, b: int)
    requires
        instance.is_sound(),
        is_longest(instance.routes, path, a),
        is_longest(instance.routes, path, b),
    ensures
        a == b,
{
    let p = instance.routes[a];
    let q = instance.routes[b];
    routes::law_no_two_routes_tie(p.key.public_route, q.key.public_route, path);
}

/// A server is found by its own name and number, and by no other.
pub proof fn law_servers_are_found_by_name_and_number(
    s: SupervisorView,
    at: int,
    name: Seq<char>,
    serial: u64,
)
    requires
        s.is_sound(),
        0 <= at < s.instances.len(),
    ensures
        s.named(name) == Some(at) <==> s.instances[at].name == name,
        s.numbered(serial) == Some(at) <==> s.instances[at].serial == serial,
{
    if s.instances[at].name == name {
        assert(s.has_name(name, at));
        let found = s.named(name)->Some_0;
        assert(s.has_name(name, found));
        assert(found == at) by {
            if found < at {
                assert(s.instances[found].name != s.instances[at].name);
            } else if at < found {
                assert(s.instances[at].name != s.instances[found].name);
            }
        }
    } else if s.named(name) == Some(at) {
        assert(s.has_name(name, at));
    }
    if s.instances[at].serial == serial {
        assert(s.has_serial(serial, at));
        let found = s.numbered(serial)->Some_0;
        assert(s.has_serial(serial, found));
        assert(found == at) by {
            if found < at {
                assert(s.instances[found].serial != s.instances[at].serial);
            } else if at < found {
                assert(s.instances[at].serial != s.instances[found].serial);
            }
        }
    } else if s.numbered(serial) == Some(at) {
        assert(s.has_serial(serial, at));
    }
}

/// What is told of a server is its name, the host it was asked for, the port it listens on, the
/// address it is reached at, and how it is.
pub proof fn law_servers_tell_where_they_listen(i: InstanceView)
    ensures
        i.shown().name == i.name,
        i.shown().host == i.requested_host,
        i.shown().port == i.address.port,
        i.shown().address == routes::public_url(i.address),
        i.shown().state == i.state,
{
}

/// A server is made exactly if its name is plain, its host is not blank, the daemon is running, and
/// no server has its name. It is given again, without being made, exactly if a running one was asked
/// for in the same way; anything else with a name in use is refused, and so is everything that is
/// malformed.
pub proof fn law_servers_are_made_once(s: SupervisorView, request: CreateView)
    requires
        s.is_sound(),
    ensures
        ({
            let proper = server::is_server_name(request.name) && text::trim(request.host).len() > 0;
            let taken = exists|at: int|
                0 <= at < s.instances.len() && (#[trigger] s.instances[at]).name == request.name;
            let r = creation(s, request);
            &&& (r is Ok && r->Ok_0 is Bind) <==> proper && s.phase == DaemonPhase::Running
                && !taken
            &&& (r is Ok && r->Ok_0 is Existing) <==> proper && s.phase == DaemonPhase::Running
                && exists|at: int|
                0 <= at < s.instances.len() && (#[trigger] s.instances[at]).name == request.name
                    && s.instances[at].state == InstanceState::Running
                    && s.instances[at].requested_host == request.host
                    && s.instances[at].requested_port == request.port
            &&& r matches Ok(Creation::Existing(shown)) ==> shown.name == request.name && shown.host
                == request.host
            &&& r matches Err(e) ==> (e.code == ErrorCode::InvalidInput <==> !proper)
            &&& r matches Err(e) ==> e.code == ErrorCode::InvalidInput || e.code
                == ErrorCode::Operation || e.code == ErrorCode::Conflict
            &&& proper && s.phase != DaemonPhase::Running ==> r is Err && r->Err_0.code
                == ErrorCode::Operation
        }),
{
    if exists|at: int|
        0 <= at < s.instances.len() && (#[trigger] s.instances[at]).name == request.name {
        let at = choose|at: int|
            0 <= at < s.instances.len() && (#[trigger] s.instances[at]).name == request.name;
        assert(s.has_name(request.name, at));
        let found = s.named(request.name)->Some_0;
        assert(s.has_name(request.name, found));
        assert forall|j: int|
            0 <= j < s.instances.len() && (#[trigger] s.instances[j]).name
                == request.name implies j == found by {
            law_servers_are_found_by_name_and_number(s, j, request.name, 0);
        }
        assert(s.instances[found].name == request.name);
    } else if s.named(request.name) is Some {
        let found = s.named(request.name)->Some_0;
        assert(s.has_name(request.name, found));
        assert(s.instances[found].name == request.name);
    }
}

/// A new server is what was asked for, listens where it was bound, is running and serves nothing
/// yet; its number was never given before.
pub proof fn law_new_servers_are_as_asked_for(
    s: SupervisorView,
    request: CreateView,
    address: AddressView,
    at: int,
)
    requires
        s.is_sound(),
        s.next_serial < u64::MAX,
    ensures
        ({
            let t = created(s, request, address);
            let made = t.instances.last();
            &&& t.instances.len() == s.instances.len() + 1
            &&& made.name == request.name
            &&& made.requested_host == request.host
            &&& made.requested_port == request.port
            &&& made.address == address
            &&& made.state == InstanceState::Running
            &&& made.routes.len() == 0
            &&& 0 <= at < s.instances.len() ==> s.instances[at].serial != made.serial
            &&& made.serial < t.next_serial
            &&& t.phase == s.phase
        }),
{
}

/// A server that is stopping keeps everything but its state, and the others are as they were.
pub proof fn law_stopping_changes_the_state_only(s: SupervisorView, at: int, other: int)
    requires
        0 <= at < s.instances.len(),
        0 <= other < s.instances.len(),
    ensures
        ({
            let t = stop_begun(s, at);
            &&& t.instances.len() == s.instances.len()
            &&& t.phase == s.phase
            &&& t.next_serial == s.next_serial
            &&& t.instances[at].state == InstanceState::Stopping
            &&& t.instances[other].name == s.instances[other].name
            &&& t.instances[other].serial == s.instances[other].serial
            &&& t.instances[other].requested_host == s.instances[other].requested_host
            &&& t.instances[other].requested_port == s.instances[other].requested_port
            &&& t.instances[other].address == s.instances[other].address
            &&& t.instances[other].routes == s.instances[other].routes
            &&& other != at ==> t.instances[other].state == s.instances[other].state
        }),
{
}

/// An agent may be registered exactly if everything about the request is well formed and the server
/// it names is there and running; then it goes to that very server. A server that is not there is
/// reported so, and one that is stopping is too.
pub proof fn law_registrations_go_to_the_named_server(s: SupervisorView, request: RegisterView)
    requires
        s.is_sound(),
    ensures
        ({
            let named = server::is_server_name(request.name) && server::is_agent_id(request.id)
                && server::route_fault(request.route) is None;
            let config = serve::route_fault(
                request.config.max_processes,
                request.config.path,
                request.config.health_endpoint,
                request.config.readyz_endpoint,
            );
            let r = admission(s, request);
            &&& r is Ok <==> named && config is None && exists|at: int|
                0 <= at < s.instances.len() && (#[trigger] s.instances[at]).name == request.name
                    && s.instances[at].state == InstanceState::Running
            &&& r matches Ok(serial) ==> exists|at: int|
                0 <= at < s.instances.len() && (#[trigger] s.instances[at]).name == request.name
                    && s.instances[at].serial == serial
            &&& !named ==> r is Err && r->Err_0.code == ErrorCode::InvalidInput
            &&& named ==> (r is Err && r->Err_0.code == ErrorCode::NotFound <==> forall|at: int|
                0 <= at < s.instances.len() ==> (#[trigger] s.instances[at]).name != request.name)
            &&& named ==> (r is Err && r->Err_0.code == ErrorCode::Operation <==> exists|at: int|
                0 <= at < s.instances.len() && (#[trigger] s.instances[at]).name == request.name
                    && s.instances[at].state == InstanceState::Stopping)
        }),
{
    lemma_named_is_the_one(s, request.name);
}

proof fn lemma_named_is_the_one(s: SupervisorView, name: Seq<char>)
    requires
        s.is_sound(),
    ensures
        s.named(name) is None ==> forall|at: int|
            0 <= at < s.instances.len() ==> (#[trigger] s.instances[at]).name != name,
        s.named(name) matches Some(found) ==> {
            &&& 0 <= found < s.instances.len()
            &&& s.instances[found].name == name
            &&& forall|at: int|
                0 <= at < s.instances.len() && (#[trigger] s.instances[at]).name == name ==> at
                    == found
        },
{
    if s.named(name) is Some {
        let found = s.named(name)->Some_0;
        assert(s.has_name(name, found));
        assert forall|at: int|
            0 <= at < s.instances.len() && (#[trigger] s.instances[at]).name == name implies at
            == found by {
            law_servers_are_found_by_name_and_number(s, at, name, 0);
        }
    } else {
        assert forall|at: int| 0 <= at < s.instances.len() implies (
        #[trigger] s.instances[at]).name != name by {
            assert(!s.has_name(name, at));
        }
    }
}

/// A route is added exactly if its server is still there and running, the daemon is too, and neither
/// its agent nor its route is taken there; what is taken is a conflict, everything else a failure of
/// the operation.
pub proof fn law_routes_are_added_where_there_is_room(
    s: SupervisorView,
    at: int,
    name: Seq<char>,
    key: RouteKeyView,
)
    requires
        s.is_sound(),
        0 <= at < s.instances.len(),
    ensures
        ({
            let i = s.instances[at];
            let open = i.state == InstanceState::Running && s.phase == DaemonPhase::Running;
            let taken = exists|n: int|
                0 <= n < i.routes.len() && ((#[trigger] i.routes[n]).key.id == key.id
                    || i.routes[n].key.public_route == key.public_route);
            let fault = addition_fault(s, i.serial, name, key);
            &&& fault is None <==> open && !taken
            &&& open && taken ==> fault is Some && fault->Some_0.code == ErrorCode::Conflict
            &&& !open ==> fault is Some && fault->Some_0.code == ErrorCode::Operation
        }),
{
    law_servers_are_found_by_name_and_number(s, at, name, s.instances[at].serial);
    let i = s.instances[at];
    if exists|n: int|
        0 <= n < i.routes.len() && ((#[trigger] i.routes[n]).key.id == key.id
            || i.routes[n].key.public_route == key.public_route) {
        let n = choose|n: int|
            0 <= n < i.routes.len() && ((#[trigger] i.routes[n]).key.id == key.id
                || i.routes[n].key.public_route == key.public_route);
        assert(i.routes[n].key.id == key.id ==> has_agent(i.routes, key.id));
        assert(i.routes[n].key.public_route == key.public_route ==> has_route(
            i.routes,
            key.public_route,
        ));
    }
    if has_agent(i.routes, key.id) {
        let n = choose|n: int| 0 <= n < i.routes.len() && (#[trigger] i.routes[n]).key.id == key.id;
        assert(i.routes[n].key.id == key.id);
    }
    if has_route(i.routes, key.public_route) {
        let n = choose|n: int|
            0 <= n < i.routes.len() && (#[trigger] i.routes[n]).key.public_route
                == key.public_route;
        assert(i.routes[n].key.public_route == key.public_route);
    }
}

/// An agent is taken off a server exactly if the request is well formed, the server is there and
/// running, the daemon is too, and the agent is registered there.
pub proof fn law_registered_agents_are_taken_off(
    s: SupervisorView,
    name: Seq<char>,
    id: Seq<char>,
)
    requires
        s.is_sound(),
    ensures
        removal_fault(s, name, id) is None <==> {
            &&& server::is_server_name(name)
            &&& server::is_agent_id(id)
            &&& s.phase == DaemonPhase::Running
            &&& exists|at: int, n: int|
                0 <= at < s.instances.len() && (#[trigger] s.instances[at]).name == name
                    && s.instances[at].state == InstanceState::Running && 0 <= n
                    < s.instances[at].routes.len() && (
                #[trigger] s.instances[at].routes[n]).key.id == id
        },
        server::is_server_name(name) && server::is_agent_id(id) && (forall|at: int|
            0 <= at < s.instances.len() ==> (#[trigger] s.instances[at]).name != name)
            ==> removal_fault(s, name, id) is Some && removal_fault(s, name, id)->Some_0.code
            == ErrorCode::NotFound,
        !(server::is_server_name(name) && server::is_agent_id(id)) ==> removal_fault(s, name, id)
            is Some && removal_fault(s, name, id)->Some_0.code == ErrorCode::InvalidInput,
{
    lemma_named_is_the_one(s, name);
    if s.named(name) is Some {
        let at = s.named(name)->Some_0;
        let routes = s.instances[at].routes;
        if has_agent(routes, id) {
            let n = choose|n: int| 0 <= n < routes.len() && (#[trigger] routes[n]).key.id == id;
            assert(s.instances[at].routes[n].key.id == id);
        }
        assert forall|b: int, n: int|
            0 <= b < s.instances.len() && (#[trigger] s.instances[b]).name == name && 0 <= n
                < s.instances[b].routes.len() && (
            #[trigger] s.instances[b].routes[n]).key.id == id implies has_agent(routes, id) by {
            assert(b == at);
            assert(routes[n].key.id == id);
        }
    }
}

/// A request to a running server goes to one of its routes that leads to the path, and to the
/// longest of them; it is not found exactly if none does. A server that is gone or stopping serves
/// nothing.
pub proof fn law_requests_go_to_the_longest_route(
    s: SupervisorView,
    serial: u64,
    at: int,
    path: Seq<char>,
    d: Dispatch,
    n: int,
)
    requires
        s.is_sound(),
        dispatched(s, serial, path, d),
    ensures
        (forall|i: int| 0 <= i < s.instances.len() ==> (#[trigger] s.instances[i]).serial != serial)
            ==> d is Unavailable,
        0 <= at < s.instances.len() && s.instances[at].serial == serial ==> {
            let routes = s.instances[at].routes;
            &&& d is Unavailable <==> s.instances[at].state != InstanceState::Running
            &&& d is Forward ==> exists|i: int|
                0 <= i < routes.len() && (#[trigger] routes[i]).key.public_route
                    == d->Forward_route@ && routes[i].runtime == d->Forward_runtime
            &&& d is Forward ==> routes::matches_route(d->Forward_route@, path)
            &&& 0 <= n < routes.len() && routes::matches_route(routes[n].key.public_route, path)
                ==> d is Unavailable || d is Forward && routes[n].key.public_route.len()
                <= d->Forward_route@.len()
        },
{
    if 0 <= at < s.instances.len() && s.instances[at].serial == serial {
        law_servers_are_found_by_name_and_number(s, at, s.instances[at].name, serial);
        let routes = s.instances[at].routes;
        if d is Forward {
            let i = choose|i: int| #[trigger]
                is_longest(routes, path, i) && d->Forward_route@ == routes[i].key.public_route
                    && d->Forward_runtime == routes[i].runtime;
            assert(routes[i].key.public_route == d->Forward_route@);
        }
    }
    if s.numbered(serial) is Some {
        let found = s.numbered(serial)->Some_0;
        assert(s.has_serial(serial, found));
        assert(s.instances[found].serial == serial);
    }
}

/// Servers are listed by name.
pub proof fn law_servers_are_listed_by_name(a: InstanceResult, b: InstanceResult)
    ensures
        order::key_before(a.sort_key(), b.sort_key()) <==> order::codes_before(
            order::text_codes(a.name@),
            order::text_codes(b.name@),
        ),
{
    let x = order::text_codes(a.name@);
    let y = order::text_codes(b.name@);
    assert(a.sort_key() =~= seq![x]);
    assert(b.sort_key() =~= seq![y]);
    order::lemma_single_key(x, y);
}

/// A listener that ended well, or was gone already, is no fault; what another one failed at is told.
pub proof fn law_listeners_that_fail_are_reported(end: ListenerEnd)
    ensures
        listener_fault(end) is None <==> end is Gone || end is Ended && end->Ended_0 is Ok,
        end matches ListenerEnd::Ended(Err(e)) ==> listener_fault(end) == Some(e@.chain()),
        end matches ListenerEnd::Aborted(words) ==> listener_fault(end) is Some
            && words@.is_suffix_of(listener_fault(end)->Some_0),
{
    if end is Aborted {
        let words = end->Aborted_0@;
        let all = listener_fault(end)->Some_0;
        assert(all.skip(all.len() - words.len()) =~= words);
    }
}

/// Servers and their routes with the same view agree on everything.
pub proof fn law_server_views_hold_every_field(
    a: DaemonInstance,
    b: DaemonInstance,
    s: SupervisorState,
    t: SupervisorState,
    i: int,
)
    ensures
        a@ == b@ ==> a.serial == b.serial && a.name@ == b.name@ && a.requested_host@
            == b.requested_host@ && a.requested_port == b.requested_port && a.address@ == b.address@
            && a.state == b.state && a.routes.len() == b.routes.len(),
        a@ == b@ && 0 <= i < a.routes.len() ==> a.routes@[i].key@ == b.routes@[i].key@
            && a.routes@[i].runtime == b.routes@[i].runtime,
        s@ == t@ ==> s.phase == t.phase && s.next_serial == t.next_serial && s.instances.len()
            == t.instances.len(),
        s@ == t@ && 0 <= i < s.instances.len() ==> s.instances@[i]@ == t.instances@[i]@,
{
    if a@ == b@ {
        assert(a@.routes.len() == b@.routes.len());
        if 0 <= i < a.routes.len() {
            assert(a@.routes[i] == b@.routes[i]);
        }
    }
    if s@ == t@ {
        assert(s@.instances.len() == t@.instances.len());
        if 0 <= i < s.instances.len() {
            assert(s@.instances[i] == t@.instances[i]);
        }
    }
}

/// A server that is told to stop is the one of that name, and is stopping then; it is signalled
/// exactly if it was running. When its listener has ended it is gone, whatever came of that.
pub proof fn law_named_servers_are_stopped(
    begun: &mut SupervisorState,
    name: &str,
    at: int,
    r: Result<StopStep, DaemonOperationError>,
    ended: &mut SupervisorState,
    end: ListenerEnd,
    done: Result<(), DaemonOperationError>,
)
    requires
        old(begun)@.is_sound(),
        call_ensures(SupervisorState::begin_stop, (begun, name), r),
        r is Ok,
        *old(ended) == *final(begun),
        call_ensures(SupervisorState::finish_stop, (ended, r->Ok_0.serial, end), done),
        0 <= at < old(begun)@.instances.len(),
        old(begun)@.instances[at].name == name@,
    ensures
        r->Ok_0.serial == old(begun)@.instances[at].serial,
        r->Ok_0.signal <==> old(begun)@.instances[at].state == InstanceState::Running,
        final(begun)@.instances[at].state == InstanceState::Stopping,
        final(ended)@.named(name@) is None,
        final(ended)@.instances.len() == old(begun)@.instances.len() - 1,
        done is Ok <==> end is Gone || end is Ended && end->Ended_0 is Ok,
        done is Err ==> done->Err_0.code == ErrorCode::Operation,
{
    let s = old(begun)@;
    law_servers_are_found_by_name_and_number(s, at, name@, s.instances[at].serial);
    law_stopping_frees_the_name(s, at);
}

/// No server is stopped that is not there: it is reported as not found, and nothing changes.
pub proof fn law_unknown_servers_are_not_stopped(
    state: &mut SupervisorState,
    name: &str,
    r: Result<StopStep, DaemonOperationError>,
)
    requires
        old(state)@.is_sound(),
        call_ensures(SupervisorState::begin_stop, (state, name), r),
    ensures
        r is Err <==> forall|i: int|
            0 <= i < old(state)@.instances.len() ==> (#[trigger] old(state)@.instances[i]).name
                != name@,
        r is Err ==> r->Err_0.code == ErrorCode::NotFound && final(state)@ == old(state)@,
{
    lemma_named_is_the_one(old(state)@, name@);
    if r is Err {
        assert(r->Err_0@.code == r->Err_0.code);
    }
}

/// A server that was made listens where it was bound and is found under its name; one that was
/// there already, or was refused, changes nothing.
pub proof fn law_made_servers_are_found(
    state: &mut SupervisorState,
    request: CreateInstanceRequest,
    bound: Result<ListenAddress, BindFault>,
    r: Result<InstanceResult, DaemonOperationError>,
)
    requires
        old(state)@.is_sound(),
        old(state).next_serial < u64::MAX,
        call_ensures(SupervisorState::create_instance, (state, request, bound), r),
    ensures
        r is Err ==> final(state)@ == old(state)@,
        r is Ok ==> r->Ok_0.name@ == request.name@ && r->Ok_0.host@ == request.host@
            && r->Ok_0.state == InstanceState::Running,
        r is Ok && final(state)@ != old(state)@ ==> {
            &&& bound is Ok
            &&& r->Ok_0.port == bound->Ok_0.port
            &&& final(state)@.instances.len() == old(state)@.instances.len() + 1
            &&& final(state)@.instances.last().name == request.name@
            &&& final(state)@.instances.last().address == bound->Ok_0@
        },
        old(state).phase == DaemonPhase::ShuttingDown ==> r is Err,
{
    law_servers_are_made_once(old(state)@, request@);
    lemma_named_is_the_one(old(state)@, request@.name);
    if r is Ok {
        assert(r->Ok_0@.name == r->Ok_0.name@);
        assert(r->Ok_0@.host == r->Ok_0.host@);
        assert(r->Ok_0@.port == r->Ok_0.port);
        assert(r->Ok_0@.state == r->Ok_0.state);
    }
}

/// A registered agent is at its server with its route and what runs it, and what is told of it is
/// its own; a refused one changes nothing.
pub proof fn law_registered_agents_are_at_their_server(
    state: &mut SupervisorState,
    serial: u64,
    name: &str,
    key: RouteKey,
    runtime: u64,
    snapshot: ReadinessSnapshot,
    at: int,
    r: Result<RegistrationResult, DaemonOperationError>,
)
    requires
        old(state)@.is_sound(),
        call_ensures(SupervisorState::register, (state, serial, name, key, runtime, snapshot), r),
        0 <= at < old(state)@.instances.len(),
        old(state)@.instances[at].serial == serial,
    ensures
        r is Err ==> final(state)@ == old(state)@,
        r is Ok ==> {
            let routes = final(state)@.instances[at].routes;
            &&& routes.len() == old(state)@.instances[at].routes.len() + 1
            &&& routes.last().key.id == key.id@
            &&& routes.last().key.public_route == key.public_route@
            &&& routes.last().runtime == runtime
            &&& routes.drop_last() == old(state)@.instances[at].routes
        },
        r is Ok ==> forall|b: int|
            0 <= b < old(state)@.instances.len() && b != at ==> #[trigger] final(state)@.instances[b] == old(state)@.instances[b],
{
    law_servers_are_found_by_name_and_number(old(state)@, at, name@, serial);
    if r is Ok {
        assert(final(state)@.instances[at].routes.drop_last() =~= old(state)@.instances[at].routes);
    }
}

/// Routes, addresses and names are told as the daemon knows them.
pub proof fn law_servers_are_told_of_as_known(
    state: SupervisorState,
    name: &str,
    at: int,
    status: Result<InstanceResult, DaemonOperationError>,
    routes: Result<(ListenAddress, Vec<RegisteredRoute>), DaemonOperationError>,
    names: Vec<String>,
    listed: Vec<InstanceResult>,
)
    requires
        state@.is_sound(),
        0 <= at < state@.instances.len(),
        state@.instances[at].name == name@,
        call_ensures(SupervisorState::status_instance, (&state, name), status),
        call_ensures(SupervisorState::routes_of, (&state, name), routes),
        call_ensures(SupervisorState::instance_names, (&state,), names),
        call_ensures(SupervisorState::list_instances, (&state,), listed),
    ensures
        status is Ok && status->Ok_0.name@ == name@ && status->Ok_0.port
            == state@.instances[at].address.port,
        routes is Ok && routes->Ok_0.0@ == state@.instances[at].address && routes->Ok_0.1.len()
            == state@.instances[at].routes.len(),
        names.len() == state.instances.len() && names@[at]@ == name@,
        listed.len() == state.instances.len(),
        order::in_order(listed@),
{
    law_servers_are_found_by_name_and_number(state@, at, name@, 0);
    assert(status->Ok_0@.name == status->Ok_0.name@);
    assert(status->Ok_0@.port == status->Ok_0.port);
    assert(routes->Ok_0.1@.map_values(|x: RegisteredRoute| x@).len() == routes->Ok_0.1.len());
}

/// A listener that cannot be bound is not available, and the address that was asked for is named;
/// one whose address cannot be read is a failure of the operation. Either says what was the matter.
pub proof fn law_unbound_listeners_say_why(request: CreateView, words: String)
    ensures
        unbound(request, BindFault::Refused(words)).code == ErrorCode::Unavailable,
        unbound(request, BindFault::Unread(words)).code == ErrorCode::Operation,
        words@.is_suffix_of(unbound(request, BindFault::Refused(words)).message),
        words@.is_suffix_of(unbound(request, BindFault::Unread(words)).message),
        ("failed to bind instance "@ + request.host + ":"@ + text::decimal(
            request.port as nat,
        )).is_prefix_of(unbound(request, BindFault::Refused(words)).message),
{
    let a = unbound(request, BindFault::Refused(words)).message;
    let b = unbound(request, BindFault::Unread(words)).message;
    let head = "failed to bind instance "@ + request.host + ":"@ + text::decimal(
        request.port as nat,
    );
    assert(a.skip(a.len() - words@.len()) =~= words@);
    assert(b.skip(b.len() - words@.len()) =~= words@);
    assert(a.take(head.len() as int) =~= head);
}

} // verus!
