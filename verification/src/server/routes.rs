//! The routes of a named server: which one a request takes, what it asks for there, and how a
//! route is shown.

use vstd::prelude::*;
use crate::order;
use crate::order::{sort, texts_before, Keyed};
use crate::serve::health::{ReadinessSnapshot, SnapshotView};
use crate::serve::{RouteConfig, RouteConfigView};
use crate::server::protocol::{
    ReadinessResult, ReadinessResultView, ReadinessStatus, RegistrationResult,
    RegistrationResultView, RegistrationsResult,
};
use crate::text;
use crate::text::{has_prefix, same, text_option, to_decimal};

verus! {

/// The address on which a server listens.
#[derive(Debug, Clone)]
pub struct ListenAddress {
    /// The IP address in its usual notation, without brackets.
    pub ip: String,
    /// Whether it is one of IPv6.
    pub is_ipv6: bool,
    /// The TCP port.
    pub port: u16,
}

/// A [`ListenAddress`] over sequences.
#[verifier::ext_equal]
pub struct AddressView {
    pub ip: Seq<char>,
    pub is_ipv6: bool,
    pub port: u16,
}

impl View for ListenAddress {
    type V = AddressView;

    open spec fn view(&self) -> AddressView {
        AddressView { ip: self.ip@, is_ipv6: self.is_ipv6, port: self.port }
    }
}

impl ListenAddress {
    /// An equal address.
    pub fn duplicate(&self) -> (r: ListenAddress)
        ensures
            r@ == self@,
    {
        ListenAddress { ip: self.ip.clone(), is_ipv6: self.is_ipv6, port: self.port }
    }
}

/// The URL under which a server can be reached: one that listens everywhere is reached at home.
pub open spec fn public_url(address: AddressView) -> Seq<char> {
    let host = if address.is_ipv6 {
        "["@ + (if address.ip == "::"@ {
            "::1"@
        } else {
            address.ip
        }) + "]"@
    } else if address.ip == "0.0.0.0"@ {
        "127.0.0.1"@
    } else {
        address.ip
    };
    "http://"@ + host + ":"@ + text::decimal(address.port as nat)
}

/// Gives the URL under which a server can be reached.
pub fn public_address(address: &ListenAddress) -> (r: String)
    ensures
        r@ == public_url(address@),
{
    let host: String = if address.is_ipv6 {
        let inner: String = if same(address.ip.as_str(), "::") {
            "::1".to_owned()
        } else {
            address.ip.clone()
        };
        "[".to_owned().concat(inner.as_str()).concat("]")
    } else if same(address.ip.as_str(), "0.0.0.0") {
        "127.0.0.1".to_owned()
    } else {
        address.ip.clone()
    };
    "http://".to_owned().concat(host.as_str()).concat(":").concat(
        to_decimal(address.port as u128).as_str(),
    )
}

/// A registered route, with what the control plane shows of it.
#[derive(Debug)]
pub struct RouteKey {
    /// The registered agent.
    pub id: String,
    /// The prefix of the paths that go to it.
    pub public_route: String,
    /// How it is served.
    pub config: RouteConfig,
}

/// A [`RouteKey`] over sequences.
#[verifier::ext_equal]
pub struct RouteKeyView {
    pub id: Seq<char>,
    pub public_route: Seq<char>,
    pub config: RouteConfigView,
}

impl View for RouteKey {
    type V = RouteKeyView;

    open spec fn view(&self) -> RouteKeyView {
        RouteKeyView { id: self.id@, public_route: self.public_route@, config: self.config@ }
    }
}

impl RouteKey {
    /// An equal route.
    pub fn duplicate(&self) -> (r: RouteKey)
        ensures
            r@ == self@,
    {
        RouteKey {
            id: self.id.clone(),
            public_route: self.public_route.clone(),
            config: self.config.duplicate(),
        }
    }
}

/// What is told of an agent's readiness. The detail of a failure is told only while it lasts.
pub open spec fn readiness(readyz_endpoint: bool, snapshot: SnapshotView) -> ReadinessResultView {
    ReadinessResultView {
        status: if !readyz_endpoint {
            ReadinessStatus::Disabled
        } else if snapshot.last_attempt_failed {
            ReadinessStatus::NotReady
        } else {
            ReadinessStatus::Ready
        },
        attempts: snapshot.attempts,
        failures: snapshot.failures,
        detail: if readyz_endpoint && snapshot.last_attempt_failed {
            match snapshot.last_failure {
                Some(f) => Some(f.detail),
                None => None,
            }
        } else {
            None
        },
    }
}

/// Tells of an agent's readiness.
pub fn readiness_result(readyz_endpoint: bool, snapshot: ReadinessSnapshot) -> (r: ReadinessResult)
    ensures
        r@ == readiness(readyz_endpoint, snapshot@),
{
    let attempts: u64 = snapshot.attempts;
    let failures: u64 = snapshot.failures;
    if !readyz_endpoint {
        ReadinessResult { status: ReadinessStatus::Disabled, attempts, failures, detail: None }
    } else if snapshot.last_attempt_failed {
        let detail: Option<String> = match snapshot.last_failure {
            Some(failure) => Some(failure.detail),
            None => None,
        };
        ReadinessResult { status: ReadinessStatus::NotReady, attempts, failures, detail }
    } else {
        ReadinessResult { status: ReadinessStatus::Ready, attempts, failures, detail: None }
    }
}

/// What is told of a registered route.
pub open spec fn registration(
    name: Seq<char>,
    address: AddressView,
    route: RouteKeyView,
    snapshot: SnapshotView,
) -> RegistrationResultView {
    RegistrationResultView {
        name,
        id: route.id,
        route: route.public_route,
        address: public_url(address),
        path: route.config.path,
        health_endpoint: route.config.health_endpoint,
        readyz_endpoint: route.config.readyz_endpoint,
        max_processes: route.config.max_processes,
        readiness: readiness(route.config.readyz_endpoint, snapshot),
    }
}

/// Tells of a registered route.
pub fn registration_result(
    name: &str,
    address: &ListenAddress,
    route: &RouteKey,
    snapshot: ReadinessSnapshot,
) -> (r: RegistrationResult)
    ensures
        r@ == registration(name@, address@, route@, snapshot@),
{
    RegistrationResult {
        name: name.to_owned(),
        id: route.id.clone(),
        route: route.public_route.clone(),
        address: public_address(address),
        path: route.config.path.clone(),
        health_endpoint: route.config.health_endpoint,
        readyz_endpoint: route.config.readyz_endpoint,
        max_processes: route.config.max_processes,
        readiness: readiness_result(route.config.readyz_endpoint, snapshot),
    }
}

impl Keyed for RegistrationResult {
    open spec fn sort_key(self) -> Seq<Seq<int>> {
        order::texts_key(seq![self.route@, self.id@])
    }

    fn comes_before(&self, other: &Self) -> (r: bool) {
        let a: Vec<String> = vec![self.route.clone(), self.id.clone()];
        let b: Vec<String> = vec![other.route.clone(), other.id.clone()];
        assert(a.deep_view() =~= seq![self.route@, self.id@]);
        assert(b.deep_view() =~= seq![other.route@, other.id@]);
        texts_before(&a, &b)
    }
}

/// Lists the routes of a server in the order of their paths, and of their agents.
pub fn registrations(name: &str, routes: Vec<RegistrationResult>) -> (r: RegistrationsResult)
    ensures
        r.name@ == name@,
        r.registrations@ == order::sorted(routes@),
        order::in_order(r.registrations@),
        r.registrations@.to_multiset() == routes@.to_multiset(),
{
    proof {
        order::lemma_sorted(routes@);
    }
    RegistrationsResult { name: name.to_owned(), registrations: sort(routes) }
}

/// Whether the requests for `path` may take `route`: it is the path, or leads to it by whole
/// segments.
pub open spec fn matches_route(route: Seq<char>, path: Seq<char>) -> bool {
    &&& route.is_prefix_of(path)
    &&& path.len() == route.len() || path[route.len() as int] == '/'
}

/// Tells whether the requests for `path` may take `route`.
pub fn route_matches(route: &str, path: &str) -> (r: bool)
    ensures
        r == matches_route(route@, path@),
{
    if same(path, route) {
        assert(route@.is_prefix_of(path@));
        return true;
    }
    if !has_prefix(path, route) {
        return false;
    }
    let at: usize = route.unicode_len();
    if path.unicode_len() == at {
        assert(path@ =~= route@);
        return true;
    }
    path.get_char(at) == '/'
}

/// Of two routes that a path may take, the longer one is the more special; no two are of one
/// length.
pub proof fn law_no_two_routes_tie(a: Seq<char>, b: Seq<char>, path: Seq<char>)
    requires
        matches_route(a, path),
        matches_route(b, path),
    ensures
        a.len() == b.len() ==> a == b,
        a.len() < b.len() ==> matches_route(a, b),
{
    assert(forall|i: int| 0 <= i < a.len() ==> a[i] == path[i]);
    assert(forall|i: int| 0 <= i < b.len() ==> b[i] == path[i]);
    if a.len() == b.len() {
        assert(a =~= b);
    }
}

/// What a request for `path` and `query` asks for on the route that it takes.
pub open spec fn target(path: Seq<char>, query: Option<Seq<char>>, route: Seq<char>) -> Seq<char> {
    let rest = path.skip(route.len() as int);
    let kept = if rest.len() == 0 {
        "/"@
    } else {
        rest
    };
    match query {
        Some(q) => kept + "?"@ + q,
        None => kept,
    }
}

/// Cuts the route off a request's path, and keeps its query.
pub fn rewrite_target(path: &str, query: Option<&str>, route: &str) -> (r: Result<String, String>)
    ensures
        match r {
            Ok(t) => matches_route(route@, path@) && t@ == target(
                path@,
                text_option(query),
                route@,
            ),
            Err(words) => !matches_route(route@, path@) && words@ == "route "@ + route@
                + " does not match request path "@ + path@,
        },
{
    if !route_matches(route, path) {
        return Err(
            "route ".to_owned().concat(route).concat(" does not match request path ").concat(path),
        );
    }
    let from: usize = route.unicode_len();
    let to: usize = path.unicode_len();
    let rest: &str = path.substring_char(from, to);
    assert(rest@ =~= path@.skip(route@.len() as int));
    let kept: String = if rest.is_empty() {
        "/".to_owned()
    } else {
        rest.to_owned()
    };
    match query {
        Some(q) => Ok(kept.concat("?").concat(q)),
        None => Ok(kept),
    }
}

/// What stays of a path when its route is cut off, put behind the route, is the path again; only
/// the bare route is asked for as the root.
pub proof fn law_rewriting_keeps_the_rest(path: Seq<char>, route: Seq<char>)
    requires
        matches_route(route, path),
    ensures
        path != route ==> route + target(path, None, route) == path,
        path == route ==> target(path, None, route) == "/"@,
        "/"@.is_prefix_of(target(path, None, route)),
{
    reveal_strlit("/");
    if path.len() == route.len() {
        assert(path =~= route);
        assert(path.skip(route.len() as int).len() == 0);
    } else {
        let rest = path.skip(route.len() as int);
        assert(rest[0] == path[route.len() as int]);
        assert(route + rest =~= path) by {
            assert(forall|i: int| 0 <= i < route.len() ==> route[i] == path[i]);
        }
        assert("/"@ =~= rest.take(1));
    }
}

/// The URI that a path with its query makes, or what is wrong with it.
pub uninterp spec fn path_uri(path_and_query: Seq<char>) -> Result<Seq<char>, Seq<char>>;

/// What a build brought, over sequences.
pub open spec fn built_view(built: Result<String, String>) -> Result<Seq<char>, Seq<char>> {
    match built {
        Ok(uri) => Ok(uri@),
        Err(words) => Err(words@),
    }
}

/// Calls `Uri::builder` of the http crate with a path and query alone, and writes the result as
/// text. What it is, is left open; it is taken to depend on the argument alone.
#[verifier::external_body]
fn build_path_uri(path_and_query: &str) -> (r: Result<String, String>)
    ensures
        built_view(r) == path_uri(path_and_query@),
{
    match axum::http::Uri::builder().path_and_query(path_and_query).build() {
        Ok(uri) => Ok(uri.to_string()),
        Err(error) => Err(error.to_string()),
    }
}

/// The answer to a rewrite whose URI was built, or was not.
pub open spec fn rewrite_answer(built: Result<Seq<char>, Seq<char>>) -> Result<
    Seq<char>,
    Seq<char>,
> {
    match built {
        Ok(uri) => Ok(uri),
        Err(words) => Err("failed to rewrite request URI: "@ + words),
    }
}

/// Reports how the building of a rewritten URI went.
pub fn report_rewrite(built: Result<String, String>) -> (r: Result<String, String>)
    ensures
        built_view(r) == rewrite_answer(built_view(built)),
{
    match built {
        Ok(uri) => Ok(uri),
        Err(words) => Err("failed to rewrite request URI: ".to_owned().concat(words.as_str())),
    }
}

/// The URI of a request on the route that it takes.
pub fn rewrite_route_prefix(path: &str, query: Option<&str>, route: &str) -> (r: Result<
    String,
    String,
>)
    ensures
        built_view(r) == if matches_route(route@, path@) {
            rewrite_answer(path_uri(target(path@, text_option(query), route@)))
        } else {
            Err("route "@ + route@ + " does not match request path "@ + path@)
        },
{
    match rewrite_target(path, query, route) {
        Ok(kept) => report_rewrite(build_path_uri(kept.as_str())),
        Err(words) => Err(words),
    }
}

/// The query of a request reaches the agent unchanged, whole and behind the path.
pub proof fn law_rewriting_keeps_the_query(path: Seq<char>, q: Seq<char>, route: Seq<char>)
    requires
        matches_route(route, path),
    ensures
        target(path, Some(q), route) == target(path, None, route) + "?"@ + q,
        q.is_suffix_of(target(path, Some(q), route)),
        target(path, Some(q), route).len() == target(path, None, route).len() + 1 + q.len(),
{
    reveal_strlit("?");
    let all = target(path, Some(q), route);
    assert(all.skip(all.len() - q.len()) =~= q);
}

/// A route is for its own path and for everything below it, and for nothing else: a path that goes
/// on within a segment is another one.
pub proof fn law_routes_are_for_whole_segments(
    route: Seq<char>,
    rest: Seq<char>,
    path: Seq<char>,
)
    ensures
        matches_route(route, route),
        matches_route(route, route.push('/') + rest),
        rest.len() > 0 && rest[0] != '/' ==> !matches_route(route, route + rest),
        path.len() < route.len() ==> !matches_route(route, path),
        matches_route(route, path) ==> path.take(route.len() as int) == route,
{
    assert(route.take(route.len() as int) =~= route);
    let below = route.push('/') + rest;
    assert(below.take(route.len() as int) =~= route);
    assert((route + rest).take(route.len() as int) =~= route);
}

/// An agent is ready exactly if it is probed at all and its newest launch did not fail; the counts
/// are those of the snapshot, and there are words only of one that is not ready.
pub proof fn law_readiness_is_that_of_the_snapshot(readyz_endpoint: bool, s: SnapshotView)
    ensures
        ({
            let r = readiness(readyz_endpoint, s);
            &&& r.status == ReadinessStatus::Disabled <==> !readyz_endpoint
            &&& r.status == ReadinessStatus::NotReady <==> readyz_endpoint && s.last_attempt_failed
            &&& r.status == ReadinessStatus::Ready <==> readyz_endpoint && !s.last_attempt_failed
            &&& r.attempts == s.attempts
            &&& r.failures == s.failures
            &&& r.detail is Some <==> r.status == ReadinessStatus::NotReady
                && s.last_failure is Some
            &&& r.detail is Some ==> r.detail->Some_0 == s.last_failure->Some_0.detail
        }),
{
}

/// What is told of a route is what it was registered with.
pub proof fn law_registrations_tell_of_their_route(
    name: Seq<char>,
    address: AddressView,
    key: RouteKey,
    s: SnapshotView,
)
    ensures
        ({
            let r = registration(name, address, key@, s);
            &&& r.name == name
            &&& r.id == key.id@
            &&& r.route == key.public_route@
            &&& r.address == public_url(address)
            &&& r.path == key.config.path@
            &&& r.health_endpoint == key.config.health_endpoint
            &&& r.readyz_endpoint == key.config.readyz_endpoint
            &&& r.max_processes == key.config.max_processes
            &&& r.readiness == readiness(key.config.readyz_endpoint, s)
        }),
{
}

/// A server is reached at the address it listens at, with its port; one that listens everywhere is
/// reached at this machine.
pub proof fn law_public_urls_lead_to_the_listener(ip: Seq<char>, port: u16)
    ensures
        ip != "0.0.0.0"@ ==> public_url(AddressView { ip, is_ipv6: false, port }) == "http://"@ + ip
            + ":"@ + text::decimal(port as nat),
        ip != "::"@ ==> public_url(AddressView { ip, is_ipv6: true, port }) == "http://["@ + ip
            + "]:"@ + text::decimal(port as nat),
        public_url(AddressView { ip: "0.0.0.0"@, is_ipv6: false, port }) == "http://127.0.0.1:"@
            + text::decimal(port as nat),
        public_url(AddressView { ip: "::"@, is_ipv6: true, port }) == "http://[::1]:"@
            + text::decimal(port as nat),
{
    reveal_strlit("http://");
    reveal_strlit("http://[");
    reveal_strlit("http://127.0.0.1:");
    reveal_strlit("http://[::1]:");
    reveal_strlit("[");
    reveal_strlit("]");
    reveal_strlit("]:");
    reveal_strlit(":");
    reveal_strlit("127.0.0.1");
    reveal_strlit("::1");
    let d = text::decimal(port as nat);
    assert(public_url(AddressView { ip: "0.0.0.0"@, is_ipv6: false, port })
        =~= "http://127.0.0.1:"@ + d);
    assert(public_url(AddressView { ip: "::"@, is_ipv6: true, port }) =~= "http://[::1]:"@ + d);
    if ip != "::"@ {
        assert(public_url(AddressView { ip, is_ipv6: true, port }) =~= "http://["@ + ip + "]:"@
            + d);
    }
}

/// Registrations are listed by route, and by agent where the routes are equal.
pub proof fn law_registrations_are_listed_by_route(a: RegistrationResult, b: RegistrationResult)
    ensures
        order::key_before(a.sort_key(), b.sort_key()) <==> order::codes_before(
            order::text_codes(a.route@),
            order::text_codes(b.route@),
        ) || (order::text_codes(a.route@) == order::text_codes(b.route@) && order::codes_before(
            order::text_codes(a.id@),
            order::text_codes(b.id@),
        )),
{
    assert(a.sort_key().len() == 2 && b.sort_key().len() == 2);
    order::law_first_parts_decide(a.sort_key(), b.sort_key());
}

/// Addresses and routes with the same view agree on everything.
pub proof fn law_route_views_hold_every_field(
    a: ListenAddress,
    b: ListenAddress,
    p: RouteKey,
    q: RouteKey,
)
    ensures
        a@ == b@ ==> a.ip@ == b.ip@ && a.is_ipv6 == b.is_ipv6 && a.port == b.port,
        p@ == q@ ==> p.id@ == q.id@ && p.public_route@ == q.public_route@ && p.config@ == q.config@,
{
}

/// A rewritten request is passed on as it was built, and a failure to build it stays one.
pub proof fn law_rewrites_are_passed_on(built: Result<Seq<char>, Seq<char>>)
    ensures
        rewrite_answer(built) is Ok <==> built is Ok,
        built is Ok ==> rewrite_answer(built)->Ok_0 == built->Ok_0,
        built is Err ==> built->Err_0.is_suffix_of(rewrite_answer(built)->Err_0),
{
    if built is Err {
        let all = rewrite_answer(built)->Err_0;
        assert(all.skip(all.len() - built->Err_0.len()) =~= built->Err_0);
    }
}

/// A request below a route is passed on with everything behind the route and with its whole query;
/// one that is not below it is refused.
pub proof fn law_requests_keep_path_and_query(
    path: &str,
    query: Option<&str>,
    route: &str,
    rest: Seq<char>,
    r: Result<String, String>,
)
    requires
        call_ensures(rewrite_target, (path, query, route), r),
    ensures
        path@ == route@.push('/') + rest ==> r is Ok && r->Ok_0@ == seq!['/'] + rest + (
        match query {
            Some(q) => seq!['?'] + q@,
            None => Seq::empty(),
        }),
        path@ == route@ ==> r is Ok && r->Ok_0@ == seq!['/'] + (match query {
            Some(q) => seq!['?'] + q@,
            None => Seq::empty(),
        }),
        rest.len() > 0 && rest[0] != '/' && path@ == route@ + rest ==> r is Err,
        path@.len() < route@.len() ==> r is Err,
{
    reveal_strlit("?");
    reveal_strlit("/");
    law_routes_are_for_whole_segments(route@, rest, path@);
    let tail = match query {
        Some(q) => seq!['?'] + q@,
        None => Seq::empty(),
    };
    if path@ == route@.push('/') + rest {
        assert(path@.skip(route@.len() as int) =~= seq!['/'] + rest);
        assert(r->Ok_0@ =~= seq!['/'] + rest + tail);
    }
    if path@ == route@ {
        assert(path@.skip(route@.len() as int) =~= Seq::<char>::empty());
        assert(r->Ok_0@ =~= seq!['/'] + tail);
    }
}

/// Every registration is listed, under the server's name.
pub proof fn law_every_registration_is_listed(
    name: &str,
    all: Vec<RegistrationResult>,
    r: RegistrationsResult,
    at: int,
)
    requires
        call_ensures(registrations, (name, all), r),
    ensures
        r.name@ == name@,
        r.registrations.len() == all.len(),
        0 <= at < all.len() ==> r.registrations@.contains(all@[at]),
        order::in_order(r.registrations@),
{
    if 0 <= at < all.len() {
        assert(all@.contains(all@[at]));
        order::law_sorting_keeps_everything(all@, all@[at]);
    }
    order::lemma_sorted(all@);
}

} // verus!
