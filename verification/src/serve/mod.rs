//! Serving one agent over HTTP: what may be configured, and what is refused.

use vstd::prelude::*;
use crate::failure;
use crate::failure::{Failure, FailureView};
use crate::text::{has_prefix, has_suffix, same, text_option, to_decimal};
use crate::text;

pub mod admission;
pub mod health;
pub mod launch;
pub mod shutdown;

verus! {

/// Default maximum number of concurrent agent processes per served route.
pub const DEFAULT_MAX_PROCESSES: usize = 16;

/// ACP route configuration shared by standalone and named servers.
#[derive(Debug, Clone)]
pub struct RouteConfig {
    /// Path serving ACP over HTTP/SSE and WebSocket.
    pub path: String,
    /// Browser origins allowed to access the route.
    pub cors_origins: Vec<String>,
    /// Whether all browser origins are accepted.
    pub allow_any_origin: bool,
    /// Whether to expose `GET /health`.
    pub health_endpoint: bool,
    /// Whether to expose `GET /readyz` with agent launch health.
    ///
    /// `GET /health` stays `ok` even while agent launches fail, so this probe exists for
    /// operators to see agent-process health.
    pub readyz_endpoint: bool,
    /// Maximum number of concurrent agent processes for this route.
    pub max_processes: usize,
}

/// A [`RouteConfig`] over sequences.
#[verifier::ext_equal]
pub struct RouteConfigView {
    pub path: Seq<char>,
    pub cors_origins: Seq<Seq<char>>,
    pub allow_any_origin: bool,
    pub health_endpoint: bool,
    pub readyz_endpoint: bool,
    pub max_processes: usize,
}

impl View for RouteConfig {
    type V = RouteConfigView;

    open spec fn view(&self) -> RouteConfigView {
        RouteConfigView {
            path: self.path@,
            cors_origins: self.cors_origins.deep_view(),
            allow_any_origin: self.allow_any_origin,
            health_endpoint: self.health_endpoint,
            readyz_endpoint: self.readyz_endpoint,
            max_processes: self.max_processes,
        }
    }
}

/// The configuration of a route for which nothing is said.
pub open spec fn default_route() -> RouteConfigView {
    RouteConfigView {
        path: "/acp"@,
        cors_origins: Seq::empty(),
        allow_any_origin: false,
        health_endpoint: true,
        readyz_endpoint: true,
        max_processes: DEFAULT_MAX_PROCESSES,
    }
}

impl Default for RouteConfig {
    fn default() -> (r: Self)
        ensures
            r@ == default_route(),
    {
        RouteConfig {
            path: "/acp".to_owned(),
            cors_origins: Vec::new(),
            allow_any_origin: false,
            health_endpoint: true,
            readyz_endpoint: true,
            max_processes: DEFAULT_MAX_PROCESSES,
        }
    }
}

impl RouteConfig {
    /// A configuration that says the same.
    pub fn duplicate(&self) -> (r: RouteConfig)
        ensures
            r@ == self@,
    {
        let r = RouteConfig {
            path: self.path.clone(),
            cors_origins: duplicate_texts(&self.cors_origins),
            allow_any_origin: self.allow_any_origin,
            health_endpoint: self.health_endpoint,
            readyz_endpoint: self.readyz_endpoint,
            max_processes: self.max_processes,
        };
        r
    }
}

fn duplicate_texts(texts: &Vec<String>) -> (r: Vec<String>)
    ensures
        r.deep_view() == texts.deep_view(),
{
    let mut r: Vec<String> = Vec::new();
    let mut i: usize = 0;
    while i < texts.len()
        invariant
            i <= texts.len(),
            r.len() == i,
            forall|k: int| 0 <= k < i ==> (#[trigger] r@[k])@ == texts@[k]@,
        decreases texts.len() - i,
    {
        r.push(texts[i].clone());
        i += 1;
    }
    r
}

/// HTTP listener configuration for serving one agent.
#[derive(Debug, Clone)]
pub struct ServeOptions {
    /// Hostname or IP address to bind.
    pub host: String,
    /// TCP port to bind. Port `0` lets the operating system choose a port.
    pub port: u16,
    /// Optional mount prefix applied to all served endpoints.
    pub mount_path: Option<String>,
    /// ACP route configuration.
    pub route: RouteConfig,
}

impl Default for ServeOptions {
    fn default() -> (r: Self)
        ensures
            r.host@ == "127.0.0.1"@,
            r.port == 0,
            r.mount_path is None,
            r.route@ == default_route(),
    {
        ServeOptions {
            host: "127.0.0.1".to_owned(),
            port: 0,
            mount_path: None,
            route: RouteConfig::default(),
        }
    }
}

/// Which browser origins may reach a route.
#[derive(Debug, Clone)]
pub enum CorsPolicy {
    /// No browser origin.
    Disabled,
    /// Every browser origin.
    AllowAnyOrigin,
    /// These browser origins.
    AllowOrigins(Vec<String>),
}

/// A [`CorsPolicy`] over sequences.
#[verifier::ext_equal]
pub enum CorsPolicyView {
    Disabled,
    AllowAnyOrigin,
    AllowOrigins(Seq<Seq<char>>),
}

impl View for CorsPolicy {
    type V = CorsPolicyView;

    open spec fn view(&self) -> CorsPolicyView {
        match self {
            CorsPolicy::Disabled => CorsPolicyView::Disabled,
            CorsPolicy::AllowAnyOrigin => CorsPolicyView::AllowAnyOrigin,
            CorsPolicy::AllowOrigins(origins) => CorsPolicyView::AllowOrigins(origins.deep_view()),
        }
    }
}

impl CorsPolicy {
    /// A policy that says the same.
    pub fn duplicate(&self) -> (r: CorsPolicy)
        ensures
            r@ == self@,
    {
        match self {
            CorsPolicy::Disabled => CorsPolicy::Disabled,
            CorsPolicy::AllowAnyOrigin => CorsPolicy::AllowAnyOrigin,
            CorsPolicy::AllowOrigins(origins) => CorsPolicy::AllowOrigins(
                duplicate_texts(origins),
            ),
        }
    }
}

/// Whether `s` may stand as the value of an HTTP header: no control character but the tab.
pub open spec fn is_header_text(s: Seq<char>) -> bool {
    forall|i: int|
        0 <= i < s.len() ==> {
            let code = #[trigger] s[i] as u32;
            (code >= 32 && code != 127) || code == 9
        }
}

/// Whether `origins[at]` is the first of them that cannot be a header's value.
pub open spec fn is_first_bad_origin(origins: Seq<Seq<char>>, at: int) -> bool {
    &&& 0 <= at < origins.len()
    &&& !is_header_text(origins[at])
    &&& forall|i: int| 0 <= i < at ==> is_header_text(#[trigger] origins[i])
}

/// What is said of an origin that cannot be a header's value, outermost first.
pub uninterp spec fn bad_origin_words(origin: Seq<char>) -> Seq<Seq<char>>;

/// Calls `CorsOptions::allow_origins` of the agent-client-protocol-http crate. It is taken to
/// accept the origins if each is a valid header value, and otherwise to report the first that is
/// not; what it says of that origin is left open, and depends on the origin alone.
#[verifier::external_body]
fn allow_origins(origins: &Vec<String>) -> (r: Result<(), (String, Vec<String>)>)
    ensures
        match r {
            Ok(_) => forall|i: int|
                0 <= i < origins.len() ==> is_header_text(#[trigger] origins.deep_view()[i]),
            Err((origin, words)) => {
                &&& exists|at: int|
                    #[trigger] is_first_bad_origin(origins.deep_view(), at) && origin@
                        == origins.deep_view()[at]
                &&& words.deep_view() == bad_origin_words(origin@)
            },
        },
{
    match agent_client_protocol_http::CorsOptions::allow_origins(origins) {
        Ok(_) => Ok(()),
        Err(error) => {
            let cause = std::error::Error::source(&error).map(|beneath| beneath.to_string());
            let mut words = vec![error.to_string()];
            words.extend(cause);
            Err((error.origin().to_owned(), words))
        },
    }
}

/// The refusal of origins one of which cannot be a header's value.
pub open spec fn bad_origin(origin: Seq<char>) -> FailureView {
    FailureView {
        message: "CORS origin contains an invalid HTTP header value"@,
        causes: bad_origin_words(origin),
    }
}

/// Builds the browser-origin policy shared by standalone and named servers.
pub fn cors_options(origins: Vec<String>, allow_any: bool) -> (r: Result<CorsPolicy, Failure>)
    ensures
        match r {
            Ok(policy) => {
                &&& allow_any ==> origins.len() == 0 && policy@ == CorsPolicyView::AllowAnyOrigin
                &&& !allow_any && origins.len() == 0 ==> policy@ == CorsPolicyView::Disabled
                &&& !allow_any && origins.len() > 0 ==> {
                    &&& policy@ == CorsPolicyView::AllowOrigins(origins.deep_view())
                    &&& forall|i: int|
                        0 <= i < origins.len() ==> is_header_text(
                            #[trigger] origins.deep_view()[i],
                        )
                }
            },
            Err(e) => if allow_any {
                &&& origins.len() > 0
                &&& e@ == failure::failure(
                    "CORS origins cannot be combined with allow_any_origin"@,
                )
            } else {
                exists|at: int| #[trigger]
                    is_first_bad_origin(origins.deep_view(), at) && e@ == bad_origin(
                        origins.deep_view()[at],
                    )
            },
        },
{
    if allow_any && origins.len() > 0 {
        return Err(
            Failure::new("CORS origins cannot be combined with allow_any_origin".to_owned()),
        );
    }
    if allow_any {
        Ok(CorsPolicy::AllowAnyOrigin)
    } else if origins.len() == 0 {
        Ok(CorsPolicy::Disabled)
    } else {
        match allow_origins(&origins) {
            Ok(_) => Ok(CorsPolicy::AllowOrigins(origins)),
            Err((_, words)) => Err(
                Failure {
                    message: "CORS origin contains an invalid HTTP header value".to_owned(),
                    causes: words,
                },
            ),
        }
    }
}

/// Reads `Semaphore::MAX_PERMITS` of the tokio crate, which is `usize::MAX >> 3`.
#[verifier::external_body]
fn max_permits() -> (r: usize)
    ensures
        r == usize::MAX / 8,
{
    tokio::sync::Semaphore::MAX_PERMITS
}

/// The most agent processes that one route may be allowed.
pub open spec fn process_ceiling() -> usize {
    usize::MAX / 8
}

/// What is wrong with a number of agent processes.
pub open spec fn process_limit_fault(max_processes: usize) -> Option<Seq<char>> {
    if max_processes == 0 {
        Some("max_processes must be greater than zero"@)
    } else if max_processes > process_ceiling() {
        Some("max_processes must not exceed "@ + text::decimal(process_ceiling() as nat))
    } else {
        None
    }
}

/// The outcome of a check that found `fault`, or nothing.
pub open spec fn verdict(r: Result<(), Failure>, fault: Option<Seq<char>>) -> bool {
    match fault {
        None => r is Ok,
        Some(words) => r is Err && r->Err_0@ == failure::failure(words),
    }
}

/// Checks the number of agent processes that a route may run.
pub fn validate_process_limit(max_processes: usize) -> (r: Result<(), Failure>)
    ensures
        verdict(r, process_limit_fault(max_processes)),
{
    if max_processes == 0 {
        return Err(Failure::new("max_processes must be greater than zero".to_owned()));
    }
    let ceiling: usize = max_permits();
    if max_processes > ceiling {
        let words = "max_processes must not exceed ".to_owned().concat(
            to_decimal(ceiling as u128).as_str(),
        );
        return Err(Failure::new(words));
    }
    Ok(())
}

/// What is wrong with the path of an endpoint beside which the enabled probes are served.
pub open spec fn endpoint_fault(path: Seq<char>, health: bool, readyz: bool) -> Option<Seq<char>> {
    if !"/"@.is_prefix_of(path) {
        Some("ACP endpoint path must start with '/'"@)
    } else if path.len() == 1 {
        Some("ACP endpoint path cannot be '/'"@)
    } else if health && path == "/health"@ {
        Some("ACP endpoint path conflicts with the health endpoint"@)
    } else if readyz && path == "/readyz"@ {
        Some("ACP endpoint path conflicts with the readiness endpoint"@)
    } else {
        None
    }
}

fn validate_endpoint(path: &str, health: bool, readyz: bool) -> (r: Result<(), Failure>)
    ensures
        verdict(r, endpoint_fault(path@, health, readyz)),
{
    if !has_prefix(path, "/") {
        return Err(Failure::new("ACP endpoint path must start with '/'".to_owned()));
    }
    if path.unicode_len() == 1 {
        return Err(Failure::new("ACP endpoint path cannot be '/'".to_owned()));
    }
    if health && same(path, "/health") {
        return Err(
            Failure::new("ACP endpoint path conflicts with the health endpoint".to_owned()),
        );
    }
    if readyz && same(path, "/readyz") {
        return Err(
            Failure::new("ACP endpoint path conflicts with the readiness endpoint".to_owned()),
        );
    }
    Ok(())
}

/// What is wrong with a route's number of processes or path.
pub open spec fn route_fault(
    max_processes: usize,
    path: Seq<char>,
    health: bool,
    readyz: bool,
) -> Option<Seq<char>> {
    match process_limit_fault(max_processes) {
        Some(words) => Some(words),
        None => endpoint_fault(path, health, readyz),
    }
}

/// Checks a route configuration.
pub fn validate_route_config(options: &RouteConfig) -> (r: Result<(), Failure>)
    ensures
        verdict(
            r,
            route_fault(
                options.max_processes,
                options.path@,
                options.health_endpoint,
                options.readyz_endpoint,
            ),
        ),
{
    validate_process_limit(options.max_processes)?;
    validate_endpoint(options.path.as_str(), options.health_endpoint, options.readyz_endpoint)
}

/// ACP HTTP router configuration with its browser-origin policy decided.
#[derive(Debug, Clone)]
pub struct AgentRouterOptions {
    /// Path serving ACP over HTTP/SSE and WebSocket.
    pub path: String,
    /// Cross-origin browser access policy.
    pub cors: CorsPolicy,
    /// Whether to expose `GET /health`.
    pub health_endpoint: bool,
    /// Whether to expose `GET /readyz` with agent launch health.
    pub readyz_endpoint: bool,
    /// Maximum number of concurrent agent processes for this route.
    pub max_processes: usize,
}

impl Default for AgentRouterOptions {
    fn default() -> (r: Self)
        ensures
            r.path@ == "/acp"@,
            r.cors is Disabled,
            r.health_endpoint,
            r.readyz_endpoint,
            r.max_processes == DEFAULT_MAX_PROCESSES,
    {
        AgentRouterOptions {
            path: "/acp".to_owned(),
            cors: CorsPolicy::Disabled,
            health_endpoint: true,
            readyz_endpoint: true,
            max_processes: DEFAULT_MAX_PROCESSES,
        }
    }
}

/// Checks a router configuration.
pub fn validate_router_options(options: &AgentRouterOptions) -> (r: Result<(), Failure>)
    ensures
        verdict(
            r,
            route_fault(
                options.max_processes,
                options.path@,
                options.health_endpoint,
                options.readyz_endpoint,
            ),
        ),
{
    validate_process_limit(options.max_processes)?;
    validate_endpoint(options.path.as_str(), options.health_endpoint, options.readyz_endpoint)
}

/// What the HTTP transport is set up with.
#[derive(Debug, Clone)]
pub struct HttpServerOptions {
    /// Path serving ACP over HTTP/SSE and WebSocket.
    pub path: String,
    /// Cross-origin browser access policy.
    pub cors: CorsPolicy,
    /// Whether to expose `GET /health`.
    pub health_endpoint: bool,
}

/// The transport's setup for a router configuration.
pub fn http_server_options(options: &AgentRouterOptions) -> (r: Result<HttpServerOptions, Failure>)
    ensures
        match route_fault(
            options.max_processes,
            options.path@,
            options.health_endpoint,
            options.readyz_endpoint,
        ) {
            Some(words) => r is Err && r->Err_0@ == failure::failure(words),
            None => {
                &&& r is Ok
                &&& r->Ok_0.path@ == options.path@
                &&& r->Ok_0.cors@ == options.cors@
                &&& r->Ok_0.health_endpoint == options.health_endpoint
            },
        },
{
    validate_router_options(options)?;
    Ok(
        HttpServerOptions {
            path: options.path.clone(),
            cors: options.cors.duplicate(),
            health_endpoint: options.health_endpoint,
        },
    )
}

/// The router configuration of a route: checked, with its browser-origin policy decided.
pub fn router_options(config: &RouteConfig) -> (r: Result<AgentRouterOptions, Failure>)
    ensures
        match route_fault(
            config.max_processes,
            config.path@,
            config.health_endpoint,
            config.readyz_endpoint,
        ) {
            Some(words) => r is Err && r->Err_0@ == failure::failure(words),
            None => match r {
                Ok(options) => {
                    &&& options.path@ == config.path@
                    &&& options.health_endpoint == config.health_endpoint
                    &&& options.readyz_endpoint == config.readyz_endpoint
                    &&& options.max_processes == config.max_processes
                    &&& config.allow_any_origin ==> config.cors_origins.len() == 0
                        && options.cors@ == CorsPolicyView::AllowAnyOrigin
                    &&& !config.allow_any_origin ==> options.cors@ == if config.cors_origins.len()
                        == 0 {
                        CorsPolicyView::Disabled
                    } else {
                        CorsPolicyView::AllowOrigins(config.cors_origins.deep_view())
                    }
                    &&& forall|i: int|
                        0 <= i < config.cors_origins.len() ==> is_header_text(
                            #[trigger] config.cors_origins.deep_view()[i],
                        )
                },
                Err(e) => if config.allow_any_origin {
                    &&& config.cors_origins.len() > 0
                    &&& e@ == failure::failure(
                        "CORS origins cannot be combined with allow_any_origin"@,
                    )
                } else {
                    exists|at: int| #[trigger]
                        is_first_bad_origin(config.cors_origins.deep_view(), at) && e@
                            == bad_origin(config.cors_origins.deep_view()[at])
                },
            },
        },
{
    validate_route_config(config)?;
    let origins = duplicate_texts(&config.cors_origins);
    assert(origins.deep_view().len() == config.cors_origins.deep_view().len());
    let cors = cors_options(origins, config.allow_any_origin)?;
    Ok(
        AgentRouterOptions {
            path: config.path.clone(),
            cors,
            health_endpoint: config.health_endpoint,
            readyz_endpoint: config.readyz_endpoint,
            max_processes: config.max_processes,
        },
    )
}

/// What is wrong with a path under which all endpoints are mounted, in words that begin with
/// `what`.
pub open spec fn prefix_fault(what: Seq<char>, path: Seq<char>) -> Option<Seq<char>> {
    if !"/"@.is_prefix_of(path) {
        Some(what + " must start with '/'"@)
    } else if path.len() == 1 {
        Some(what + " cannot be '/'"@)
    } else if "/"@.is_suffix_of(path) {
        Some(what + " must not end with '/'"@)
    } else {
        None
    }
}

fn validate_prefix(what: &str, path: &str) -> (r: Result<(), Failure>)
    ensures
        verdict(r, prefix_fault(what@, path@)),
{
    if !has_prefix(path, "/") {
        return Err(Failure::new(what.to_owned().concat(" must start with '/'")));
    }
    if path.unicode_len() == 1 {
        return Err(Failure::new(what.to_owned().concat(" cannot be '/'")));
    }
    if has_suffix(path, "/") {
        return Err(Failure::new(what.to_owned().concat(" must not end with '/'")));
    }
    Ok(())
}

/// Checks the path under which a standalone server mounts its endpoints.
pub fn validate_mount_path(mount_path: &str) -> (r: Result<(), Failure>)
    ensures
        verdict(r, prefix_fault("mount path"@, mount_path@)),
{
    validate_prefix("mount path", mount_path)
}

/// Checks a prefix of the served URLs.
pub fn validate_subpath(subpath: &str) -> (r: Result<(), Failure>)
    ensures
        verdict(r, prefix_fault("subpath"@, subpath@)),
{
    validate_prefix("subpath", subpath)
}

/// The mount path, or nothing.
pub open spec fn mount_or_empty(mount_path: Option<Seq<char>>) -> Seq<char> {
    match mount_path {
        Some(path) => path,
        None => Seq::empty(),
    }
}

/// The lines that announce a server which listens on `address`.
pub open spec fn serving_lines(
    address: Seq<char>,
    mount: Seq<char>,
    route: RouteConfigView,
) -> Seq<Seq<char>> {
    let served = "Serving ACP agent at http://"@ + address + mount + route.path
        + " (WebSocket available on the same endpoint)"@;
    if route.readyz_endpoint {
        seq![served, "Agent readiness probe at http://"@ + address + mount + "/readyz"@]
    } else {
        seq![served]
    }
}

/// Announces a server that listens on `address`.
pub fn announce(address: &str, mount_path: Option<&str>, route: &RouteConfig) -> (r: Vec<String>)
    ensures
        r.deep_view() == serving_lines(address@, mount_or_empty(text_option(mount_path)), route@),
{
    let mount: String = match mount_path {
        Some(path) => path.to_owned(),
        None => String::new(),
    };
    let served = "Serving ACP agent at http://".to_owned().concat(address).concat(
        mount.as_str(),
    ).concat(route.path.as_str()).concat(" (WebSocket available on the same endpoint)");
    let mut lines: Vec<String> = Vec::new();
    lines.push(served);
    if route.readyz_endpoint {
        lines.push(
            "Agent readiness probe at http://".to_owned().concat(address).concat(
                mount.as_str(),
            ).concat("/readyz"),
        );
    }
    assert(lines.deep_view() =~= serving_lines(
        address@,
        mount_or_empty(text_option(mount_path)),
        route@,
    ));
    lines
}

/// The failure to listen on `host` and `port`.
pub open spec fn bind_failure(cause: FailureView, host: Seq<char>, port: u16) -> FailureView {
    cause.within(
        "failed to bind ACP HTTP listener on "@ + host + ":"@ + text::decimal(port as nat),
    )
}

/// Reports that a server could not listen.
pub fn report_bind_failure(cause: Failure, host: &str, port: u16) -> (r: Failure)
    ensures
        r@ == bind_failure(cause@, host@, port),
{
    cause.within(
        "failed to bind ACP HTTP listener on ".to_owned().concat(host).concat(":").concat(
            to_decimal(port as u128).as_str(),
        ),
    )
}

/// A limit on processes is accepted exactly if it is above zero and within what can be counted.
pub proof fn law_process_limits_are_above_zero(max_processes: usize)
    ensures
        process_limit_fault(max_processes) is None <==> 0 < max_processes && max_processes
            <= usize::MAX / 8,
{
}

/// An endpoint is accepted exactly if it is a path below the root that none of the probes that are
/// switched on has.
pub proof fn law_endpoints_keep_out_of_the_probes(
    max_processes: usize,
    path: Seq<char>,
    health: bool,
    readyz: bool,
)
    ensures
        endpoint_fault(path, health, readyz) is None <==> path.len() > 1 && path[0] == '/' && !(
        health && path == "/health"@) && !(readyz && path == "/readyz"@),
        route_fault(max_processes, path, health, readyz) is None <==> process_limit_fault(
            max_processes,
        ) is None && endpoint_fault(path, health, readyz) is None,
{
    lemma_leading_slash(path);
}

proof fn lemma_leading_slash(path: Seq<char>)
    ensures
        "/"@.is_prefix_of(path) <==> path.len() > 0 && path[0] == '/',
        "/"@.is_suffix_of(path) <==> path.len() > 0 && path.last() == '/',
{
    reveal_strlit("/");
    let slash = "/"@;
    assert(slash.len() == 1 && slash[0] == '/');
    if path.len() > 0 {
        assert(path.subrange(0, 1)[0] == path[0]);
        assert(path.subrange(path.len() - 1, path.len() as int)[0] == path.last());
        if path[0] == '/' {
            assert(path.subrange(0, 1) =~= slash);
        }
        if path.last() == '/' {
            assert(path.subrange(path.len() - 1, path.len() as int) =~= slash);
        }
    }
}

/// A prefix is accepted exactly if it is a path below the root that does not end with a slash.
pub proof fn law_prefixes_are_below_the_root(what: Seq<char>, path: Seq<char>)
    ensures
        prefix_fault(what, path) is None <==> path.len() > 1 && path[0] == '/' && path.last()
            != '/',
{
    lemma_leading_slash(path);
}

/// The text of a header holds no control character but the tab.
pub proof fn law_header_texts_hold_no_control_characters(s: Seq<char>, i: int)
    requires
        0 <= i < s.len(),
        s[i] as int == 127 || (s[i] as int <= 31 && s[i] as int != 9),
    ensures
        !is_header_text(s),
{
    lemma_code(s[i]);
    let code = s[i] as u32;
    assert(!((code >= 32 && code != 127) || code == 9));
}

proof fn lemma_code(c: char)
    ensures
        c as u32 == c as int,
{
}

/// Printable characters may stand in a header.
pub proof fn law_printable_texts_are_header_texts(s: Seq<char>)
    requires
        forall|i: int| 0 <= i < s.len() ==> 32 <= (#[trigger] s[i]) as int && s[i] as int != 127,
    ensures
        is_header_text(s),
{
    assert forall|i: int| 0 <= i < s.len() implies ({
        let code = #[trigger] s[i] as u32;
        (code >= 32 && code != 127) || code == 9
    }) by {
        lemma_code(s[i]);
        assert(32 <= s[i] as int && s[i] as int != 127);
    }
}

/// The first line that announces a server holds the address of its endpoint, and the line about
/// readiness, which is there exactly if there is a probe, ends with the address of that.
pub proof fn law_announcements_hold_the_addresses(
    address: Seq<char>,
    mount: Seq<char>,
    route: RouteConfigView,
)
    ensures
        ({
            let lines = serving_lines(address, mount, route);
            let endpoint = "http://"@ + address + mount + route.path;
            &&& lines.len() == if route.readyz_endpoint {
                2int
            } else {
                1int
            }
            &&& exists|at: int| #[trigger] text::occurs_at(lines[0], endpoint, at)
            &&& route.readyz_endpoint ==> ("http://"@ + address + mount
                + "/readyz"@).is_suffix_of(lines[1])
        }),
{
    reveal_strlit("Serving ACP agent at http://");
    reveal_strlit("Agent readiness probe at http://");
    reveal_strlit("http://");
    let lines = serving_lines(address, mount, route);
    let endpoint = "http://"@ + address + mount + route.path;
    assert(lines[0].subrange(21, 21 + endpoint.len() as int) =~= endpoint);
    assert(text::occurs_at(lines[0], endpoint, 21));
    if route.readyz_endpoint {
        let probe = "http://"@ + address + mount + "/readyz"@;
        assert(lines[1].skip(lines[1].len() - probe.len()) =~= probe);
    }
}

/// A route that nothing was said about is at `/acp`, is probed both ways, and lets no other origin
/// in.
pub proof fn law_default_route_is_closed_to_other_origins()
    ensures
        default_route().path == "/acp"@,
        default_route().cors_origins.len() == 0,
        !default_route().allow_any_origin,
        default_route().health_endpoint,
        default_route().readyz_endpoint,
        process_limit_fault(default_route().max_processes) is None,
{
}

/// Options with the same view agree on everything.
pub proof fn law_option_views_hold_every_field(
    a: RouteConfig,
    b: RouteConfig,
    p: CorsPolicy,
    q: CorsPolicy,
)
    ensures
        a@ == b@ ==> {
            &&& a.path@ == b.path@
            &&& a.cors_origins.deep_view() == b.cors_origins.deep_view()
            &&& a.allow_any_origin == b.allow_any_origin
            &&& a.health_endpoint == b.health_endpoint
            &&& a.readyz_endpoint == b.readyz_endpoint
            &&& a.max_processes == b.max_processes
        },
        p@ == q@ ==> match (p, q) {
            (CorsPolicy::Disabled, CorsPolicy::Disabled) => true,
            (CorsPolicy::AllowAnyOrigin, CorsPolicy::AllowAnyOrigin) => true,
            (CorsPolicy::AllowOrigins(x), CorsPolicy::AllowOrigins(y)) => x.deep_view()
                == y.deep_view(),
            _ => false,
        },
{
}

/// Origins are allowed one by one or all at once, never both, and every single one must fit a
/// header; without any, other origins stay out.
pub proof fn law_origins_are_allowed_as_asked(
    origins: Vec<String>,
    allow_any: bool,
    r: Result<CorsPolicy, Failure>,
    i: int,
)
    requires
        call_ensures(cors_options, (origins, allow_any), r),
    ensures
        allow_any ==> (r is Ok <==> origins.len() == 0),
        r is Ok && allow_any ==> r->Ok_0@ == CorsPolicyView::AllowAnyOrigin,
        !allow_any && origins.len() == 0 ==> r is Ok && r->Ok_0@ == CorsPolicyView::Disabled,
        r is Ok && origins.len() > 0 ==> r->Ok_0@ == CorsPolicyView::AllowOrigins(
            origins.deep_view(),
        ),
        r is Ok && 0 <= i < origins.len() ==> is_header_text(origins@[i]@),
        r is Err && !allow_any ==> exists|at: int|
            0 <= at < origins.len() && !is_header_text((#[trigger] origins@[at])@),
{
    if r is Ok && 0 <= i < origins.len() {
        assert(origins.deep_view()[i] == origins@[i]@);
    }
    if r is Err && !allow_any {
        let at = choose|at: int| #[trigger]
            is_first_bad_origin(origins.deep_view(), at) && r->Err_0@ == bad_origin(
                origins.deep_view()[at],
            );
        assert(origins.deep_view()[at] == origins@[at]@);
    }
}

/// A router serves with the options of its route, every one of them as it was configured.
pub proof fn law_routers_serve_as_configured(
    config: &RouteConfig,
    r: Result<AgentRouterOptions, Failure>,
    options: &AgentRouterOptions,
    http: Result<HttpServerOptions, Failure>,
)
    requires
        call_ensures(router_options, (config,), r),
        call_ensures(http_server_options, (options,), http),
    ensures
        r is Ok ==> {
            let o = r->Ok_0;
            &&& o.path@ == config.path@
            &&& o.health_endpoint == config.health_endpoint
            &&& o.readyz_endpoint == config.readyz_endpoint
            &&& o.max_processes == config.max_processes
            &&& o.max_processes > 0
            &&& o.cors@ == CorsPolicyView::AllowAnyOrigin <==> config.allow_any_origin
            &&& o.cors@ == CorsPolicyView::Disabled <==> !config.allow_any_origin
                && config.cors_origins.len() == 0
        },
        config.max_processes == 0 ==> r is Err,
        http is Ok ==> http->Ok_0.path@ == options.path@ && http->Ok_0.cors@ == options.cors@
            && http->Ok_0.health_endpoint == options.health_endpoint,
        options.max_processes == 0 ==> http is Err,
{
}

/// What is announced is the address with the path it is mounted at, and nothing between them where
/// it is not mounted; a failure to bind names the address, with its cause behind it.
pub proof fn law_addresses_are_announced_as_mounted(
    address: &str,
    mount: Option<&str>,
    route: &RouteConfig,
    r: Vec<String>,
    cause: Failure,
    host: &str,
    port: u16,
    failed: Failure,
)
    requires
        call_ensures(announce, (address, mount, route), r),
        call_ensures(report_bind_failure, (cause, host, port), failed),
    ensures
        mount is None ==> r.deep_view() == serving_lines(address@, Seq::empty(), route@),
        mount is Some ==> r.deep_view() == serving_lines(address@, mount->Some_0@, route@),
        failed@.causes.first() == cause@.message,
        (host@ + ":"@ + text::decimal(port as nat)).is_suffix_of(failed@.message),
{
    let tail = host@ + ":"@ + text::decimal(port as nat);
    let all = failed@.message;
    assert(all.skip(all.len() - tail.len()) =~= tail);
}

/// A copy of a configuration or a policy is no different from it.
pub proof fn law_copies_are_the_same(
    config: RouteConfig,
    copy: RouteConfig,
    policy: CorsPolicy,
    other: CorsPolicy,
)
    requires
        call_ensures(RouteConfig::duplicate, (&config,), copy),
        call_ensures(CorsPolicy::duplicate, (&policy,), other),
    ensures
        copy.path@ == config.path@,
        copy.max_processes == config.max_processes,
        copy.health_endpoint == config.health_endpoint,
        copy.readyz_endpoint == config.readyz_endpoint,
        copy.allow_any_origin == config.allow_any_origin,
        copy.cors_origins.deep_view() == config.cors_origins.deep_view(),
        other@ == policy@,
{
    assert(copy@.path == copy.path@);
    assert(config@.path == config.path@);
    assert(copy@.cors_origins == copy.cors_origins.deep_view());
}

} // verus!
