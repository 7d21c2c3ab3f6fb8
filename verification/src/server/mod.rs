//! Named servers to which agents are registered while they run.

use vstd::prelude::*;
use crate::failure;
use crate::failure::{Failure, FailureView};
use crate::serve::RouteConfig;
use crate::text;
use crate::text::{chars_of, has_char, has_prefix, has_suffix, same, split_at_char, trimmed};

pub mod client;
pub mod control;
pub mod protocol;
pub mod routes;
pub mod state;
pub mod supervisor;

verus! {

/// The name of a server for which none is given.
pub const DEFAULT_NAME: &'static str = "default";

/// Whether `c` may stand in the name of a server.
pub open spec fn is_name_char(c: char) -> bool {
    ||| 'a' <= c <= 'z'
    ||| 'A' <= c <= 'Z'
    ||| '0' <= c <= '9'
    ||| c == '-'
    ||| c == '_'
    ||| c == '.'
}

/// Whether `name` may be the name of a server.
pub open spec fn is_server_name(name: Seq<char>) -> bool {
    &&& name.len() > 0
    &&& forall|i: int| 0 <= i < name.len() ==> is_name_char(#[trigger] name[i])
}

/// The refusal of a server name.
pub open spec fn bad_name() -> Seq<char> {
    "server name must contain only letters, digits, '.', '-' or '_'"@
}

/// Checks the name of a server.
pub fn validate_name(name: &str) -> (r: Result<(), Failure>)
    ensures
        match r {
            Ok(_) => is_server_name(name@),
            Err(e) => !is_server_name(name@) && e@ == failure::failure(bad_name()),
        },
{
    let chars = chars_of(name);
    let mut good = chars.len() > 0;
    let mut i: usize = 0;
    while i < chars.len()
        invariant
            i <= chars.len(),
            chars@ == name@,
            good == (name@.len() > 0 && forall|k: int|
                0 <= k < i ==> is_name_char(#[trigger] name@[k])),
        decreases chars.len() - i,
    {
        let c = chars[i];
        if !(('a' <= c && c <= 'z') || ('A' <= c && c <= 'Z') || ('0' <= c && c <= '9') || c == '-'
            || c == '_' || c == '.') {
            good = false;
            assert(!is_name_char(name@[i as int]));
        }
        i += 1;
    }
    if good {
        Ok(())
    } else {
        Err(
            Failure::new(
                "server name must contain only letters, digits, '.', '-' or '_'".to_owned(),
            ),
        )
    }
}

/// Whether `id` may name an agent: it is not blank.
pub open spec fn is_agent_id(id: Seq<char>) -> bool {
    text::trim(id).len() > 0
}

/// Tells whether `id` may name an agent.
pub fn validate_agent_id(id: &str) -> (r: bool)
    ensures
        r == is_agent_id(id@),
{
    !trimmed(id).as_str().is_empty()
}

/// The path and the query of the URI that a text holds, or what is wrong with the text.
pub uninterp spec fn uri_parts(text: Seq<char>) -> Result<
    (Seq<char>, Option<Seq<char>>),
    Seq<char>,
>;

/// What a parse brought, over sequences.
pub open spec fn uri_view(parsed: Result<(String, Option<String>), String>) -> Result<
    (Seq<char>, Option<Seq<char>>),
    Seq<char>,
> {
    match parsed {
        Ok((path, query)) => Ok((path@, text::opt_text(query))),
        Err(words) => Err(words@),
    }
}

/// Parses a text as `Uri` of the http crate, and reads its path and its query. What they are is
/// left open; they are taken to depend on the text alone.
#[verifier::external_body]
fn parse_uri(text: &str) -> (r: Result<(String, Option<String>), String>)
    ensures
        uri_view(r) == uri_parts(text@),
{
    match text.parse::<axum::http::Uri>() {
        Ok(uri) => Ok((uri.path().to_owned(), uri.query().map(str::to_owned))),
        Err(error) => Err(error.to_string()),
    }
}

/// What is wrong with the shape of a route.
pub open spec fn route_shape_fault(route: Seq<char>) -> Option<Seq<char>> {
    if !"/"@.is_prefix_of(route) || route == "/"@ || "/"@.is_suffix_of(route) {
        Some("agent route must start with '/', cannot be '/', and must not end with '/'"@)
    } else if route.contains('?') || route.contains('#') || text::split(route, '/').contains(
        ".."@,
    ) {
        Some("agent route contains an invalid path segment"@)
    } else {
        None
    }
}

/// What is wrong with a route of good shape whose parse as a URI brought `parsed`.
pub open spec fn route_uri_fault(
    route: Seq<char>,
    parsed: Result<(Seq<char>, Option<Seq<char>>), Seq<char>>,
) -> Option<FailureView> {
    match parsed {
        Err(words) => Some(
            failure::failure(words).within("agent route is not a valid URI path"@),
        ),
        Ok((path, query)) => if path != route || query is Some {
            Some(failure::failure("agent route is not a valid URI path"@))
        } else {
            None
        },
    }
}

/// Whether `r` reports `fault`, or success if there is none.
pub open spec fn reports(r: Result<(), Failure>, fault: Option<FailureView>) -> bool {
    match fault {
        Some(words) => r is Err && r->Err_0@ == words,
        None => r is Ok,
    }
}

/// Judges a route of good shape by what its parse as a URI brought.
pub fn judge_route(route: &str, parsed: Result<(String, Option<String>), String>) -> (r: Result<
    (),
    Failure,
>)
    ensures
        reports(r, route_uri_fault(route@, uri_view(parsed))),
{
    match parsed {
        Err(words) => Err(
            Failure::new(words).within("agent route is not a valid URI path".to_owned()),
        ),
        Ok((path, query)) => {
            if !same(path.as_str(), route) || query.is_some() {
                return Err(Failure::new("agent route is not a valid URI path".to_owned()));
            }
            Ok(())
        },
    }
}

/// What is wrong with a route.
pub open spec fn route_fault(route: Seq<char>) -> Option<FailureView> {
    match route_shape_fault(route) {
        Some(words) => Some(failure::failure(words)),
        None => route_uri_fault(route, uri_parts(route)),
    }
}

fn has_parent_segment(route: &str) -> (r: bool)
    ensures
        r == text::split(route@, '/').contains(".."@),
{
    let parts = split_at_char(route, '/');
    let ghost all = text::split(route@, '/');
    let mut i: usize = 0;
    while i < parts.len()
        invariant
            i <= parts.len(),
            parts.deep_view() == all,
            all == text::split(route@, '/'),
            forall|k: int| 0 <= k < i ==> all[k] != ".."@,
        decreases parts.len() - i,
    {
        assert(all[i as int] == parts@[i as int]@);
        if same(parts[i].as_str(), "..") {
            assert(all.contains(".."@));
            return true;
        }
        i += 1;
    }
    false
}

/// Checks the public route under which an agent is registered.
pub fn validate_route(route: &str) -> (r: Result<(), Failure>)
    ensures
        reports(r, route_fault(route@)),
{
    if !has_prefix(route, "/") || same(route, "/") || has_suffix(route, "/") {
        return Err(
            Failure::new(
                "agent route must start with '/', cannot be '/', and must not end with '/'".to_owned(),
            ),
        );
    }
    if has_char(route, '?') || has_char(route, '#') || has_parent_segment(route) {
        return Err(Failure::new("agent route contains an invalid path segment".to_owned()));
    }
    judge_route(route, parse_uri(route))
}

/// Options accepted by `server start`.
#[derive(Debug, Clone)]
pub struct StartOptions {
    /// Stable local name used by subsequent server commands.
    pub name: String,
    /// Address on which the named server listens.
    pub host: String,
    /// Port on which the named server listens.
    pub port: u16,
}

impl Default for StartOptions {
    fn default() -> (r: Self)
        ensures
            r.name@ == DEFAULT_NAME@,
            r.host@ == "127.0.0.1"@,
            r.port == 8010,
    {
        StartOptions {
            name: DEFAULT_NAME.to_owned(),
            host: "127.0.0.1".to_owned(),
            port: 8010,
        }
    }
}

/// Options accepted by `server register`.
#[derive(Debug, Clone)]
pub struct RegisterOptions {
    /// Target named server.
    pub name: String,
    /// Public route prefix; defaults to `/<agent-id>`.
    pub route: Option<String>,
    /// Shared ACP route configuration.
    pub config: RouteConfig,
    /// Whether to inject the agent's yolo argument.
    pub yolo: bool,
    /// Arguments forwarded to the agent process on connection.
    pub args: Vec<String>,
}

/// Record of one live named server.
#[derive(Debug, Clone)]
pub struct ServerRecord {
    /// Stable server name.
    pub name: String,
    /// Current live instance state.
    pub state: String,
    /// Configured listener host.
    pub host: String,
    /// Bound listener port.
    pub port: u16,
    /// Public HTTP address.
    pub address: String,
}

/// A [`ServerRecord`] over sequences.
#[verifier::ext_equal]
pub struct ServerRecordView {
    pub name: Seq<char>,
    pub state: Seq<char>,
    pub host: Seq<char>,
    pub port: u16,
    pub address: Seq<char>,
}

impl View for ServerRecord {
    type V = ServerRecordView;

    open spec fn view(&self) -> ServerRecordView {
        ServerRecordView {
            name: self.name@,
            state: self.state@,
            host: self.host@,
            port: self.port,
            address: self.address@,
        }
    }
}

/// Record of one agent registration.
#[derive(Debug, Clone)]
pub struct RegistrationRecord {
    /// Registry agent identifier.
    pub id: String,
    /// Public route prefix.
    pub route: String,
    /// Readiness state reported by the daemon's route runtime.
    pub readiness: String,
    /// Optional readiness failure detail.
    pub detail: Option<String>,
}

/// A [`RegistrationRecord`] over sequences.
#[verifier::ext_equal]
pub struct RegistrationRecordView {
    pub id: Seq<char>,
    pub route: Seq<char>,
    pub readiness: Seq<char>,
    pub detail: Option<Seq<char>>,
}

impl View for RegistrationRecord {
    type V = RegistrationRecordView;

    open spec fn view(&self) -> RegistrationRecordView {
        RegistrationRecordView {
            id: self.id@,
            route: self.route@,
            readiness: self.readiness@,
            detail: text::opt_text(self.detail),
        }
    }
}

/// Result of starting a named server.
#[derive(Debug, Clone)]
pub struct StartResult {
    /// Stable server name.
    pub name: String,
    /// Public HTTP address.
    pub address: String,
}

/// Result of stopping a named server.
#[derive(Debug, Clone)]
pub struct StopResult {
    /// Stable server name.
    pub name: String,
}

/// Result of registering an agent route.
#[derive(Debug, Clone)]
pub struct RegisterResult {
    /// Registry agent identifier.
    pub agent_id: String,
    /// Registered public route prefix.
    pub route: String,
    /// Named server public address.
    pub address: String,
}

/// Result of unregistering an agent route.
#[derive(Debug, Clone)]
pub struct UnregisterResult {
    /// Registry agent identifier.
    pub agent_id: String,
    /// Stable server name.
    pub server_name: String,
}

/// A server may be called by anything made of the letters and digits of ASCII, dots, dashes and
/// underscores, and by nothing else.
pub proof fn law_server_names_are_plain(name: Seq<char>)
    ensures
        is_server_name(name) <==> name.len() > 0 && forall|i: int|
            #![trigger name[i]]
            0 <= i < name.len() ==> {
                let c = name[i] as int;
                48 <= c <= 57 || 65 <= c <= 90 || 97 <= c <= 122 || c == 45 || c == 46 || c == 95
            },
        name.contains('/') ==> !is_server_name(name),
        name.contains(' ') ==> !is_server_name(name),
{
    if is_server_name(name) {
        assert forall|i: int| 0 <= i < name.len() implies {
            let c = (#[trigger] name[i]) as int;
            48 <= c <= 57 || 65 <= c <= 90 || 97 <= c <= 122 || c == 45 || c == 46 || c == 95
        } by {
            assert(is_name_char(name[i]));
        }
    }
}

/// An agent id is anything that is not blank.
pub proof fn law_agent_ids_are_not_blank(id: Seq<char>)
    ensures
        is_agent_id(id) <==> exists|i: int| 0 <= i < id.len() && !text::is_space(#[trigger] id[i]),
{
    text::law_trim_takes_outer_space_only(id);
    let (from, to) = choose|from: int, to: int|
        #![trigger id.subrange(from, to)]
        0 <= from <= to <= id.len() && text::trim(id) == id.subrange(from, to) && (forall|i: int|
            0 <= i < from || to <= i < id.len() ==> text::is_space(#[trigger] id[i])) && (from < to
            ==> !text::is_space(id[from]) && !text::is_space(id[to - 1]));
    if from < to {
        assert(!text::is_space(id[from]));
    } else {
        assert forall|i: int| 0 <= i < id.len() implies text::is_space(#[trigger] id[i]) by {}
    }
}

/// A route begins with a slash, holds more than it, and does not end with one.
pub proof fn law_routes_have_their_shape(route: Seq<char>)
    ensures
        route_shape_fault(route) is None ==> route.len() >= 2 && route[0] == '/' && route.last()
            != '/' && !route.contains('?') && !route.contains('#'),
        route.len() >= 2 && route[0] == '/' && route.last() != '/' && !route.contains('?')
            && !route.contains('#') && (forall|i: int|
            0 <= i < route.len() - 1 ==> !((#[trigger] route[i]) == '.' && route[i + 1] == '.'))
            ==> route_shape_fault(route) is None,
{
    reveal_strlit("/");
    let slash = "/"@;
    assert(slash =~= seq!['/']);
    if route.len() > 0 {
        assert(route.take(1) =~= seq![route[0]]);
        assert(route.skip(route.len() - 1) =~= seq![route.last()]);
        assert(slash.is_prefix_of(route) <==> route[0] == '/') by {
            assert(slash.is_prefix_of(route) <==> route.subrange(0, 1) == slash);
            assert(route.subrange(0, 1)[0] == route[0]);
            assert(slash[0] == '/');
            if route[0] == '/' {
                assert(route.subrange(0, 1) =~= slash);
            }
        }
        assert(slash.is_suffix_of(route) <==> route.last() == '/') by {
            assert(route.subrange(route.len() - 1, route.len() as int)[0] == route.last());
            if route.last() == '/' {
                assert(route.subrange(route.len() - 1, route.len() as int) =~= slash);
            }
        }
    }
    if route.len() >= 2 && (forall|i: int|
        0 <= i < route.len() - 1 ==> !((#[trigger] route[i]) == '.' && route[i + 1] == '.')) {
        lemma_no_dots_no_climb(route);
    }
}

proof fn lemma_no_dots_no_climb(s: Seq<char>)
    requires
        forall|i: int| 0 <= i < s.len() - 1 ==> !((#[trigger] s[i]) == '.' && s[i + 1] == '.'),
    ensures
        !text::split(s, '/').contains(".."@),
        ({
            let last = text::split(s, '/').last();
            last.len() <= s.len() && last == s.skip(s.len() - last.len())
        }),
    decreases s.len(),
{
    reveal_strlit("..");
    let all = text::split(s, '/');
    text::lemma_split_not_empty(s, '/');
    if s.len() == 0 {
        assert(all.last() =~= s.skip(0));
        assert(all[0].len() == 0);
    } else {
        let short = s.drop_last();
        let front = text::split(short, '/');
        text::lemma_split_not_empty(short, '/');
        assert forall|i: int| 0 <= i < short.len() - 1 implies !((#[trigger] short[i]) == '.'
            && short[i + 1] == '.') by {
            assert(short[i] == s[i] && short[i + 1] == s[i + 1]);
        }
        lemma_no_dots_no_climb(short);
        if s.last() == '/' {
            assert(all.last() =~= s.skip(s.len() as int));
        } else {
            let tail = front.last();
            assert(tail.push(s.last()) =~= s.skip(s.len() - tail.len() - 1));
            if tail.push(s.last()) == ".."@ {
                assert(s[s.len() - 2] == tail[0]);
                assert(".."@[0] == '.' && ".."@[1] == '.');
                assert(tail.push(s.last())[0] == tail[0]);
                assert(s.last() == '.');
            }
        }
        if all.contains(".."@) {
            let i = choose|i: int| 0 <= i < all.len() && all[i] == ".."@;
            if i < all.len() - 1 {
                assert(all[i] == front[i]);
                assert(front.contains(".."@));
            }
        }
    }
}

/// No route may climb: two dots between slashes are refused, wherever they stand.
pub proof fn law_climbing_routes_are_refused(a: Seq<char>, b: Seq<char>)
    ensures
        route_shape_fault(a.push('/') + ".."@) is Some,
        route_shape_fault(a.push('/') + ".."@.push('/') + b) is Some,
{
    reveal_strlit("..");
    let dots = ".."@;
    assert(!dots.contains('/'));
    text::law_split_cuts_at_separators(a, dots, '/');
    let first = a.push('/') + dots;
    let pieces = text::split(first, '/');
    assert(pieces.last() == dots);
    assert(pieces.contains(dots));
    let second = a.push('/') + dots.push('/') + b;
    assert(second =~= first.push('/') + b);
    text::lemma_split_join(first, b, '/');
    let i = choose|i: int| 0 <= i < pieces.len() && pieces[i] == dots;
    assert(text::split(second, '/')[i] == dots);
}

/// A route is accepted exactly if it is the path of a URI that is nothing but a path.
pub proof fn law_routes_are_plain_uri_paths(
    route: Seq<char>,
    parsed: Result<(Seq<char>, Option<Seq<char>>), Seq<char>>,
)
    ensures
        route_uri_fault(route, parsed) is None <==> parsed == Ok::<
            (Seq<char>, Option<Seq<char>>),
            Seq<char>,
        >((route, None)),
        route_fault(route) is None <==> route_shape_fault(route) is None && uri_parts(route)
            == Ok::<(Seq<char>, Option<Seq<char>>), Seq<char>>((route, None)),
{
}

/// Records with the same view agree on everything.
pub proof fn law_record_views_hold_every_field(
    a: ServerRecord,
    b: ServerRecord,
    p: RegistrationRecord,
    q: RegistrationRecord,
)
    ensures
        a@ == b@ ==> a.name@ == b.name@ && a.state@ == b.state@ && a.host@ == b.host@ && a.port
            == b.port && a.address@ == b.address@,
        p@ == q@ ==> p.id@ == q.id@ && p.route@ == q.route@ && p.readiness@ == q.readiness@ && (
        p.detail is Some <==> q.detail is Some) && (p.detail is Some ==> p.detail->Some_0@
            == q.detail->Some_0@),
{
}

} // verus!
