//! The URLs and the files of a named server.

use vstd::prelude::*;
use crate::failure;
use crate::failure::{Failure, FailureView};
use crate::paths;
use crate::paths::join_path;
use crate::text;
use crate::text::{debug_string, same, to_ascii_lower, to_decimal};

verus! {

/// Environment variable used to override the directory of the servers' files.
pub const SERVER_STATE_DIR_ENV: &'static str = "ACP_AGENT_SERVER_STATE_DIR";

/// Where the files of the servers are kept.
#[derive(Debug, Clone)]
pub struct ServerPaths {
    pub directory: String,
}

impl ServerPaths {
    /// The file that describes a running server.
    pub fn state_file(&self, name: &str) -> (r: String)
        ensures
            r@ == paths::join(self.directory@, name@ + ".json"@),
    {
        join_path(self.directory.as_str(), name.to_owned().concat(".json").as_str())
    }

    /// The file that a server logs to.
    pub fn log_file(&self, name: &str) -> (r: String)
        ensures
            r@ == paths::join(self.directory@, name@ + ".log"@),
    {
        join_path(self.directory.as_str(), name.to_owned().concat(".log").as_str())
    }
}

/// Where the files of the servers are kept: in the directory that is named, or beneath the cache.
pub fn state_directory(named: Option<&str>, cache_dir: Option<&str>) -> (r: Result<String, Failure>)
    ensures
        match (named, cache_dir) {
            (Some(directory), _) => r is Ok && r->Ok_0@ == directory@,
            (None, Some(base)) => r is Ok && r->Ok_0@ == paths::join(
                paths::join(base@, "acp-agent"@),
                "servers"@,
            ),
            (None, None) => r is Err && r->Err_0@ == failure::failure(
                "failed to locate the platform cache directory"@,
            ),
        },
{
    match named {
        Some(directory) => Ok(directory.to_owned()),
        None => match cache_dir {
            Some(base) => Ok(join_path(join_path(base, "acp-agent").as_str(), "servers")),
            None => Err(
                Failure::new("failed to locate the platform cache directory".to_owned()),
            ),
        },
    }
}

/// A host without the brackets that an IPv6 address may stand in.
pub open spec fn without_brackets(host: Seq<char>) -> Seq<char> {
    if host.len() >= 2 && host[0] == '[' && host.last() == ']' {
        host.subrange(1, host.len() - 1)
    } else {
        host
    }
}

/// Takes the brackets off a host.
pub fn bare_host(host: &str) -> (r: String)
    ensures
        r@ == without_brackets(host@),
{
    let n: usize = host.unicode_len();
    if n >= 2 && host.get_char(0) == '[' && host.get_char(n - 1) == ']' {
        host.substring_char(1, n - 1).to_owned()
    } else {
        host.to_owned()
    }
}

/// Why no URL could be made.
#[derive(Debug)]
pub enum UrlFault {
    /// The URL to begin with is none, in these words.
    Base(String),
    /// The host cannot stand in a URL.
    Host,
    /// The port cannot stand in a URL.
    Port,
}

/// An [`UrlFault`] over sequences.
pub enum UrlFaultView {
    Base(Seq<char>),
    Host,
    Port,
}

/// What the making of a URL brought, over sequences.
pub open spec fn url_view(r: Result<String, UrlFault>) -> Result<Seq<char>, UrlFaultView> {
    match r {
        Ok(url) => Ok(url@),
        Err(UrlFault::Base(words)) => Err(UrlFaultView::Base(words@)),
        Err(UrlFault::Host) => Err(UrlFaultView::Host),
        Err(UrlFault::Port) => Err(UrlFaultView::Port),
    }
}

/// What the making of a URL brought that is made for some hosts only, over sequences.
pub open spec fn optional_url_view(r: Option<Result<String, UrlFault>>) -> Option<
    Result<Seq<char>, UrlFaultView>,
> {
    match r {
        Some(made) => Some(url_view(made)),
        None => None,
    }
}

/// The URL that `base` becomes with the IP address `host` for its host; none where `host` is no IP
/// address.
pub uninterp spec fn url_with_address(base: Seq<char>, host: Seq<char>) -> Option<
    Result<Seq<char>, UrlFaultView>,
>;

/// Calls `Url::set_ip_host` of the url crate on the parsed `base`, with `host` parsed as an IP
/// address by std. What comes of it is left open, also for which hosts there is an address; it is
/// taken to depend on the arguments alone.
#[verifier::external_body]
fn with_address(base: &str, host: &str) -> (r: Option<Result<String, UrlFault>>)
    ensures
        optional_url_view(r) == url_with_address(base@, host@),
{
    let address = host.parse().ok()?;
    let mut url = match reqwest::Url::parse(base) {
        Ok(url) => url,
        Err(error) => return Some(Err(UrlFault::Base(error.to_string()))),
    };
    Some(url.set_ip_host(address).map(|_| url.as_str().to_owned()).map_err(|_| UrlFault::Host))
}

/// The URL that `base` becomes with `host` for the name of its host.
pub uninterp spec fn url_with_host(base: Seq<char>, host: Seq<char>) -> Result<
    Seq<char>,
    UrlFaultView,
>;

/// Calls `Url::set_host` of the url crate on the parsed `base`. What comes of it is left open; it
/// is taken to depend on the arguments alone.
#[verifier::external_body]
fn with_host(base: &str, host: &str) -> (r: Result<String, UrlFault>)
    ensures
        url_view(r) == url_with_host(base@, host@),
{
    let mut url = reqwest::Url::parse(base).map_err(|error| UrlFault::Base(error.to_string()))?;
    url.set_host(Some(host)).map_err(|_| UrlFault::Host)?;
    Ok(url.as_str().to_owned())
}

/// The URL that `base` becomes with another port.
pub uninterp spec fn url_with_port(base: Seq<char>, port: u16) -> Result<Seq<char>, UrlFaultView>;

/// Calls `Url::set_port` of the url crate on the parsed `base`. What comes of it is left open; it
/// is taken to depend on the arguments alone.
#[verifier::external_body]
fn with_port(base: &str, port: u16) -> (r: Result<String, UrlFault>)
    ensures
        url_view(r) == url_with_port(base@, port),
{
    let mut url = reqwest::Url::parse(base).map_err(|error| UrlFault::Base(error.to_string()))?;
    url.set_port(Some(port)).map_err(|_| UrlFault::Port)?;
    Ok(url.as_str().to_owned())
}

/// The URL that `base` becomes with another host and port: the host is put in as an IP address
/// where it is one, as a name otherwise, and the port after it.
pub open spec fn made_url(base: Seq<char>, host: Seq<char>, port: u16) -> Result<
    Seq<char>,
    UrlFaultView,
> {
    let hosted = match url_with_address(base, host) {
        Some(made) => made,
        None => url_with_host(base, host),
    };
    match hosted {
        Ok(url) => url_with_port(url, port),
        Err(fault) => Err(fault),
    }
}

fn make_url(base: &str, host: &str, port: u16) -> (r: Result<String, UrlFault>)
    ensures
        url_view(r) == made_url(base@, host@, port),
{
    let hosted = match with_address(base, host) {
        Some(made) => made,
        None => with_host(base, host),
    };
    match hosted {
        Ok(url) => with_port(url.as_str(), port),
        Err(fault) => Err(fault),
    }
}

/// A text without the slashes at its end.
pub open spec fn without_slashes(s: Seq<char>) -> Seq<char>
    decreases s.len(),
{
    if s.len() > 0 && s.last() == '/' {
        without_slashes(s.drop_last())
    } else {
        s
    }
}

fn trim_slashes(s: &str) -> (r: String)
    ensures
        r@ == without_slashes(s@),
{
    let mut n: usize = s.unicode_len();
    assert(s@.take(n as int) =~= s@);
    while n > 0 && s.get_char(n - 1) == '/'
        invariant
            n <= s@.len(),
            without_slashes(s@.take(n as int)) == without_slashes(s@),
        decreases n,
    {
        assert(s@.take(n as int).drop_last() =~= s@.take(n - 1));
        n -= 1;
    }
    let r = s.substring_char(0, n).to_owned();
    assert(r@ =~= s@.take(n as int));
    r
}

/// The answer for a host without brackets whose URL was made, or was not.
pub open spec fn url_answer(
    made: Result<Seq<char>, UrlFaultView>,
    host: Seq<char>,
    port: u16,
) -> Result<Seq<char>, FailureView> {
    match made {
        Ok(url) => Ok(without_slashes(url)),
        Err(UrlFaultView::Base(words)) => Err(failure::failure(words)),
        Err(UrlFaultView::Host) => Err(
            failure::failure("invalid server host "@ + text::debug_text(host)),
        ),
        Err(UrlFaultView::Port) => Err(
            failure::failure("invalid server port "@ + text::decimal(port as nat)),
        ),
    }
}

/// An answer over sequences.
pub open spec fn answer_view(r: Result<String, Failure>) -> Result<Seq<char>, FailureView> {
    match r {
        Ok(url) => Ok(url@),
        Err(e) => Err(e@),
    }
}

/// Reports how the making of a server's URL went.
pub fn report_url(made: Result<String, UrlFault>, host: &str, port: u16) -> (r: Result<
    String,
    Failure,
>)
    ensures
        answer_view(r) == url_answer(url_view(made), host@, port),
{
    match made {
        Ok(url) => Ok(trim_slashes(url.as_str())),
        Err(UrlFault::Base(words)) => Err(Failure::new(words)),
        Err(UrlFault::Host) => Err(
            Failure::new("invalid server host ".to_owned().concat(debug_string(host).as_str())),
        ),
        Err(UrlFault::Port) => Err(
            Failure::new(
                "invalid server port ".to_owned().concat(to_decimal(port as u128).as_str()),
            ),
        ),
    }
}

/// The URL of a server, or why there is none.
pub open spec fn server_url(host: Seq<char>, port: u16) -> Result<Seq<char>, FailureView> {
    url_answer(
        made_url("http://localhost"@, without_brackets(host), port),
        without_brackets(host),
        port,
    )
}

/// Makes the URL of a server.
pub fn http_url(host: &str, port: u16) -> (r: Result<String, Failure>)
    ensures
        answer_view(r) == server_url(host@, port),
{
    let bare = bare_host(host);
    report_url(make_url("http://localhost", bare.as_str(), port), bare.as_str(), port)
}

/// Makes the URL under which others reach a server.
pub fn public_url(host: &str, port: u16) -> (r: Result<String, Failure>)
    ensures
        answer_view(r) == server_url(host@, port),
{
    http_url(host, port)
}

/// The host by which this machine reaches a server: one that listens everywhere is reached at home.
pub open spec fn control_host(listen_host: Seq<char>) -> Seq<char> {
    if listen_host == "0.0.0.0"@ {
        "127.0.0.1"@
    } else if listen_host == "::"@ || listen_host == "[::]"@ {
        "::1"@
    } else {
        listen_host
    }
}

/// Makes the URL under which this machine reaches a server.
pub fn control_url(listen_host: &str, port: u16) -> (r: Result<String, Failure>)
    ensures
        answer_view(r) == server_url(control_host(listen_host@), port),
{
    if same(listen_host, "0.0.0.0") {
        http_url("127.0.0.1", port)
    } else if same(listen_host, "::") || same(listen_host, "[::]") {
        http_url("::1", port)
    } else {
        http_url(listen_host, port)
    }
}

/// Whether a host is this machine itself: `is_loopback` tells it of the IP address that the host
/// is without its brackets.
pub fn is_loopback_host(host: &str, is_loopback: bool) -> (r: bool)
    ensures
        r == (text::ascii_lower(without_brackets(host@)) == "localhost"@ || is_loopback),
{
    let bare = bare_host(host);
    same(to_ascii_lower(bare.as_str()).as_str(), "localhost") || is_loopback
}

/// Whether the file of a server that failed to start must go: `owner` is the process that it names,
/// if it can be read.
pub fn must_remove_state(owner: Option<u32>, child: u32) -> (r: bool)
    ensures
        r == match owner {
            Some(pid) => pid == child,
            None => true,
        },
{
    match owner {
        Some(pid) => pid == child,
        None => true,
    }
}

/// The refusal to start a server whose file is there already.
pub fn already_running(name: &str) -> (r: Failure)
    ensures
        r@ == failure::failure("server \""@ + name@ + "\" is already starting or running"@),
{
    Failure::new(
        "server \"".to_owned().concat(name).concat("\" is already starting or running"),
    )
}

/// Brackets round a host are taken off, both at once; a host without them stays as it is.
pub proof fn law_brackets_are_taken_off(host: Seq<char>)
    ensures
        without_brackets(seq!['['] + host + seq![']']) == host,
        host.len() == 0 || host[0] != '[' || host.last() != ']' ==> without_brackets(host) == host,
{
    let bracketed = seq!['['] + host + seq![']'];
    assert(bracketed.subrange(1, bracketed.len() - 1) =~= host);
}

/// A host means the same with brackets as without.
pub proof fn law_urls_do_not_depend_on_brackets(host: Seq<char>, port: u16)
    requires
        host.len() == 0 || host[0] != '[',
    ensures
        server_url(seq!['['] + host + seq![']'], port) == server_url(host, port),
{
    law_brackets_are_taken_off(host);
}

/// Slashes are taken off the end, all of them, and nothing else is.
pub proof fn law_trailing_slashes_are_taken_off(s: Seq<char>)
    ensures
        without_slashes(s).is_prefix_of(s),
        without_slashes(s).len() > 0 ==> without_slashes(s).last() != '/',
        forall|i: int| without_slashes(s).len() <= i < s.len() ==> #[trigger] s[i] == '/',
    decreases s.len(),
{
    if s.len() > 0 && s.last() == '/' {
        let short = s.drop_last();
        law_trailing_slashes_are_taken_off(short);
        let n = without_slashes(short).len() as int;
        assert(short.take(n) =~= s.take(n));
        assert forall|i: int| n <= i < s.len() implies #[trigger] s[i] == '/' by {
            if i < short.len() {
                assert(short[i] == '/');
            }
        }
    } else {
        assert(s.take(s.len() as int) =~= s);
    }
}

/// A URL is made of the host as an IP address where it is one, and of its name otherwise; a fault
/// on the way is the fault of the whole.
pub proof fn law_urls_are_made_step_by_step(base: Seq<char>, host: Seq<char>, port: u16)
    ensures
        url_with_address(base, host) matches Some(Ok(url)) ==> made_url(base, host, port)
            == url_with_port(url, port),
        url_with_address(base, host) matches Some(Err(fault)) ==> made_url(base, host, port)
            == Err::<Seq<char>, UrlFaultView>(fault),
        url_with_address(base, host) is None && url_with_host(base, host) is Ok ==> made_url(
            base,
            host,
            port,
        ) == url_with_port(url_with_host(base, host)->Ok_0, port),
        url_with_address(base, host) is None && url_with_host(base, host) is Err ==> made_url(
            base,
            host,
            port,
        ) is Err,
{
}

/// A server that listens everywhere is reached at this machine; any other at its own host.
pub proof fn law_control_hosts_are_near(host: Seq<char>)
    ensures
        control_host("0.0.0.0"@) == "127.0.0.1"@,
        control_host("::"@) == "::1"@,
        control_host("[::]"@) == "::1"@,
        host != "0.0.0.0"@ && host != "::"@ && host != "[::]"@ ==> control_host(host) == host,
{
    reveal_strlit("0.0.0.0");
    reveal_strlit("::");
    reveal_strlit("[::]");
    assert("0.0.0.0"@.len() == 7 && "::"@.len() == 2 && "[::]"@.len() == 4);
}

/// A URL that was made is given, and one that was not is a failure that names what was wrong.
pub proof fn law_made_urls_are_given(
    made: Result<Seq<char>, UrlFaultView>,
    host: Seq<char>,
    port: u16,
)
    ensures
        url_answer(made, host, port) is Ok <==> made is Ok,
        made is Ok ==> url_answer(made, host, port)->Ok_0.is_prefix_of(made->Ok_0),
        made == Err::<Seq<char>, UrlFaultView>(UrlFaultView::Host) ==> text::debug_text(
            host,
        ).is_suffix_of(url_answer(made, host, port)->Err_0.message),
        made == Err::<Seq<char>, UrlFaultView>(UrlFaultView::Port) ==> text::decimal(
            port as nat,
        ).is_suffix_of(url_answer(made, host, port)->Err_0.message),
{
    if made is Ok {
        law_trailing_slashes_are_taken_off(made->Ok_0);
    }
    let h = "invalid server host "@ + text::debug_text(host);
    assert(h.skip(h.len() - text::debug_text(host).len()) =~= text::debug_text(host));
    let p = "invalid server port "@ + text::decimal(port as nat);
    assert(p.skip(p.len() - text::decimal(port as nat).len()) =~= text::decimal(port as nat));
}

/// State lies where it was named, else in the program's directory of the platform's cache; what a
/// process has left is removed by itself, or by anyone if it is nobody's.
pub proof fn law_states_lie_where_named(
    named: Option<&str>,
    cache_dir: Option<&str>,
    r: Result<String, Failure>,
    owner: Option<u32>,
    child: u32,
    remove: bool,
)
    requires
        call_ensures(state_directory, (named, cache_dir), r),
        call_ensures(must_remove_state, (owner, child), remove),
    ensures
        r is Ok <==> named is Some || cache_dir is Some,
        named is Some ==> r->Ok_0@ == named->Some_0@,
        named is None && cache_dir is Some ==> cache_dir->Some_0@.is_prefix_of(r->Ok_0@)
            && "servers"@.is_suffix_of(r->Ok_0@),
        remove <==> owner is None || owner->Some_0 == child,
{
    if named is None && cache_dir is Some {
        reveal_strlit("acp-agent");
        reveal_strlit("servers");
        let base = cache_dir->Some_0@;
        let mid = paths::join(base, "acp-agent"@);
        paths::law_join_puts_components_behind(base, "acp-agent"@);
        paths::law_join_puts_components_behind(mid, "servers"@);
        let all = r->Ok_0@;
        assert(all.take(base.len() as int) =~= base) by {
            assert(mid.take(base.len() as int) =~= base);
            assert(all.take(mid.len() as int) =~= mid);
            assert forall|i: int| 0 <= i < base.len() implies all[i] == base[i] by {
                assert(all.take(mid.len() as int)[i] == mid[i]);
                assert(mid.take(base.len() as int)[i] == base[i]);
            }
        }
    }
}

/// A server's state and its log lie beside each other under its name, in files of their own; a host
/// is near if it is called so, in whatever case, or if its address is.
pub proof fn law_states_and_logs_lie_beside_each_other(
    places: ServerPaths,
    name: &str,
    state: String,
    log: String,
    host: &str,
    near: bool,
    r: bool,
)
    requires
        call_ensures(ServerPaths::state_file, (&places, name), state),
        call_ensures(ServerPaths::log_file, (&places, name), log),
        call_ensures(is_loopback_host, (host, near), r),
    ensures
        state@ == paths::join(places.directory@, name@ + ".json"@),
        log@ == paths::join(places.directory@, name@ + ".log"@),
        state@ != log@,
        near ==> r,
        text::same_letters(without_brackets(host@), "localhost"@) ==> r,
        r ==> near || text::same_letters(without_brackets(host@), "localhost"@),
{
    reveal_strlit(".json");
    reveal_strlit(".log");
    reveal_strlit("localhost");
    text::law_lower_case_forgets_case_only(without_brackets(host@), "localhost"@);
    text::law_lower_case_changes_capitals_only("localhost"@);
    assert(text::ascii_lower("localhost"@) =~= "localhost"@);
    assert(state@.last() == 'n' && log@.last() == 'g');
}

} // verus!
