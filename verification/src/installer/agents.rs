//! Installing, updating and removing agents.

use vstd::prelude::*;
use crate::failure;
use crate::failure::{Failure, FailureView};
use crate::installer::binary::CachedBinary;
use crate::installer::cache::CachedAgent;
use crate::installer::environment;
use crate::installer::environment::ProcessOutput;
use crate::registry;
use crate::registry::{BinaryTarget, Platform, Registry, RegistryAgent};
use crate::runner;
use crate::runner::{resolve_distribution, PackageRunner, ResolvedDistribution};
use crate::text;
use crate::text::{chars_of, is_whitespace, lossy_string, same, trimmed};

verus! {

/// How many operations on agents run at the same time.
pub const OPERATION_CONCURRENCY: usize = 4;

/// The package manager that installs or removes an agent.
#[derive(Debug, Clone, Copy, PartialEq, Eq, Structural)]
pub enum InstallMethod {
    Npm,
    Deno,
    Uvx,
}

impl InstallMethod {
    /// The package manager's name.
    pub open spec fn name(self) -> Seq<char> {
        match self {
            InstallMethod::Npm => "npm"@,
            InstallMethod::Deno => "deno"@,
            InstallMethod::Uvx => "uv"@,
        }
    }

    /// Names the package manager.
    pub fn label(self) -> (r: &'static str)
        ensures
            r@ == self.name(),
    {
        match self {
            InstallMethod::Npm => "npm",
            InstallMethod::Deno => "deno",
            InstallMethod::Uvx => "uv",
        }
    }
}

/// The package manager that belongs to a runner.
pub open spec fn method_of(runner: PackageRunner) -> InstallMethod {
    match runner {
        PackageRunner::Npm => InstallMethod::Npm,
        PackageRunner::Deno => InstallMethod::Deno,
        PackageRunner::Uvx => InstallMethod::Uvx,
    }
}

/// Gives the package manager that belongs to a runner.
pub fn install_method(runner: PackageRunner) -> (r: InstallMethod)
    ensures
        r == method_of(runner),
{
    match runner {
        PackageRunner::Npm => InstallMethod::Npm,
        PackageRunner::Deno => InstallMethod::Deno,
        PackageRunner::Uvx => InstallMethod::Uvx,
    }
}

/// What came of installing or updating an agent.
#[derive(Debug, Clone, PartialEq, Eq)]
pub enum InstallOutcome {
    /// An archive was checked and is in the cache.
    Binary {
        agent_id: String,
        executable_path: String,
        cache_dir: String,
        /// Whether older entries of the agent were removed.
        stale_cache_entries_removed: bool,
    },
    /// A package manager has the agent ready.
    PackageManager { agent_id: String, method: InstallMethod, package: String },
}

/// What came of removing an agent.
#[derive(Debug, Clone, PartialEq, Eq)]
pub enum UninstallOutcome {
    /// Cached archives were removed.
    Cache {
        agent_id: String,
        /// Why package managers were not looked at.
        registry_error: Option<String>,
    },
    /// A package manager removed the agent.
    PackageManager { agent_id: String, method: InstallMethod, package: String },
    /// The runner manages its own cache of the agent's package; there is nothing to remove.
    RunnerManaged { agent_id: String, runner: PackageRunner },
}

/// An [`UninstallOutcome`] over sequences.
pub enum UninstallView {
    Cache { agent_id: Seq<char>, registry_error: Option<Seq<char>> },
    PackageManager { agent_id: Seq<char>, method: InstallMethod, package: Seq<char> },
    RunnerManaged { agent_id: Seq<char>, runner: PackageRunner },
}

impl View for UninstallOutcome {
    type V = UninstallView;

    open spec fn view(&self) -> UninstallView {
        match self {
            UninstallOutcome::Cache { agent_id, registry_error } => UninstallView::Cache {
                agent_id: agent_id@,
                registry_error: text::opt_text(*registry_error),
            },
            UninstallOutcome::PackageManager { agent_id, method, package } =>
                UninstallView::PackageManager {
                agent_id: agent_id@,
                method: *method,
                package: package@,
            },
            UninstallOutcome::RunnerManaged { agent_id, runner } => UninstallView::RunnerManaged {
                agent_id: agent_id@,
                runner: *runner,
            },
        }
    }
}

/// An agent whose archive is in the cache.
#[derive(Debug, Clone, PartialEq, Eq)]
pub struct InstalledAgent {
    pub agent_id: String,
    pub agent_version: String,
    /// Platform name of the entry.
    pub platform: String,
    /// Directory of the entry.
    pub cache_dir: String,
    /// Executable within the unpacked payload.
    pub executable_path: String,
}

/// Reports what the cache lists.
pub fn installed_agents(cached: &Vec<CachedAgent>) -> (r: Vec<InstalledAgent>)
    ensures
        r@.len() == cached@.len(),
        forall|i: int|
            0 <= i < r@.len() ==> {
                &&& (#[trigger] r@[i]).agent_id@ == cached@[i].agent_id@
                &&& r@[i].agent_version@ == cached@[i].agent_version@
                &&& r@[i].platform@ == cached@[i].platform@
                &&& r@[i].cache_dir@ == cached@[i].cache_dir@
                &&& r@[i].executable_path@ == cached@[i].executable_path@
            },
{
    let mut r: Vec<InstalledAgent> = Vec::new();
    let mut i: usize = 0;
    while i < cached.len()
        invariant
            i <= cached.len(),
            r@.len() == i,
            forall|k: int|
                0 <= k < i ==> {
                    &&& (#[trigger] r@[k]).agent_id@ == cached@[k].agent_id@
                    &&& r@[k].agent_version@ == cached@[k].agent_version@
                    &&& r@[k].platform@ == cached@[k].platform@
                    &&& r@[k].cache_dir@ == cached@[k].cache_dir@
                    &&& r@[k].executable_path@ == cached@[k].executable_path@
                },
        decreases cached.len() - i,
    {
        let agent = &cached[i];
        r.push(
            InstalledAgent {
                agent_id: agent.agent_id.clone(),
                agent_version: agent.agent_version.clone(),
                platform: agent.platform.clone(),
                cache_dir: agent.cache_dir.clone(),
                executable_path: agent.executable_path.clone(),
            },
        );
        i += 1;
    }
    r
}

/// A run of a package manager.
#[derive(Debug, Clone, PartialEq, Eq)]
pub struct PackageCommand {
    pub program: &'static str,
    pub args: Vec<String>,
    /// What the run is about, for messages.
    pub subject: String,
}

/// A [`PackageCommand`] over sequences.
#[verifier::ext_equal]
pub struct PackageCommandView {
    pub program: Seq<char>,
    pub args: Seq<Seq<char>>,
    pub subject: Seq<char>,
}

impl View for PackageCommand {
    type V = PackageCommandView;

    open spec fn view(&self) -> PackageCommandView {
        PackageCommandView {
            program: self.program@,
            args: self.args.deep_view(),
            subject: self.subject@,
        }
    }
}

/// The arguments with which Deno fills its npm cache, which `deno x` reads.
pub open spec fn deno_args(package: Seq<char>) -> Seq<Seq<char>> {
    seq!["cache"@, "--minimum-dependency-age"@, "0"@, "npm:"@ + package]
}

/// Gives the arguments with which Deno fills its npm cache.
pub fn deno_cache_args(package: &str) -> (r: Vec<String>)
    ensures
        r.deep_view() == deno_args(package@),
{
    let mut r: Vec<String> = Vec::new();
    r.push("cache".to_owned());
    r.push("--minimum-dependency-age".to_owned());
    r.push("0".to_owned());
    r.push("npm:".to_owned().concat(package));
    assert(r.deep_view() == deno_args(package@));
    r
}

fn three(a: &str, b: &str, c: &str) -> (r: Vec<String>)
    ensures
        r.deep_view() == seq![a@, b@, c@],
{
    let mut r: Vec<String> = Vec::new();
    r.push(a.to_owned());
    r.push(b.to_owned());
    r.push(c.to_owned());
    assert(r.deep_view() == seq![a@, b@, c@]);
    r
}

/// The run that prepares a package for its runner.
pub open spec fn preparation(runner: PackageRunner, package: Seq<char>) -> PackageCommandView {
    match runner {
        PackageRunner::Npm => PackageCommandView {
            program: "npm"@,
            args: seq!["install"@, "--global"@, package],
            subject: "npm package "@ + package,
        },
        PackageRunner::Deno => PackageCommandView {
            program: "deno"@,
            args: deno_args(package),
            subject: "npm package "@ + package + " via Deno"@,
        },
        PackageRunner::Uvx => PackageCommandView {
            program: "uv"@,
            args: seq!["tool"@, "install"@, package],
            subject: "uv package "@ + package,
        },
    }
}

/// Gives the run that prepares a package for its runner.
pub fn preparation_command(runner: PackageRunner, package: &str) -> (r: PackageCommand)
    ensures
        r@ == preparation(runner, package@),
{
    match runner {
        PackageRunner::Npm => PackageCommand {
            program: "npm",
            args: three("install", "--global", package),
            subject: "npm package ".to_owned().concat(package),
        },
        PackageRunner::Deno => PackageCommand {
            program: "deno",
            args: deno_cache_args(package),
            subject: "npm package ".to_owned().concat(package).concat(" via Deno"),
        },
        PackageRunner::Uvx => PackageCommand {
            program: "uv",
            args: three("tool", "install", package),
            subject: "uv package ".to_owned().concat(package),
        },
    }
}

/// How an agent is installed.
#[derive(Debug)]
pub enum InstallPlan<'a> {
    /// An archive goes to the cache.
    Binary { platform: Platform, target: &'a BinaryTarget },
    /// A package manager prepares a package.
    Package { runner: PackageRunner, package: &'a str, command: PackageCommand },
}

/// The failure of an agent that cannot be installed here.
pub open spec fn not_installable(agent_id: Seq<char>) -> FailureView {
    failure::failure("agent \""@ + agent_id + "\" does not have an installable distribution"@)
}

/// Whether `plan` is the way to install `agent` here.
pub open spec fn installs(
    agent: RegistryAgent,
    platform: Platform,
    npm: Result<bool, FailureView>,
    plan: Result<InstallPlan, Failure>,
) -> bool {
    match (runner::resolved(agent, platform, npm), plan) {
        (Err(e), Err(got)) => got@ == e,
        (Ok(None), Err(got)) => got@ == not_installable(agent.id@),
        (
            Ok(Some(ResolvedDistribution::Binary { platform: p, target: t })),
            Ok(InstallPlan::Binary { platform: q, target: u }),
        ) => p == q && *t == *u,
        (
            Ok(Some(ResolvedDistribution::Npm { distribution, runner: a })),
            Ok(InstallPlan::Package { runner: b, package, command }),
        ) => a == b && package@ == distribution.package@ && command@ == preparation(
            a,
            distribution.package@,
        ),
        (
            Ok(Some(ResolvedDistribution::Uvx { distribution })),
            Ok(InstallPlan::Package { runner: b, package, command }),
        ) => b == PackageRunner::Uvx && package@ == distribution.package@ && command@
            == preparation(PackageRunner::Uvx, distribution.package@),
        _ => false,
    }
}

/// Plans how `agent` is installed, by its distribution of the highest priority.
pub fn install_from_registry<'a>(
    agent: &'a RegistryAgent,
    platform: Platform,
    npm: Result<bool, Failure>,
) -> (r: Result<InstallPlan<'a>, Failure>)
    ensures
        installs(*agent, platform, runner::npm_view(npm), r),
{
    match resolve_distribution(agent, platform, npm) {
        Err(e) => Err(e),
        Ok(None) => Err(
            Failure::new(
                "agent \"".to_owned().concat(agent.id.as_str()).concat(
                    "\" does not have an installable distribution",
                ),
            ),
        ),
        Ok(Some(ResolvedDistribution::Binary { platform, target })) => Ok(
            InstallPlan::Binary { platform, target },
        ),
        Ok(Some(ResolvedDistribution::Npm { distribution, runner })) => {
            let package = distribution.package.as_str();
            Ok(InstallPlan::Package { runner, package, command: preparation_command(runner, package) })
        },
        Ok(Some(ResolvedDistribution::Uvx { distribution })) => {
            let package = distribution.package.as_str();
            let runner = PackageRunner::Uvx;
            Ok(InstallPlan::Package { runner, package, command: preparation_command(runner, package) })
        },
    }
}

/// Plans how the agent with the given id is updated: as it is installed, from what the registry
/// says now. A platform that is not supported is reported for an agent of the registry only.
pub fn update_from<'a>(
    agent_id: &str,
    registry: &'a Registry,
    platform: Result<Platform, Failure>,
    npm: Result<bool, Failure>,
) -> (r: Result<InstallPlan<'a>, Failure>)
    ensures
        if registry::has_no_id(registry.agents@, agent_id@) {
            r matches Err(e) && e@ == failure::failure(
                "agent \""@ + agent_id@ + "\" not found in registry"@,
            )
        } else {
            match platform {
                Err(e) => r matches Err(got) && got@ == e@,
                Ok(here) => exists|at: int|
                    #[trigger] registry::is_first_with_id(registry.agents@, agent_id@, at)
                        && installs(registry.agents@[at], here, runner::npm_view(npm), r),
            }
        },
{
    match registry.get_agent(agent_id) {
        Err(e) => Err(e),
        Ok(agent) => {
            let ghost at = choose|at: int|
                registry::is_first_with_id(registry.agents@, agent_id@, at) && *agent
                    == #[trigger] registry.agents@[at];
            assert(registry::is_first_with_id(registry.agents@, agent_id@, at));
            match platform {
                Err(e) => Err(e),
                Ok(here) => install_from_registry(agent, here, npm),
            }
        },
    }
}

/// Installing an agent prepares what running it uses: both go to the same package with the same
/// tool, or to the same archive.
pub proof fn law_install_and_run_agree(
    agent: RegistryAgent,
    platform: Platform,
    npm: Result<bool, FailureView>,
    plan: InstallPlan,
)
    requires
        installs(agent, platform, npm, Ok(plan)),
    ensures
        match (plan, runner::resolved(agent, platform, npm)) {
            (
                InstallPlan::Binary { target, .. },
                Ok(Some(ResolvedDistribution::Binary { target: run, .. })),
            ) => *target == *run,
            (
                InstallPlan::Package { runner: a, package, .. },
                Ok(Some(ResolvedDistribution::Npm { distribution, runner: b })),
            ) => a == b && package@ == distribution.package@,
            (
                InstallPlan::Package { runner: a, package, .. },
                Ok(Some(ResolvedDistribution::Uvx { distribution })),
            ) => a == PackageRunner::Uvx && package@ == distribution.package@,
            _ => false,
        },
{
}

/// Reports a cached archive as installed.
pub fn binary_outcome(agent_id: &str, cached: &CachedBinary) -> (r: InstallOutcome)
    ensures
        match r {
            InstallOutcome::Binary {
                agent_id: id,
                executable_path,
                cache_dir,
                stale_cache_entries_removed,
            } => id@ == agent_id@ && executable_path@ == cached.executable_path@ && cache_dir@
                == cached.cache_dir@ && !stale_cache_entries_removed,
            _ => false,
        },
{
    InstallOutcome::Binary {
        agent_id: agent_id.to_owned(),
        executable_path: cached.executable_path.clone(),
        cache_dir: cached.cache_dir.clone(),
        stale_cache_entries_removed: false,
    }
}

/// Reports a prepared package as installed.
pub fn package_outcome(agent_id: &str, runner: PackageRunner, package: &str) -> (r: InstallOutcome)
    ensures
        match r {
            InstallOutcome::PackageManager { agent_id: id, method, package: p } => id@ == agent_id@
                && method == method_of(runner) && p@ == package@,
            _ => false,
        },
{
    InstallOutcome::PackageManager {
        agent_id: agent_id.to_owned(),
        method: install_method(runner),
        package: package.to_owned(),
    }
}

/// Where the scope of a package name ends: behind its slash, if it begins with an at sign.
pub open spec fn scope_end(package: Seq<char>) -> int {
    if package.len() > 0 && package[0] == '@' && package.contains('/') {
        package.index_of_first('/')->Some_0 + 1
    } else {
        0
    }
}

/// Whether `at` is the place of the at sign in front of a package's version.
pub open spec fn is_version_mark(package: Seq<char>, at: int) -> bool {
    &&& scope_end(package) <= at < package.len()
    &&& package[at] == '@'
    &&& forall|k: int| at < k < package.len() ==> package[k] != '@'
}

/// Whether `name` is `package` without its version.
pub open spec fn is_bare_name(package: Seq<char>, name: Seq<char>) -> bool {
    ||| exists|at: int| #[trigger] is_version_mark(package, at) && name == package.take(at)
    ||| (forall|at: int| !#[trigger] is_version_mark(package, at)) && name == package
}

/// Drops the version from the name of an npm package.
pub fn bare_package_name(package: &str) -> (r: String)
    ensures
        is_bare_name(package@, r@),
{
    let chars = chars_of(package);
    let n: usize = chars.len();
    let mut start: usize = 0;
    if n > 0 && chars[0] == '@' {
        let mut i: usize = 0;
        while i < n && chars[i] != '/'
            invariant
                i <= n == chars.len(),
                forall|k: int| 0 <= k < i ==> chars@[k] != '/',
            decreases n - i,
        {
            i += 1;
        }
        if i < n {
            start = i + 1;
            proof {
                assert(package@[i as int] == '/');
                assert(package@.contains('/'));
                package@.index_of_first_ensures('/');
            }
        }
    }
    assert(start == scope_end(package@));
    let mut end: usize = n;
    while end > start
        invariant
            start <= end <= n == chars.len(),
            chars@ == package@,
            start == scope_end(package@),
            forall|k: int| end <= k < n ==> chars@[k] != '@',
        decreases end,
    {
        if chars[end - 1] == '@' {
            assert(is_version_mark(package@, end - 1));
            assert(package@.subrange(0, end - 1) == package@.take(end - 1));
            return package.substring_char(0, end - 1).to_owned();
        }
        end -= 1;
    }
    package.to_owned()
}

/// Whether a character ends the name in a Python package requirement.
pub open spec fn ends_tool_name(c: char) -> bool {
    text::is_space(c) || c == '[' || c == '<' || c == '>' || c == '=' || c == '!' || c == '~' || c
        == '@'
}

/// The name that a Python package requirement begins with.
pub open spec fn leading_name(s: Seq<char>) -> Seq<char>
    decreases s.len(),
{
    if s.len() == 0 || ends_tool_name(s[0]) {
        Seq::empty()
    } else {
        seq![s[0]] + leading_name(s.drop_first())
    }
}

proof fn lemma_leading_name(s: Seq<char>, n: int)
    requires
        0 <= n <= s.len(),
        forall|k: int| 0 <= k < n ==> !ends_tool_name(#[trigger] s[k]),
        n < s.len() ==> ends_tool_name(s[n]),
    ensures
        leading_name(s) == s.take(n),
    decreases n,
{
    if n == 0 {
        assert(s.take(0) == Seq::<char>::empty());
    } else {
        let rest = s.drop_first();
        assert forall|k: int| 0 <= k < n - 1 implies !ends_tool_name(#[trigger] rest[k]) by {
            assert(rest[k] == s[k + 1]);
        }
        lemma_leading_name(rest, n - 1);
        assert(!ends_tool_name(s[0]));
        assert(s.take(n) == seq![s[0]] + rest.take(n - 1));
    }
}

/// Gives the name of the tool that a Python package requirement is about.
pub fn uv_tool_name(package: &str) -> (r: Result<String, Failure>)
    ensures
        match r {
            Ok(name) => name@.len() > 0 && name@ == leading_name(text::trim(package@)),
            Err(e) => leading_name(text::trim(package@)).len() == 0 && e@ == failure::failure(
                "invalid uv package requirement: "@ + text::trim(package@),
            ),
        },
{
    let requirement = trimmed(package);
    let chars = chars_of(requirement.as_str());
    let mut n: usize = 0;
    while n < chars.len() && !(is_whitespace(chars[n]) || chars[n] == '[' || chars[n] == '<'
        || chars[n] == '>' || chars[n] == '=' || chars[n] == '!' || chars[n] == '~' || chars[n]
        == '@')
        invariant
            n <= chars.len(),
            chars@ == requirement@,
            forall|k: int| 0 <= k < n ==> !ends_tool_name(#[trigger] requirement@[k]),
        decreases chars.len() - n,
    {
        n += 1;
    }
    proof {
        lemma_leading_name(requirement@, n as int);
        assert(requirement@.subrange(0, n as int) == requirement@.take(n as int));
    }
    if n == 0 {
        Err(
            Failure::new(
                "invalid uv package requirement: ".to_owned().concat(requirement.as_str()),
            ),
        )
    } else {
        Ok(requirement.as_str().substring_char(0, n).to_owned())
    }
}

/// The keys of the object under `key` in the JSON document that `bytes` holds: none where there
/// is no such object, and what is wrong where there is no such document.
pub uninterp spec fn json_object_keys(bytes: Seq<u8>, key: Seq<char>) -> Result<
    Option<Seq<Seq<char>>>,
    Seq<char>,
>;

/// The keys that a parse brought, as sequences of characters.
pub open spec fn keys_view(keys: Result<Option<Vec<String>>, String>) -> Result<
    Option<Seq<Seq<char>>>,
    Seq<char>,
> {
    match keys {
        Ok(Some(list)) => Ok(Some(list.deep_view())),
        Ok(None) => Ok(None),
        Err(words) => Err(words@),
    }
}

/// Calls `from_slice` of serde_json, and on the value that it gives `get`, `as_object` and `keys`.
/// What they make of the bytes is left open; it is taken to depend on the bytes and the key alone.
#[verifier::external_body]
fn parse_object_keys(bytes: &[u8], key: &str) -> (r: Result<Option<Vec<String>>, String>)
    ensures
        keys_view(r) == json_object_keys(bytes@, key@),
{
    match serde_json::from_slice::<serde_json::Value>(bytes) {
        Ok(value) => Ok(
            value.get(key).and_then(serde_json::Value::as_object).map(
                |object| object.keys().cloned().collect(),
            ),
        ),
        Err(error) => Err(error.to_string()),
    }
}

/// Whether a listing of npm packages has a package of exactly this name.
pub open spec fn lists(packages: Option<Seq<Seq<char>>>, package: Seq<char>) -> bool {
    packages matches Some(list) && list.contains(package)
}

/// Tells whether a listing of npm packages has a package of exactly this name.
pub fn npm_list_contains(packages: &Option<Vec<String>>, package: &str) -> (r: bool)
    ensures
        r == lists(
            match *packages {
                Some(list) => Some(list.deep_view()),
                None => None,
            },
            package@,
        ),
{
    match packages {
        None => false,
        Some(list) => contains_text(list, package),
    }
}

/// Whether a text occurs in a list.
pub fn contains_text(list: &Vec<String>, wanted: &str) -> (r: bool)
    ensures
        r == list.deep_view().contains(wanted@),
{
    let ghost texts = list.deep_view();
    let mut i: usize = 0;
    while i < list.len()
        invariant
            i <= list.len(),
            texts == list.deep_view(),
            forall|k: int| 0 <= k < i ==> texts[k] != wanted@,
        decreases list.len() - i,
    {
        if same(list[i].as_str(), wanted) {
            assert(texts[i as int] == wanted@);
            return true;
        }
        assert(texts[i as int] == list@[i as int]@);
        i += 1;
    }
    false
}

/// The failure of a listing of npm packages that cannot be read.
pub open spec fn unreadable_listing(words: Seq<char>, stderr: Seq<u8>) -> FailureView {
    failure::failure(words).within(
        "npm did not return a valid global package list: "@ + text::trim(
            text::lossy_text(stderr),
        ),
    )
}

/// Tells whether npm has a package installed, given what its listing was parsed into.
pub fn package_in_listing(
    packages: Result<Option<Vec<String>>, String>,
    stderr: &[u8],
    package: &str,
) -> (r: Result<bool, Failure>)
    ensures
        match (keys_view(packages), r) {
            (Ok(list), Ok(found)) => found == lists(list, package@),
            (Err(words), Err(e)) => e@ == unreadable_listing(words, stderr@),
            _ => false,
        },
{
    match packages {
        Ok(list) => Ok(npm_list_contains(&list, package)),
        Err(words) => Err(
            Failure::new(words).within(
                "npm did not return a valid global package list: ".to_owned().concat(
                    trimmed(lossy_string(stderr).as_str()).as_str(),
                ),
            ),
        ),
    }
}

/// Tells whether npm has a package installed, given the output of its listing.
pub fn npm_package_installed(output: &ProcessOutput, package: &str) -> (r: Result<bool, Failure>)
    ensures
        match (json_object_keys(output.stdout@, "dependencies"@), r) {
            (Ok(list), Ok(found)) => found == lists(list, package@),
            (Err(words), Err(e)) => e@ == unreadable_listing(words, output.stderr@),
            _ => false,
        },
{
    let packages = parse_object_keys(output.stdout.as_slice(), "dependencies");
    package_in_listing(packages, output.stderr.as_slice(), package)
}

/// What a failed run of a package manager has to say for itself.
pub open spec fn run_detail(stdout: Seq<u8>, stderr: Seq<u8>) -> Seq<char> {
    let err = environment::shown_output(stderr);
    if err.len() == 0 {
        environment::shown_output(stdout)
    } else {
        err
    }
}

/// The failure of a run of a package manager.
pub open spec fn failed_run(
    program: Seq<char>,
    subject: Seq<char>,
    stdout: Seq<u8>,
    stderr: Seq<u8>,
) -> FailureView {
    let detail = run_detail(stdout, stderr);
    let lead = "failed to run "@ + program + " for "@ + subject;
    failure::failure(
        if detail.len() == 0 {
            lead
        } else {
            lead + ": "@ + detail
        },
    )
}

/// Judges a run of a package manager.
pub fn command_outcome(command: &PackageCommand, output: &ProcessOutput) -> (r: Result<
    (),
    Failure,
>)
    ensures
        match r {
            Ok(()) => output.success,
            Err(e) => !output.success && e@ == failed_run(
                command.program@,
                command.subject@,
                output.stdout@,
                output.stderr@,
            ),
        },
{
    if output.success {
        return Ok(());
    }
    let err = trimmed(lossy_string(output.stderr.as_slice()).as_str());
    let detail = if err.as_str().is_empty() {
        trimmed(lossy_string(output.stdout.as_slice()).as_str())
    } else {
        err
    };
    let lead = "failed to run ".to_owned().concat(command.program).concat(" for ").concat(
        command.subject.as_str(),
    );
    if detail.as_str().is_empty() {
        Err(Failure::new(lead))
    } else {
        Err(Failure::new(lead.concat(": ").concat(detail.as_str())))
    }
}

/// What is left to do to remove an agent.
#[derive(Debug)]
pub enum UninstallStep {
    /// Nothing: this is what came of it.
    Done(UninstallOutcome),
    /// See whether npm can still be found; see [`after_npm_probe`].
    FindNpm { package: String },
    /// Ask npm for its packages; see [`after_npm_listing`].
    ListNpmPackages { package: String },
    /// Run the package manager; then this is what came of it.
    Run { command: PackageCommand, outcome: UninstallOutcome },
}

/// The failure of removing an agent that is not there.
pub open spec fn not_installed(agent_id: Seq<char>) -> FailureView {
    failure::failure("agent \""@ + agent_id + "\" is not installed"@)
}

fn not_installed_failure(agent_id: &str) -> (r: Failure)
    ensures
        r@ == not_installed(agent_id@),
{
    Failure::new("agent \"".to_owned().concat(agent_id).concat("\" is not installed"))
}

/// Whether `step` is what is left to do for an agent with no cached archive.
pub open spec fn removes_package(
    agent_id: Seq<char>,
    agent: RegistryAgent,
    platform: Platform,
    npm: Result<bool, FailureView>,
    step: Result<UninstallStep, Failure>,
) -> bool {
    match (runner::resolved(agent, platform, npm), step) {
        (Err(e), Err(got)) => got@ == e,
        (Ok(None), Err(got)) => got@ == not_installed(agent_id),
        (Ok(Some(ResolvedDistribution::Binary { .. })), Err(got)) => got@ == not_installed(
            agent_id,
        ),
        (
            Ok(Some(ResolvedDistribution::Npm { distribution, runner: PackageRunner::Npm })),
            Ok(UninstallStep::FindNpm { package }),
        ) => is_bare_name(distribution.package@, package@),
        (
            Ok(Some(ResolvedDistribution::Npm { distribution, runner })),
            Ok(UninstallStep::Done(outcome)),
        ) => runner != PackageRunner::Npm && outcome@ == (UninstallView::RunnerManaged {
            agent_id,
            runner,
        }),
        (
            Ok(Some(ResolvedDistribution::Uvx { distribution })),
            Ok(UninstallStep::Run { command, outcome }),
        ) => {
            let name = leading_name(text::trim(distribution.package@));
            &&& name.len() > 0
            &&& command@ == (PackageCommandView {
                program: "uv"@,
                args: seq!["tool"@, "uninstall"@, name],
                subject: "uv package "@ + name,
            })
            &&& outcome@ == (UninstallView::PackageManager {
                agent_id,
                method: InstallMethod::Uvx,
                package: name,
            })
        },
        (Ok(Some(ResolvedDistribution::Uvx { distribution })), Err(got)) => {
            let requirement = text::trim(distribution.package@);
            leading_name(requirement).len() == 0 && got@ == failure::failure(
                "invalid uv package requirement: "@ + requirement,
            )
        },
        _ => false,
    }
}

fn remove_package(
    agent_id: &str,
    agent: &RegistryAgent,
    platform: Platform,
    npm: Result<bool, Failure>,
) -> (r: Result<UninstallStep, Failure>)
    ensures
        removes_package(agent_id@, *agent, platform, runner::npm_view(npm), r),
{
    match resolve_distribution(agent, platform, npm) {
        Err(e) => Err(e),
        Ok(None) => Err(not_installed_failure(agent_id)),
        Ok(Some(ResolvedDistribution::Binary { .. })) => Err(not_installed_failure(agent_id)),
        Ok(Some(ResolvedDistribution::Npm { distribution, runner })) => {
            if runner == PackageRunner::Npm {
                Ok(
                    UninstallStep::FindNpm {
                        package: bare_package_name(distribution.package.as_str()),
                    },
                )
            } else {
                Ok(
                    UninstallStep::Done(
                        UninstallOutcome::RunnerManaged { agent_id: agent_id.to_owned(), runner },
                    ),
                )
            }
        },
        Ok(Some(ResolvedDistribution::Uvx { distribution })) => {
            let name = uv_tool_name(distribution.package.as_str())?;
            let command = PackageCommand {
                program: "uv",
                args: three("tool", "uninstall", name.as_str()),
                subject: "uv package ".to_owned().concat(name.as_str()),
            };
            Ok(
                UninstallStep::Run {
                    command,
                    outcome: UninstallOutcome::PackageManager {
                        agent_id: agent_id.to_owned(),
                        method: InstallMethod::Uvx,
                        package: name,
                    },
                },
            )
        },
    }
}

/// Decides what is left to do to remove an agent, once its cached archives have been removed.
/// `cache_removed` says whether there were any. Where there were, the platform does not matter.
pub fn uninstall_from(
    agent_id: &str,
    cache_removed: Result<bool, Failure>,
    registry: Result<&Registry, Failure>,
    platform: Result<Platform, Failure>,
    npm: Result<bool, Failure>,
) -> (r: Result<UninstallStep, Failure>)
    ensures
        match (cache_removed, registry) {
            (Err(e), _) => r matches Err(got) && got@ == e@,
            (Ok(true), Ok(_)) => r matches Ok(UninstallStep::Done(outcome)) && outcome@ == (
            UninstallView::Cache { agent_id: agent_id@, registry_error: None }),
            (Ok(true), Err(e)) => r matches Ok(UninstallStep::Done(outcome)) && outcome@ == (
            UninstallView::Cache { agent_id: agent_id@, registry_error: Some(e@.chain()) }),
            (Ok(false), Err(e)) => r matches Err(got) && got@ == e@.within(
                "could not determine how agent \""@ + agent_id@ + "\" was installed"@,
            ),
            (Ok(false), Ok(known)) => if registry::has_no_id(known.agents@, agent_id@) {
                r matches Err(got) && got@ == not_installed(agent_id@)
            } else {
                match platform {
                    Err(e) => r matches Err(got) && got@ == e@,
                    Ok(here) => exists|at: int|
                        #[trigger] registry::is_first_with_id(known.agents@, agent_id@, at)
                            && removes_package(
                            agent_id@,
                            known.agents@[at],
                            here,
                            runner::npm_view(npm),
                            r,
                        ),
                }
            },
        },
{
    let removed: bool = cache_removed?;
    match registry {
        Err(e) => {
            if removed {
                Ok(
                    UninstallStep::Done(
                        UninstallOutcome::Cache {
                            agent_id: agent_id.to_owned(),
                            registry_error: Some(e.chain()),
                        },
                    ),
                )
            } else {
                Err(
                    e.within(
                        "could not determine how agent \"".to_owned().concat(agent_id).concat(
                            "\" was installed",
                        ),
                    ),
                )
            }
        },
        Ok(known) => {
            if removed {
                return Ok(
                    UninstallStep::Done(
                        UninstallOutcome::Cache {
                            agent_id: agent_id.to_owned(),
                            registry_error: None,
                        },
                    ),
                );
            }
            match known.find_agent(agent_id) {
                None => Err(not_installed_failure(agent_id)),
                Some(agent) => {
                    let ghost at = choose|at: int|
                        registry::is_first_with_id(known.agents@, agent_id@, at) && *agent
                            == #[trigger] known.agents@[at];
                    assert(registry::is_first_with_id(known.agents@, agent_id@, at));
                    match platform {
                        Err(e) => Err(e),
                        Ok(here) => remove_package(agent_id, agent, here, npm),
                    }
                },
            }
        },
    }
}

/// Decides what is left to do to remove an npm package, once it is known whether npm can still be
/// found: without npm there is no list of packages to look at.
pub fn after_npm_probe(agent_id: &str, package: String, npm_available: bool) -> (r: UninstallStep)
    ensures
        if npm_available {
            r == (UninstallStep::ListNpmPackages { package })
        } else {
            r matches UninstallStep::Done(outcome) && outcome@ == (UninstallView::RunnerManaged {
                agent_id: agent_id@,
                runner: PackageRunner::Npm,
            })
        },
{
    if npm_available {
        UninstallStep::ListNpmPackages { package }
    } else {
        UninstallStep::Done(
            UninstallOutcome::RunnerManaged {
                agent_id: agent_id.to_owned(),
                runner: PackageRunner::Npm,
            },
        )
    }
}

/// Decides what is left to do to remove an npm package, once it is known whether npm has it.
pub fn after_npm_listing(agent_id: &str, package: &str, installed: bool) -> (r: UninstallStep)
    ensures
        if installed {
            r matches UninstallStep::Run { command, outcome } && command@ == (PackageCommandView {
                program: "npm"@,
                args: seq!["uninstall"@, "--global"@, package@],
                subject: "npm package "@ + package@,
            }) && outcome@ == (UninstallView::PackageManager {
                agent_id: agent_id@,
                method: InstallMethod::Npm,
                package: package@,
            })
        } else {
            r matches UninstallStep::Done(outcome) && outcome@ == (UninstallView::RunnerManaged {
                agent_id: agent_id@,
                runner: PackageRunner::Npm,
            })
        },
{
    if installed {
        UninstallStep::Run {
            command: PackageCommand {
                program: "npm",
                args: three("uninstall", "--global", package),
                subject: "npm package ".to_owned().concat(package),
            },
            outcome: UninstallOutcome::PackageManager {
                agent_id: agent_id.to_owned(),
                method: InstallMethod::Npm,
                package: package.to_owned(),
            },
        }
    } else {
        UninstallStep::Done(
            UninstallOutcome::RunnerManaged {
                agent_id: agent_id.to_owned(),
                runner: PackageRunner::Npm,
            },
        )
    }
}

/// `ids` without what occurred before.
pub open spec fn distinct(ids: Seq<Seq<char>>) -> Seq<Seq<char>>
    decreases ids.len(),
{
    if ids.len() == 0 {
        ids
    } else {
        let front = distinct(ids.drop_last());
        if front.contains(ids.last()) {
            front
        } else {
            front.push(ids.last())
        }
    }
}

/// Drops ids that occurred before; a batch works on each agent once, in the order of the first
/// requests.
pub fn distinct_ids(ids: &Vec<String>) -> (r: Vec<String>)
    ensures
        r.deep_view() == distinct(ids.deep_view()),
{
    let ghost all = ids.deep_view();
    let mut r: Vec<String> = Vec::new();
    let mut i: usize = 0;
    assert(r.deep_view() == all.take(0));
    while i < ids.len()
        invariant
            i <= ids.len(),
            all == ids.deep_view(),
            r.deep_view() == distinct(all.take(i as int)),
        decreases ids.len() - i,
    {
        let ghost before = r.deep_view();
        proof {
            assert(all.take(i + 1).drop_last() == all.take(i as int));
            assert(all.take(i + 1).last() == ids@[i as int]@);
        }
        if !contains_text(&r, ids[i].as_str()) {
            r.push(ids[i].clone());
            assert(r.deep_view() == before.push(ids@[i as int]@));
        }
        i += 1;
    }
    assert(all.take(all.len() as int) == all);
    r
}

/// A batch has every requested agent exactly once.
pub proof fn law_distinct_ids(ids: Seq<Seq<char>>)
    ensures
        distinct(ids).no_duplicates(),
        forall|id: Seq<char>| #[trigger] distinct(ids).contains(id) <==> ids.contains(id),
    decreases ids.len(),
{
    if ids.len() > 0 {
        let front = distinct(ids.drop_last());
        law_distinct_ids(ids.drop_last());
        assert forall|id: Seq<char>| #[trigger] distinct(ids).contains(id) <==> ids.contains(
            id,
        ) by {
            assert(front.contains(id) <==> ids.drop_last().contains(id));
            if ids.contains(id) {
                let k = choose|k: int| 0 <= k < ids.len() && ids[k] == id;
                if k < ids.len() - 1 {
                    assert(ids.drop_last()[k] == id);
                    assert(ids.drop_last().contains(id));
                    assert(front.contains(id));
                    let j = choose|j: int| 0 <= j < front.len() && front[j] == id;
                    assert(distinct(ids)[j] == id);
                } else if !front.contains(id) {
                    assert(distinct(ids)[front.len() as int] == id);
                }
            }
            if distinct(ids).contains(id) {
                let j = choose|j: int| 0 <= j < distinct(ids).len() && distinct(ids)[j] == id;
                if j < front.len() {
                    assert(front[j] == id);
                    assert(front.contains(id));
                    let k = choose|k: int| 0 <= k < ids.len() - 1 && ids.drop_last()[k] == id;
                    assert(ids[k] == id);
                } else {
                    assert(ids[ids.len() - 1] == id);
                }
            }
        }
    }
}

/// A batch keeps the order of the first requests: what a shorter batch works on comes first, in
/// the same order.
pub proof fn law_distinct_ids_keep_order(ids: Seq<Seq<char>>, n: int)
    requires
        0 <= n <= ids.len(),
    ensures
        distinct(ids.take(n)).is_prefix_of(distinct(ids)),
    decreases ids.len() - n,
{
    if n == ids.len() {
        assert(ids.take(n) == ids);
        assert(distinct(ids).take(distinct(ids).len() as int) == distinct(ids));
    } else {
        law_distinct_ids_keep_order(ids, n + 1);
        let a = distinct(ids.take(n));
        let b = distinct(ids.take(n + 1));
        let c = distinct(ids);
        assert(ids.take(n + 1).drop_last() == ids.take(n));
        assert(a == b.take(a.len() as int));
        assert(b == c.take(b.len() as int));
        assert(a == c.take(a.len() as int));
    }
}

/// A package is prepared by the tool that will run it, and it is that very package: npm installs it
/// for everybody, Deno fetches it into its cache, and uv installs it as a tool.
pub proof fn law_packages_are_prepared_by_their_runner(package: Seq<char>)
    ensures
        ({
            let npm = preparation(PackageRunner::Npm, package);
            &&& npm.program == "npm"@
            &&& npm.args.len() == 3
            &&& npm.args[0] == "install"@
            &&& npm.args[1] == "--global"@
            &&& npm.args.last() == package
        }),
        ({
            let deno = preparation(PackageRunner::Deno, package);
            &&& deno.program == "deno"@
            &&& deno.args.first() == "cache"@
            &&& deno.args.last() == "npm:"@ + package
            &&& deno.args.len() == 4
            &&& deno.args.subrange(1, 3) == seq!["--minimum-dependency-age"@, "0"@]
        }),
        ({
            let uv = preparation(PackageRunner::Uvx, package);
            &&& uv.program == "uv"@
            &&& uv.args.len() == 3
            &&& uv.args[0] == "tool"@
            &&& uv.args[1] == "install"@
            &&& uv.args.last() == package
        }),
{
    let deno = preparation(PackageRunner::Deno, package);
    assert(deno.args.subrange(1, 3) =~= seq!["--minimum-dependency-age"@, "0"@]);
}

/// Each tool goes by the name of its own.
pub proof fn law_methods_go_by_their_names()
    ensures
        method_of(PackageRunner::Npm) == InstallMethod::Npm,
        method_of(PackageRunner::Deno) == InstallMethod::Deno,
        method_of(PackageRunner::Uvx) == InstallMethod::Uvx,
        InstallMethod::Npm.name() == "npm"@,
        InstallMethod::Deno.name() == "deno"@,
        InstallMethod::Uvx.name() == "uv"@,
{
}

/// An agent is installed exactly if it has a distribution for here: an archive goes to the cache,
/// and a package is prepared by the tool that will run it.
pub proof fn law_installations_follow_the_distribution(
    agent: RegistryAgent,
    platform: Platform,
    npm: Result<bool, FailureView>,
    plan: Result<InstallPlan, Failure>,
)
    requires
        installs(agent, platform, npm, plan),
    ensures
        plan is Ok <==> runner::resolved(agent, platform, npm) matches Ok(Some(_)),
        plan matches Ok(InstallPlan::Binary { platform: p, .. }) ==> p == platform,
        plan matches Ok(InstallPlan::Package { runner, package, command }) ==> command@
            == preparation(runner, package@),
        plan is Err && runner::resolved(agent, platform, npm) is Err ==> plan->Err_0@
            == runner::resolved(agent, platform, npm)->Err_0,
{
}

/// The name of a package is what stands before its version. The sign that leads a scope does not
/// begin a version.
pub proof fn law_bare_names_leave_the_version_out(
    scope: Seq<char>,
    base: Seq<char>,
    version: Seq<char>,
    name: Seq<char>,
)
    requires
        base.len() > 0,
        !base.contains('@'),
        !base.contains('/'),
        !scope.contains('@'),
        !scope.contains('/'),
        !version.contains('@'),
    ensures
        is_bare_name(base.push('@') + version, name) ==> name == base,
        is_bare_name(base, name) ==> name == base,
        ({
            let scoped = (seq!['@'] + scope).push('/') + base;
            &&& is_bare_name(scoped.push('@') + version, name) ==> name == scoped
            &&& is_bare_name(scoped, name) ==> name == scoped
        }),
{
    assert(base.contains(base[0]));
    lemma_bare(base, version, name);
    let lead = seq!['@'] + scope;
    let scoped = lead.push('/') + base;
    let n = lead.len() as int + 1;
    assert forall|k: int| 1 <= k < scoped.len() implies scoped[k] != '@' by {
        if k < lead.len() {
            assert(scope.contains(scope[k - 1]));
            assert(scoped[k] == scope[k - 1]);
        } else if k >= n {
            assert(base.contains(base[k - n]));
            assert(scoped[k] == base[k - n]);
        }
    }
    lemma_bare_scoped(scoped, n, version, name);
}

proof fn lemma_bare(base: Seq<char>, version: Seq<char>, name: Seq<char>)
    requires
        base.len() > 0,
        !base.contains('@'),
        !version.contains('@'),
    ensures
        is_bare_name(base.push('@') + version, name) ==> name == base,
        is_bare_name(base, name) ==> name == base,
{
    let whole = base.push('@') + version;
    let at = base.len() as int;
    assert(base.contains(base[0]));
    assert(whole[0] == base[0]);
    assert(scope_end(whole) == 0 && scope_end(base) == 0);
    assert forall|k: int| at < k < whole.len() implies whole[k] != '@' by {
        assert(version.contains(version[k - at - 1]));
    }
    assert(is_version_mark(whole, at));
    assert forall|k: int| is_version_mark(whole, k) implies k == at by {
        if k < at {
            assert(base.contains(base[k]));
            assert(whole[k] == base[k]);
        }
    }
    assert(whole.take(at) =~= base);
    assert forall|k: int| !is_version_mark(base, k) by {
        if is_version_mark(base, k) {
            assert(base.contains(base[k]));
        }
    }
}

proof fn lemma_bare_scoped(scoped: Seq<char>, n: int, version: Seq<char>, name: Seq<char>)
    requires
        2 <= n <= scoped.len(),
        scoped[0] == '@',
        scoped[n - 1] == '/',
        forall|k: int| 1 <= k < scoped.len() ==> scoped[k] != '@',
        !version.contains('@'),
    ensures
        is_bare_name(scoped.push('@') + version, name) ==> name == scoped,
        is_bare_name(scoped, name) ==> name == scoped,
{
    let whole = scoped.push('@') + version;
    let at = scoped.len() as int;
    assert(whole[n - 1] == '/' && scoped[n - 1] == '/');
    assert(whole.contains('/') && scoped.contains('/'));
    whole.index_of_first_ensures('/');
    scoped.index_of_first_ensures('/');
    let p = whole.index_of_first('/')->Some_0;
    let q = scoped.index_of_first('/')->Some_0;
    assert(whole[0] == '@');
    assert(p <= n - 1) by {
        if p > n - 1 {
            assert(whole[n - 1] != '/');
        }
    }
    assert(p >= 1 && q >= 1) by {
        assert(whole[p] == '/' && scoped[q] == '/');
    }
    assert forall|k: int| at < k < whole.len() implies whole[k] != '@' by {
        assert(version.contains(version[k - at - 1]));
    }
    assert(is_version_mark(whole, at));
    assert forall|k: int| is_version_mark(whole, k) implies k == at by {
        if k < at {
            assert(whole[k] == scoped[k]);
        }
    }
    assert(whole.take(at) =~= scoped);
    assert forall|k: int| !is_version_mark(scoped, k) by {}
}

/// The name of a uv tool goes on through letters, digits, dashes, dots and underscores, and ends
/// where extras, a version or a blank begin.
pub proof fn law_tool_names_end_where_the_requirement_goes_on(
    name: Seq<char>,
    rest: Seq<char>,
)
    requires
        forall|i: int|
            #![trigger name[i]]
            0 <= i < name.len() ==> {
                let c = name[i] as int;
                48 <= c <= 57 || 65 <= c <= 90 || 97 <= c <= 122 || c == 45 || c == 46 || c == 95
            },
        rest.len() == 0 || rest[0] == '[' || rest[0] == '<' || rest[0] == '>' || rest[0] == '='
            || rest[0] == '!' || rest[0] == '~' || rest[0] == '@' || rest[0] == ' ',
    ensures
        leading_name(name + rest) == name,
    decreases name.len(),
{
    let all = name + rest;
    if name.len() == 0 {
        assert(all =~= rest);
        text::law_printable_ascii_is_no_space(' ');
        assert(leading_name(all) =~= name);
    } else {
        text::law_printable_ascii_is_no_space(name[0]);
        let tail = name.drop_first();
        assert forall|i: int| 0 <= i < tail.len() implies ({
            let c = (#[trigger] tail[i]) as int;
            48 <= c <= 57 || 65 <= c <= 90 || 97 <= c <= 122 || c == 45 || c == 46 || c == 95
        }) by {
            assert(tail[i] == name[i + 1]);
        }
        law_tool_names_end_where_the_requirement_goes_on(tail, rest);
        assert(all.drop_first() =~= tail + rest);
        assert(all[0] == name[0]);
        assert(!ends_tool_name(name[0]));
        assert(seq![name[0]] + tail =~= name);
    }
}

/// A package is installed exactly if the listing names it.
pub proof fn law_listed_packages_are_installed(
    packages: Seq<Seq<char>>,
    package: Seq<char>,
    i: int,
)
    ensures
        !lists(None, package),
        0 <= i < packages.len() && packages[i] == package ==> lists(Some(packages), package),
        (forall|k: int| 0 <= k < packages.len() ==> #[trigger] packages[k] != package) ==> !lists(
            Some(packages),
            package,
        ),
{
}

/// A failed run of a package manager says what was run for what, and then what it wrote to its
/// errors, or to its output where it wrote no errors.
pub proof fn law_failed_runs_say_what_was_written(
    program: Seq<char>,
    subject: Seq<char>,
    stdout: Seq<u8>,
    stderr: Seq<u8>,
)
    ensures
        ({
            let message = failed_run(program, subject, stdout, stderr).message;
            let out = text::trim(text::lossy_text(stdout));
            let err = text::trim(text::lossy_text(stderr));
            &&& ("failed to run "@ + program + " for "@ + subject).is_prefix_of(message)
            &&& err.len() > 0 ==> err.is_suffix_of(message)
            &&& err.len() == 0 ==> out.is_suffix_of(message)
            &&& err.len() == 0 && out.len() == 0 ==> message == "failed to run "@ + program
                + " for "@ + subject
        }),
{
    let message = failed_run(program, subject, stdout, stderr).message;
    let lead = "failed to run "@ + program + " for "@ + subject;
    let detail = run_detail(stdout, stderr);
    assert(message.take(lead.len() as int) =~= lead);
    assert(message.skip(message.len() - detail.len()) =~= detail);
}

/// An agent without a cached archive is removed by the tool that installed it: uv removes the tool
/// by its name, npm is asked for its packages first, and what Deno holds is left to it. Where the
/// agent would be an archive, or is not there at all, it is not installed.
pub proof fn law_packages_are_removed_by_their_tool(
    agent_id: Seq<char>,
    agent: RegistryAgent,
    platform: Platform,
    npm: Result<bool, FailureView>,
    step: Result<UninstallStep, Failure>,
)
    requires
        removes_package(agent_id, agent, platform, npm, step),
    ensures
        match runner::resolved(agent, platform, npm) {
            Err(e) => step is Err && step->Err_0@ == e,
            Ok(None) => step is Err,
            Ok(Some(ResolvedDistribution::Binary { .. })) => step is Err,
            Ok(Some(ResolvedDistribution::Npm { distribution, runner })) => {
                &&& step is Ok
                &&& runner == PackageRunner::Npm ==> step->Ok_0 is FindNpm && is_bare_name(
                    distribution.package@,
                    step->Ok_0->FindNpm_package@,
                )
                &&& runner == PackageRunner::Deno ==> step->Ok_0 is Done
            },
            Ok(Some(ResolvedDistribution::Uvx { distribution })) => {
                let name = leading_name(text::trim(distribution.package@));
                &&& step is Ok <==> name.len() > 0
                &&& step is Ok ==> step->Ok_0 is Run && step->Ok_0->command@.program == "uv"@
                    && step->Ok_0->command@.args.len() == 3 && step->Ok_0->command@.args[1]
                    == "uninstall"@ && step->Ok_0->command@.args[2] == name
            },
        },
{
}

/// Outcomes and commands with the same view agree on everything.
pub proof fn law_outcome_views_hold_every_field(
    a: UninstallOutcome,
    b: UninstallOutcome,
    p: PackageCommand,
    q: PackageCommand,
)
    ensures
        a@ == b@ ==> match (a, b) {
            (
                UninstallOutcome::Cache { agent_id: x, registry_error: e },
                UninstallOutcome::Cache { agent_id: y, registry_error: f },
            ) => x@ == y@ && (e is Some <==> f is Some) && (e is Some ==> e->Some_0@
                == f->Some_0@),
            (
                UninstallOutcome::PackageManager { agent_id: x, method: m, package: e },
                UninstallOutcome::PackageManager { agent_id: y, method: n, package: f },
            ) => x@ == y@ && m == n && e@ == f@,
            (
                UninstallOutcome::RunnerManaged { agent_id: x, runner: m },
                UninstallOutcome::RunnerManaged { agent_id: y, runner: n },
            ) => x@ == y@ && m == n,
            _ => false,
        },
        p@ == q@ ==> p.program@ == q.program@ && p.args.deep_view() == q.args.deep_view()
            && p.subject@ == q.subject@,
{
}

/// What was installed is told as it was found: the agent, the executable and its entry, or the
/// package and the manager of the runner that was used.
pub proof fn law_outcomes_tell_what_was_installed(
    agent_id: &str,
    cached: &CachedBinary,
    runner: PackageRunner,
    package: &str,
    binary: InstallOutcome,
    managed: InstallOutcome,
)
    requires
        call_ensures(binary_outcome, (agent_id, cached), binary),
        call_ensures(package_outcome, (agent_id, runner, package), managed),
    ensures
        binary is Binary,
        binary->Binary_agent_id@ == agent_id@,
        binary->executable_path@ == cached.executable_path@,
        binary->cache_dir@ == cached.cache_dir@,
        !binary->stale_cache_entries_removed,
        managed is PackageManager,
        managed->PackageManager_agent_id@ == agent_id@,
        managed->PackageManager_package@ == package@,
        managed->PackageManager_method is Npm <==> runner is Npm,
        managed->PackageManager_method is Deno <==> runner is Deno,
        managed->PackageManager_method is Uvx <==> runner is Uvx,
{
}

/// A run counts exactly by whether the program ended well.
pub proof fn law_runs_count_by_their_end(
    command: &PackageCommand,
    output: &ProcessOutput,
    r: Result<(), Failure>,
)
    requires
        call_ensures(command_outcome, (command, output), r),
    ensures
        r is Ok <==> output.success,
        r is Err ==> ("failed to run "@ + command.program@ + " for "@
            + command.subject@).is_prefix_of(r->Err_0@.message),
{
    if r is Err {
        let head = "failed to run "@ + command.program@ + " for "@ + command.subject@;
        assert(r->Err_0@.message.take(head.len() as int) =~= head);
    }
}

/// An agent whose archives were removed is done, with or without the registry; one that had none is
/// looked for in the registry, and without that nothing is known of it.
pub proof fn law_removed_archives_are_enough(
    agent_id: &str,
    cache_removed: Result<bool, Failure>,
    registry: Result<&Registry, Failure>,
    platform: Result<Platform, Failure>,
    npm: Result<bool, Failure>,
    r: Result<UninstallStep, Failure>,
)
    requires
        call_ensures(uninstall_from, (agent_id, cache_removed, registry, platform, npm), r),
    ensures
        cache_removed is Err ==> r is Err && r->Err_0@ == cache_removed->Err_0@,
        cache_removed is Ok && cache_removed->Ok_0 ==> r is Ok && r->Ok_0 is Done && {
            let outcome = r->Ok_0->Done_0@;
            &&& outcome is Cache
            &&& outcome->Cache_agent_id == agent_id@
            &&& outcome->registry_error is Some <==> registry is Err
        },
        cache_removed is Ok && !cache_removed->Ok_0 && registry is Err ==> r is Err
            && r->Err_0@.causes.first() == registry->Err_0@.message,
        cache_removed is Ok && !cache_removed->Ok_0 && registry is Ok && registry::has_no_id(
            registry->Ok_0.agents@,
            agent_id@,
        ) ==> r is Err && r->Err_0@ == not_installed(agent_id@),
{
}

/// A package is asked after only where npm is there, and removed only where npm lists it; else its
/// runner keeps it.
pub proof fn law_npm_removes_what_it_lists(
    agent_id: &str,
    package: String,
    available: bool,
    probed: UninstallStep,
    name: &str,
    installed: bool,
    listed: UninstallStep,
)
    requires
        call_ensures(after_npm_probe, (agent_id, package, available), probed),
        call_ensures(after_npm_listing, (agent_id, name, installed), listed),
    ensures
        probed is ListNpmPackages <==> available,
        available ==> probed->ListNpmPackages_package == package,
        !available ==> probed is Done && probed->Done_0@ == (UninstallView::RunnerManaged {
            agent_id: agent_id@,
            runner: PackageRunner::Npm,
        }),
        listed is Run <==> installed,
        installed ==> listed->command@.program == "npm"@ && listed->command@.args.first()
            == "uninstall"@ && listed->command@.args.contains("--global"@)
            && listed->command@.args.last() == name@ && listed->command@.args.len() == 3,
        installed ==> listed->outcome@ == (UninstallView::PackageManager {
            agent_id: agent_id@,
            method: InstallMethod::Npm,
            package: name@,
        }),
        !installed ==> listed is Done && listed->Done_0@ is RunnerManaged,
{
    if installed {
        assert(listed->command@.args[1] == "--global"@);
    }
}

/// The tool of a Python package is named exactly if the requirement begins with a name, blanks aside.
pub proof fn law_tools_have_a_name(package: &str, r: Result<String, Failure>)
    requires
        call_ensures(uv_tool_name, (package,), r),
    ensures
        r is Ok <==> leading_name(text::trim(package@)).len() > 0,
        r is Ok ==> r->Ok_0@ == leading_name(text::trim(package@)),
{
}

/// Every cached agent is reported as it is, in the order of the cache.
pub proof fn law_cached_agents_are_reported(
    cached: &Vec<CachedAgent>,
    r: Vec<InstalledAgent>,
    i: int,
    list: &Vec<String>,
    wanted: &str,
    found: bool,
)
    requires
        call_ensures(installed_agents, (cached,), r),
        call_ensures(contains_text, (list, wanted), found),
    ensures
        r.len() == cached.len(),
        0 <= i < cached.len() ==> r@[i].agent_id@ == cached@[i].agent_id@ && r@[i].agent_version@
            == cached@[i].agent_version@ && r@[i].platform@ == cached@[i].platform@
            && r@[i].cache_dir@ == cached@[i].cache_dir@ && r@[i].executable_path@
            == cached@[i].executable_path@,
        0 <= i < list.len() && list@[i]@ == wanted@ ==> found,
        found ==> exists|k: int| 0 <= k < list.len() && (#[trigger] list@[k])@ == wanted@,
{
    if 0 <= i < list.len() && list@[i]@ == wanted@ {
        assert(list.deep_view()[i] == wanted@);
    }
    if found {
        let k = choose|k: int| 0 <= k < list.deep_view().len() && list.deep_view()[k] == wanted@;
        assert(list@[k]@ == wanted@);
    }
}

/// An agent is installed from what it is run from: its archive for the platform, or its package with
/// the command that prepares it; one without either is refused.
pub proof fn law_installations_prepare_what_is_run(
    agent: &RegistryAgent,
    platform: Platform,
    npm: Result<bool, Failure>,
    r: Result<InstallPlan, Failure>,
)
    requires
        call_ensures(install_from_registry, (agent, platform, npm), r),
    ensures
        ({
            let choice = runner::resolved(*agent, platform, runner::npm_view(npm));
            &&& r is Ok <==> choice is Ok && choice->Ok_0 is Some
            &&& r is Ok && r->Ok_0 is Binary <==> choice is Ok && choice->Ok_0 is Some
                && choice->Ok_0->Some_0 is Binary
            &&& r is Ok && r->Ok_0 is Binary ==> *r->Ok_0->target
                == *choice->Ok_0->Some_0->target
            &&& r is Ok && choice->Ok_0->Some_0 is Npm ==> r->Ok_0->package@
                == choice->Ok_0->Some_0->Npm_distribution.package@
            &&& r is Ok && choice->Ok_0->Some_0 is Uvx ==> r->Ok_0->package@
                == choice->Ok_0->Some_0->Uvx_distribution.package@
            &&& r is Ok && r->Ok_0 is Package ==> r->Ok_0->command@ == preparation(
                r->Ok_0->runner,
                r->Ok_0->package@,
            )
        }),
{
}

} // verus!
