//! Listing and removing what is installed, by way of the package managers alone.

use vstd::prelude::*;
use crate::commands;
use crate::commands::agents;
use crate::commands::agents::write_installed_agents;
use crate::failure;
use crate::failure::{Failure, FailureView};
use crate::installer::agents::{
    bare_package_name, installed_agents, is_bare_name, InstallMethod, InstalledAgent,
    PackageCommand, PackageCommandView,
};
use crate::installer::cache::CachedAgent;
use crate::order;

verus! {

/// Whether `agents` tells of `cached`, one by one.
pub open spec fn tells_of(agents: Seq<InstalledAgent>, cached: Seq<CachedAgent>) -> bool {
    &&& agents.len() == cached.len()
    &&& forall|i: int|
        0 <= i < agents.len() ==> {
            &&& (#[trigger] agents[i]).agent_id@ == cached[i].agent_id@
            &&& agents[i].agent_version@ == cached[i].agent_version@
            &&& agents[i].platform@ == cached[i].platform@
            &&& agents[i].cache_dir@ == cached[i].cache_dir@
            &&& agents[i].executable_path@ == cached[i].executable_path@
        }
}

/// Prints what is in the cache as tab-separated rows, ordered by id, version and platform.
pub fn write_installed_list(cached: &Vec<CachedAgent>) -> (r: String)
    ensures
        exists|all: Seq<InstalledAgent>| #[trigger]
            tells_of(all, cached@) && r@ == commands::lines(
                agents::installed_rows(order::sorted(all)),
            ),
{
    let all = installed_agents(cached);
    assert(tells_of(all@, cached@));
    write_installed_agents(all)
}

/// What came of removing an agent.
#[derive(Debug, Clone)]
pub enum UninstallOutcome {
    /// Cached binary distributions were removed from the local cache.
    Cache {
        /// ID of the agent that was uninstalled.
        agent_id: String,
    },
    /// A package manager removed a globally installed wrapper.
    PackageManager {
        /// ID of the agent that was uninstalled.
        agent_id: String,
        /// Which package-manager strategy was used.
        method: InstallMethod,
        /// Package identifier handed to the uninstaller.
        package: String,
    },
}

/// An [`UninstallOutcome`] over sequences.
#[verifier::ext_equal]
pub enum UninstallOutcomeView {
    Cache { agent_id: Seq<char> },
    PackageManager { agent_id: Seq<char>, method: InstallMethod, package: Seq<char> },
}

impl View for UninstallOutcome {
    type V = UninstallOutcomeView;

    open spec fn view(&self) -> UninstallOutcomeView {
        match self {
            UninstallOutcome::Cache { agent_id } => UninstallOutcomeView::Cache {
                agent_id: agent_id@,
            },
            UninstallOutcome::PackageManager { agent_id, method, package } =>
                UninstallOutcomeView::PackageManager {
                agent_id: agent_id@,
                method: *method,
                package: package@,
            },
        }
    }
}

impl UninstallOutcome {
    /// The outcome in words.
    pub fn to_text(&self) -> (r: String)
        ensures
            r@ == match self@ {
                UninstallOutcomeView::Cache { agent_id } => "Uninstalled "@ + agent_id
                    + " from the local cache"@,
                UninstallOutcomeView::PackageManager { agent_id, method, package } =>
                    "Uninstalled "@ + agent_id + " via "@ + method.name() + ": "@ + package,
            },
    {
        match self {
            UninstallOutcome::Cache { agent_id } => "Uninstalled ".to_owned().concat(
                agent_id.as_str(),
            ).concat(" from the local cache"),
            UninstallOutcome::PackageManager { agent_id, method, package } => {
                "Uninstalled ".to_owned().concat(agent_id.as_str()).concat(" via ").concat(
                    method.label(),
                ).concat(": ").concat(package.as_str())
            },
        }
    }
}

/// Which package manager is to remove an npm package.
pub enum NpmRemoval {
    By(InstallMethod),
    Nobody,
    Unknown(FailureView),
}

/// Who removes an npm package: npm if it is there, else deno if that is.
pub open spec fn npm_removal(npm: Result<bool, Failure>, deno: Result<bool, Failure>) -> NpmRemoval {
    match npm {
        Err(e) => NpmRemoval::Unknown(e@),
        Ok(true) => NpmRemoval::By(InstallMethod::Npm),
        Ok(false) => match deno {
            Err(e) => NpmRemoval::Unknown(e@),
            Ok(true) => NpmRemoval::By(InstallMethod::Deno),
            Ok(false) => NpmRemoval::Nobody,
        },
    }
}

/// The command by which npm or deno removes a package.
pub open spec fn npm_removal_command(
    method: InstallMethod,
    package: Seq<char>,
) -> PackageCommandView {
    PackageCommandView {
        program: method.name(),
        args: seq!["uninstall"@, "--global"@, package],
        subject: "npm package "@ + package,
    }
}

/// A command to run, and what came of it if it succeeds.
#[derive(Debug)]
pub struct Removal {
    pub command: PackageCommand,
    pub outcome: UninstallOutcome,
}

fn removal(program: &'static str, first: &str, second: &str, package: &str, subject: &str) -> (r:
    PackageCommand)
    ensures
        r@ == (PackageCommandView {
            program: program@,
            args: seq![first@, second@, package@],
            subject: subject@ + package@,
        }),
{
    let args: Vec<String> = vec![first.to_owned(), second.to_owned(), package.to_owned()];
    assert(args.deep_view() =~= seq![first@, second@, package@]);
    PackageCommand { program, args, subject: subject.to_owned().concat(package) }
}

/// Decides how an npm package is removed.
pub fn uninstall_npx_package(
    agent_id: &str,
    package: &str,
    npm: Result<bool, Failure>,
    deno: Result<bool, Failure>,
) -> (r: Result<Removal, Failure>)
    ensures
        exists|name: Seq<char>| #[trigger]
            is_bare_name(package@, name) && match npm_removal(npm, deno) {
                NpmRemoval::Unknown(e) => r is Err && r->Err_0@ == e,
                NpmRemoval::Nobody => r is Err && r->Err_0@ == failure::failure(
                    "cannot uninstall npm package "@ + name
                        + ": neither npm nor deno is available"@,
                ),
                NpmRemoval::By(method) => {
                    &&& r is Ok
                    &&& r->Ok_0.command@ == npm_removal_command(method, name)
                    &&& r->Ok_0.outcome@ == (UninstallOutcomeView::PackageManager {
                        agent_id: agent_id@,
                        method,
                        package: name,
                    })
                },
            },
{
    let name = bare_package_name(package);
    assert(is_bare_name(package@, name@));
    if npm? {
        return Ok(
            Removal {
                command: removal("npm", "uninstall", "--global", name.as_str(), "npm package "),
                outcome: UninstallOutcome::PackageManager {
                    agent_id: agent_id.to_owned(),
                    method: InstallMethod::Npm,
                    package: name,
                },
            },
        );
    }
    if deno? {
        return Ok(
            Removal {
                command: removal("deno", "uninstall", "--global", name.as_str(), "npm package "),
                outcome: UninstallOutcome::PackageManager {
                    agent_id: agent_id.to_owned(),
                    method: InstallMethod::Deno,
                    package: name,
                },
            },
        );
    }
    Err(
        Failure::new(
            "cannot uninstall npm package ".to_owned().concat(name.as_str()).concat(
                ": neither npm nor deno is available",
            ),
        ),
    )
}

/// Decides how a uv package is removed.
pub fn uninstall_uvx_package(agent_id: &str, package: &str) -> (r: Removal)
    ensures
        r.command@ == (PackageCommandView {
            program: "uv"@,
            args: seq!["tool"@, "uninstall"@, package@],
            subject: "uv package "@ + package@,
        }),
        r.outcome@ == (UninstallOutcomeView::PackageManager {
            agent_id: agent_id@,
            method: InstallMethod::Uvx,
            package: package@,
        }),
{
    Removal {
        command: removal("uv", "tool", "uninstall", package, "uv package "),
        outcome: UninstallOutcome::PackageManager {
            agent_id: agent_id.to_owned(),
            method: InstallMethod::Uvx,
            package: package.to_owned(),
        },
    }
}

/// A package of npm is removed by npm where it is there, else by Deno where that is; nothing is
/// known if looking for either failed before one was found.
pub proof fn law_packages_are_removed_by_what_is_there(
    npm: Result<bool, Failure>,
    deno: Result<bool, Failure>,
)
    ensures
        ({
            let r = npm_removal(npm, deno);
            let no_npm = npm is Ok && !npm->Ok_0;
            &&& r == NpmRemoval::By(InstallMethod::Npm) <==> npm is Ok && npm->Ok_0
            &&& r == NpmRemoval::By(InstallMethod::Deno) <==> no_npm && deno is Ok && deno->Ok_0
            &&& r is Nobody <==> no_npm && deno is Ok && !deno->Ok_0
            &&& r is Unknown <==> npm is Err || no_npm && deno is Err
            &&& npm is Err ==> r == NpmRemoval::Unknown(npm->Err_0@)
            &&& no_npm && deno is Err ==> r == NpmRemoval::Unknown(deno->Err_0@)
        }),
{
}

/// The command that removes a package calls its manager and names the package last.
pub proof fn law_removals_name_their_package(method: InstallMethod, package: Seq<char>)
    ensures
        ({
            let c = npm_removal_command(method, package);
            &&& c.program == method.name()
            &&& c.args.len() == 3
            &&& c.args[0] == "uninstall"@
            &&& c.args[1] == "--global"@
            &&& c.args[2] == package
            &&& package.is_suffix_of(c.subject)
        }),
{
    let subject = npm_removal_command(method, package).subject;
    assert(subject.skip(subject.len() - package.len()) =~= package);
}

/// Outcomes with the same view agree on everything.
pub proof fn law_outcome_views_hold_every_field(a: UninstallOutcome, b: UninstallOutcome)
    requires
        a@ == b@,
    ensures
        a matches UninstallOutcome::Cache { agent_id } ==> b is Cache && agent_id@
            == b->Cache_agent_id@,
        a matches UninstallOutcome::PackageManager { agent_id, method, package } ==> b
            is PackageManager && agent_id@ == b->PackageManager_agent_id@ && method == b->method
            && package@ == b->package@,
{
}

/// A Python package is removed by uv, under its own name, and an npm package by the manager that is
/// there; it is refused where there is none.
pub proof fn law_managers_remove_their_packages(
    agent_id: &str,
    package: &str,
    uv: Removal,
    npm: Result<bool, Failure>,
    deno: Result<bool, Failure>,
    r: Result<Removal, Failure>,
)
    requires
        call_ensures(uninstall_uvx_package, (agent_id, package), uv),
        call_ensures(uninstall_npx_package, (agent_id, package, npm, deno), r),
    ensures
        uv.command@.program == "uv"@,
        uv.command@.args.len() == 3,
        uv.command@.args[1] == "uninstall"@,
        uv.command@.args.last() == package@,
        uv.outcome@ == (UninstallOutcomeView::PackageManager {
            agent_id: agent_id@,
            method: InstallMethod::Uvx,
            package: package@,
        }),
        r is Ok <==> npm is Ok && (npm->Ok_0 || deno is Ok && deno->Ok_0),
        r is Ok ==> {
            let outcome = r->Ok_0.outcome@;
            let command = r->Ok_0.command@;
            &&& outcome is PackageManager
            &&& outcome->PackageManager_agent_id == agent_id@
            &&& outcome->method is Npm <==> npm->Ok_0
            &&& outcome->method is Deno <==> !npm->Ok_0
            &&& command.program == outcome->method.name()
            &&& command.args.first() == "uninstall"@
            &&& command.args.last() == outcome->package
            &&& is_bare_name(package@, outcome->package)
        },
{
}

} // verus!
