//! Listing agents, and telling what became of installing and removing them.

use vstd::prelude::*;
use crate::commands;
use crate::commands::join_lines;
use crate::installer::agents::{InstallMethod, InstallOutcome, InstalledAgent, UninstallOutcome};
use crate::order;
use crate::order::{sort, texts_before, Keyed};
use crate::registry::RegistryAgent;
use crate::text;
use crate::text::to_ascii_lower;

verus! {

impl Keyed for InstalledAgent {
    open spec fn sort_key(self) -> Seq<Seq<int>> {
        order::texts_key(seq![self.agent_id@, self.agent_version@, self.platform@])
    }

    fn comes_before(&self, other: &Self) -> (r: bool) {
        let a: Vec<String> = vec![
            self.agent_id.clone(),
            self.agent_version.clone(),
            self.platform.clone(),
        ];
        let b: Vec<String> = vec![
            other.agent_id.clone(),
            other.agent_version.clone(),
            other.platform.clone(),
        ];
        assert(a.deep_view() =~= seq![self.agent_id@, self.agent_version@, self.platform@]);
        assert(b.deep_view() =~= seq![other.agent_id@, other.agent_version@, other.platform@]);
        texts_before(&a, &b)
    }
}

/// Orders installed agents by id, version and platform.
pub fn sorted_installed_agents(agents: Vec<InstalledAgent>) -> (r: Vec<InstalledAgent>)
    ensures
        r@ == order::sorted(agents@),
        order::in_order(r@),
        r@.to_multiset() == agents@.to_multiset(),
{
    proof {
        order::lemma_sorted(agents@);
    }
    sort(agents)
}

/// The row of an installed agent.
pub open spec fn installed_row(agent: InstalledAgent) -> Seq<char> {
    agent.agent_id@ + "\t"@ + agent.agent_version@ + "\t"@ + agent.platform@ + "\t"@
        + agent.cache_dir@
}

/// The rows of installed agents, one by one.
pub open spec fn installed_rows(agents: Seq<InstalledAgent>) -> Seq<Seq<char>> {
    agents.map_values(|a: InstalledAgent| installed_row(a))
}

/// Prints installed agents as tab-separated rows, ordered by id, version and platform.
pub fn write_installed_agents(agents: Vec<InstalledAgent>) -> (r: String)
    ensures
        r@ == commands::lines(installed_rows(order::sorted(agents@))),
{
    let agents = sorted_installed_agents(agents);
    let mut rows: Vec<String> = Vec::new();
    let mut i: usize = 0;
    while i < agents.len()
        invariant
            i <= agents.len(),
            rows.len() == i,
            forall|k: int| 0 <= k < i ==> (#[trigger] rows@[k])@ == installed_row(agents@[k]),
        decreases agents.len() - i,
    {
        let agent = &agents[i];
        rows.push(
            agent.agent_id.clone().concat("\t").concat(agent.agent_version.as_str()).concat(
                "\t",
            ).concat(agent.platform.as_str()).concat("\t").concat(agent.cache_dir.as_str()),
        );
        i += 1;
    }
    assert(rows.deep_view() =~= installed_rows(agents@));
    join_lines(&rows)
}

/// A registry agent in a list.
#[derive(Debug)]
pub struct ListedAgent<'a> {
    pub agent: &'a RegistryAgent,
}

impl<'a> Keyed for ListedAgent<'a> {
    open spec fn sort_key(self) -> Seq<Seq<int>> {
        order::texts_key(seq![text::ascii_lower(self.agent.name@), self.agent.id@])
    }

    fn comes_before(&self, other: &Self) -> (r: bool) {
        let a: Vec<String> = vec![
            to_ascii_lower(self.agent.name.as_str()),
            self.agent.id.clone(),
        ];
        let b: Vec<String> = vec![
            to_ascii_lower(other.agent.name.as_str()),
            other.agent.id.clone(),
        ];
        assert(a.deep_view() =~= seq![text::ascii_lower(self.agent.name@), self.agent.id@]);
        assert(b.deep_view() =~= seq![text::ascii_lower(other.agent.name@), other.agent.id@]);
        texts_before(&a, &b)
    }
}

/// The row of a registry agent.
pub open spec fn registry_row(agent: RegistryAgent) -> Seq<char> {
    agent.name@ + "\t"@ + agent.id@ + "\t"@ + agent.description@
}

/// The rows of registry agents, one by one.
pub open spec fn registry_rows(agents: Seq<ListedAgent>) -> Seq<Seq<char>> {
    agents.map_values(|a: ListedAgent| registry_row(*a.agent))
}

/// Prints registry agents as tab-separated rows, ordered by name without regard to case, and then
/// by id.
pub fn write_registry_agents(agents: Vec<ListedAgent>) -> (r: String)
    ensures
        r@ == commands::lines(registry_rows(order::sorted(agents@))),
{
    let agents = sort(agents);
    let mut rows: Vec<String> = Vec::new();
    let mut i: usize = 0;
    while i < agents.len()
        invariant
            i <= agents.len(),
            rows.len() == i,
            forall|k: int|
                0 <= k < i ==> (#[trigger] rows@[k])@ == registry_row(*agents@[k].agent),
        decreases agents.len() - i,
    {
        let agent: &RegistryAgent = agents[i].agent;
        rows.push(
            agent.name.clone().concat("\t").concat(agent.id.as_str()).concat("\t").concat(
                agent.description.as_str(),
            ),
        );
        i += 1;
    }
    assert(rows.deep_view() =~= registry_rows(agents@));
    join_lines(&rows)
}

/// What is told of an installation.
pub struct InstallMessage<'a>(pub &'a InstallOutcome);

/// The words about an installation. Deno has no launcher to install: it only prepares its cache.
pub open spec fn install_words(outcome: InstallOutcome) -> Seq<char> {
    match outcome {
        InstallOutcome::Binary { agent_id, executable_path, cache_dir, .. } => "Installed "@
            + agent_id@ + " binary at "@ + executable_path@ + " (cache: "@ + cache_dir@ + ")"@,
        InstallOutcome::PackageManager { agent_id, method, package } => match method {
            InstallMethod::Npm => "Installed "@ + agent_id@ + " via npm: "@ + package@,
            InstallMethod::Deno => "Prepared "@ + agent_id@ + " via deno cache: "@ + package@,
            InstallMethod::Uvx => "Installed "@ + agent_id@ + " via uv: "@ + package@,
        },
    }
}

impl<'a> InstallMessage<'a> {
    /// The message as text.
    pub fn to_text(&self) -> (r: String)
        ensures
            r@ == install_words(*self.0),
    {
        match self.0 {
            InstallOutcome::Binary { agent_id, executable_path, cache_dir, .. } => {
                "Installed ".to_owned().concat(agent_id.as_str()).concat(" binary at ").concat(
                    executable_path.as_str(),
                ).concat(" (cache: ").concat(cache_dir.as_str()).concat(")")
            },
            InstallOutcome::PackageManager { agent_id, method, package } => match method {
                InstallMethod::Npm => "Installed ".to_owned().concat(agent_id.as_str()).concat(
                    " via npm: ",
                ).concat(package.as_str()),
                InstallMethod::Deno => "Prepared ".to_owned().concat(agent_id.as_str()).concat(
                    " via deno cache: ",
                ).concat(package.as_str()),
                InstallMethod::Uvx => "Installed ".to_owned().concat(agent_id.as_str()).concat(
                    " via uv: ",
                ).concat(package.as_str()),
            },
        }
    }
}

/// What is told of a removal.
pub struct UninstallMessage<'a>(pub &'a UninstallOutcome);

/// The words about a removal.
pub open spec fn uninstall_words(outcome: UninstallOutcome) -> Seq<char> {
    match outcome {
        UninstallOutcome::Cache { agent_id, .. } => "Uninstalled "@ + agent_id@
            + " from the local cache"@,
        UninstallOutcome::PackageManager { agent_id, method, package } => "Uninstalled "@
            + agent_id@ + " via "@ + method.name() + ": "@ + package@,
        UninstallOutcome::RunnerManaged { agent_id, runner } => "Nothing to uninstall for "@
            + agent_id@ + ": its package is cached by "@ + runner.program_name()
            + ", which manages its own cache"@,
    }
}

impl<'a> UninstallMessage<'a> {
    /// The message as text.
    pub fn to_text(&self) -> (r: String)
        ensures
            r@ == uninstall_words(*self.0),
    {
        match self.0 {
            UninstallOutcome::Cache { agent_id, .. } => "Uninstalled ".to_owned().concat(
                agent_id.as_str(),
            ).concat(" from the local cache"),
            UninstallOutcome::PackageManager { agent_id, method, package } => {
                "Uninstalled ".to_owned().concat(agent_id.as_str()).concat(" via ").concat(
                    method.label(),
                ).concat(": ").concat(package.as_str())
            },
            UninstallOutcome::RunnerManaged { agent_id, runner } => {
                "Nothing to uninstall for ".to_owned().concat(agent_id.as_str()).concat(
                    ": its package is cached by ",
                ).concat(runner.to_text().as_str()).concat(", which manages its own cache")
            },
        }
    }
}

/// What is warned of beside an installation.
pub open spec fn install_cautions(outcome: InstallOutcome) -> Seq<Seq<char>> {
    match outcome {
        InstallOutcome::Binary { agent_id, stale_cache_entries_removed: true, .. } => seq![
            "removed stale cached binaries for \""@ + agent_id@ + "\""@,
        ],
        _ => Seq::empty(),
    }
}

/// Warns beside an installation.
pub fn install_warnings(outcome: &InstallOutcome) -> (r: Vec<String>)
    ensures
        r.deep_view() == install_cautions(*outcome),
{
    let mut r: Vec<String> = Vec::new();
    match outcome {
        InstallOutcome::Binary { agent_id, stale_cache_entries_removed, .. } => {
            if *stale_cache_entries_removed {
                r.push(
                    "removed stale cached binaries for \"".to_owned().concat(
                        agent_id.as_str(),
                    ).concat("\""),
                );
            }
        },
        InstallOutcome::PackageManager { .. } => {},
    }
    assert(r.deep_view() =~= install_cautions(*outcome));
    r
}

/// What is warned of beside a removal.
pub open spec fn uninstall_cautions(outcome: UninstallOutcome) -> Seq<Seq<char>> {
    match outcome {
        UninstallOutcome::Cache { agent_id, registry_error: Some(error) } => seq![
            "warning: could not reach the registry; removed cached binaries for \""@ + agent_id@
                + "\" without checking package-manager distributions ("@ + error@ + ")"@,
        ],
        _ => Seq::empty(),
    }
}

/// Warns beside a removal.
pub fn uninstall_warnings(outcome: &UninstallOutcome) -> (r: Vec<String>)
    ensures
        r.deep_view() == uninstall_cautions(*outcome),
{
    let mut r: Vec<String> = Vec::new();
    match outcome {
        UninstallOutcome::Cache { agent_id, registry_error: Some(error) } => {
            r.push(
                "warning: could not reach the registry; removed cached binaries for \"".to_owned().concat(
                agent_id.as_str()).concat(
                    "\" without checking package-manager distributions (",
                ).concat(error.as_str()).concat(")"),
            );
        },
        _ => {},
    }
    assert(r.deep_view() =~= uninstall_cautions(*outcome));
    r
}

/// A row tells of an agent's id, version, platform and directory, with tabs between them.
pub proof fn law_installed_rows_have_four_columns(agent: InstalledAgent)
    ensures
        ({
            let row = installed_row(agent);
            let a = agent.agent_id@.len() as int;
            let b = a + 1 + agent.agent_version@.len();
            let c = b + 1 + agent.platform@.len();
            &&& row.subrange(0, a) == agent.agent_id@
            &&& row[a] == '\t'
            &&& row.subrange(a + 1, b) == agent.agent_version@
            &&& row[b] == '\t'
            &&& row.subrange(b + 1, c) == agent.platform@
            &&& row[c] == '\t'
            &&& row.skip(c + 1) == agent.cache_dir@
        }),
{
    reveal_strlit("\t");
    let row = installed_row(agent);
    let a = agent.agent_id@.len() as int;
    let b = a + 1 + agent.agent_version@.len();
    let c = b + 1 + agent.platform@.len();
    assert(row.subrange(0, a) =~= agent.agent_id@);
    assert(row.subrange(a + 1, b) =~= agent.agent_version@);
    assert(row.subrange(b + 1, c) =~= agent.platform@);
    assert(row.skip(c + 1) =~= agent.cache_dir@);
}

/// Installed agents are listed by id, then by version, then by platform.
pub proof fn law_installed_agents_are_listed_by_id(a: InstalledAgent, b: InstalledAgent)
    ensures
        order::key_before(a.sort_key(), b.sort_key()) <==> {
            let ids = (order::text_codes(a.agent_id@), order::text_codes(b.agent_id@));
            let versions = (
                order::text_codes(a.agent_version@),
                order::text_codes(b.agent_version@),
            );
            let platforms = (order::text_codes(a.platform@), order::text_codes(b.platform@));
            ||| order::codes_before(ids.0, ids.1)
            ||| ids.0 == ids.1 && order::codes_before(versions.0, versions.1)
            ||| ids.0 == ids.1 && versions.0 == versions.1 && order::codes_before(
                platforms.0,
                platforms.1,
            )
        },
{
    order::law_three_parts_decide_in_turn(a.sort_key(), b.sort_key());
}

/// Every installed agent has its row, and there are no others.
pub proof fn law_every_installed_agent_has_a_row(agents: Seq<InstalledAgent>, at: int)
    requires
        0 <= at < agents.len(),
    ensures
        installed_rows(order::sorted(agents)).contains(installed_row(agents[at])),
        installed_rows(order::sorted(agents)).len() == agents.len(),
{
    order::law_sorting_keeps_everything(agents, agents[at]);
    let all = order::sorted(agents);
    assert(agents.contains(agents[at]));
    let i = choose|i: int| 0 <= i < all.len() && all[i] == agents[at];
    assert(installed_rows(all)[i] == installed_row(agents[at]));
}

/// A row tells of an agent's name, id and description, with tabs between them.
pub proof fn law_registry_rows_have_three_columns(agent: RegistryAgent)
    ensures
        ({
            let row = registry_row(agent);
            let a = agent.name@.len() as int;
            let b = a + 1 + agent.id@.len();
            &&& row.subrange(0, a) == agent.name@
            &&& row[a] == '\t'
            &&& row.subrange(a + 1, b) == agent.id@
            &&& row[b] == '\t'
            &&& row.skip(b + 1) == agent.description@
        }),
{
    reveal_strlit("\t");
    let row = registry_row(agent);
    let a = agent.name@.len() as int;
    let b = a + 1 + agent.id@.len();
    assert(row.subrange(0, a) =~= agent.name@);
    assert(row.subrange(a + 1, b) =~= agent.id@);
    assert(row.skip(b + 1) =~= agent.description@);
}

/// Agents are listed by name, whatever its case, and by id where the names are the same.
pub proof fn law_agents_are_listed_by_name(a: ListedAgent, b: ListedAgent)
    ensures
        text::same_letters(a.agent.name@, b.agent.name@) ==> (order::key_before(
            a.sort_key(),
            b.sort_key(),
        ) <==> order::codes_before(
            order::text_codes(a.agent.id@),
            order::text_codes(b.agent.id@),
        )),
        !text::same_letters(a.agent.name@, b.agent.name@) ==> (order::key_before(
            a.sort_key(),
            b.sort_key(),
        ) <==> order::codes_before(
            order::text_codes(text::ascii_lower(a.agent.name@)),
            order::text_codes(text::ascii_lower(b.agent.name@)),
        )),
{
    let x = text::ascii_lower(a.agent.name@);
    let y = text::ascii_lower(b.agent.name@);
    text::law_lower_case_forgets_case_only(a.agent.name@, b.agent.name@);
    order::law_first_parts_decide(a.sort_key(), b.sort_key());
    order::lemma_codes_irreflexive(order::text_codes(x));
    if order::text_codes(x) == order::text_codes(y) {
        order::law_codes_are_those_of_the_text(x, Seq::empty());
        order::law_codes_are_those_of_the_text(y, Seq::empty());
        assert(x =~= y) by {
            assert forall|i: int| 0 <= i < x.len() implies x[i] == y[i] by {
                assert(order::text_codes(x)[i] == order::text_codes(y)[i]);
            }
        }
    }
}

/// What is said of an installation begins with what was done to which agent, and ends with where it
/// is or which package it was.
pub proof fn law_installations_say_what_was_done(outcome: InstallOutcome)
    ensures
        ({
            let words = install_words(outcome);
            &&& outcome matches InstallOutcome::Binary {
                agent_id,
                executable_path,
                cache_dir,
                ..
            } ==> ("Installed "@ + agent_id@ + " binary at "@ + executable_path@).is_prefix_of(
                words,
            ) && (" (cache: "@ + cache_dir@ + ")"@).is_suffix_of(words)
            &&& outcome matches InstallOutcome::PackageManager { agent_id, method, package } ==> {
                &&& package@.is_suffix_of(words)
                &&& ((if method is Deno {
                    "Prepared "@
                } else {
                    "Installed "@
                }) + agent_id@ + " via "@ + method.name()).is_prefix_of(words)
            }
        }),
{
    let words = install_words(outcome);
    reveal_strlit(" via npm: ");
    reveal_strlit(" via deno cache: ");
    reveal_strlit(" via uv: ");
    reveal_strlit(" via ");
    reveal_strlit("npm");
    reveal_strlit("deno");
    reveal_strlit("uv");
    match outcome {
        InstallOutcome::Binary { agent_id, executable_path, cache_dir, .. } => {
            let head = "Installed "@ + agent_id@ + " binary at "@ + executable_path@;
            let tail = " (cache: "@ + cache_dir@ + ")"@;
            assert(words =~= head + tail);
            assert(words.take(head.len() as int) =~= head);
            assert(words.skip(words.len() - tail.len()) =~= tail);
        },
        InstallOutcome::PackageManager { agent_id, method, package } => {
            let head = (if method is Deno {
                "Prepared "@
            } else {
                "Installed "@
            }) + agent_id@ + " via "@ + method.name();
            let tail = package@;
            assert(words.take(head.len() as int) =~= head);
            assert(words.skip(words.len() - tail.len()) =~= tail);
        },
    }
}

/// What is said of a removal begins with the agent, and tells by what it was removed, or who keeps
/// what it ran from.
pub proof fn law_removals_say_what_was_done(outcome: UninstallOutcome)
    ensures
        ({
            let words = uninstall_words(outcome);
            &&& outcome matches UninstallOutcome::Cache { agent_id, .. } ==> words == "Uninstalled "@
                + agent_id@ + " from the local cache"@
            &&& outcome matches UninstallOutcome::PackageManager { agent_id, method, package }
                ==> ("Uninstalled "@ + agent_id@ + " via "@ + method.name()).is_prefix_of(words)
                && (": "@ + package@).is_suffix_of(words)
            &&& outcome matches UninstallOutcome::RunnerManaged { agent_id, runner } ==> (
            "Nothing to uninstall for "@ + agent_id@).is_prefix_of(words) && (
            runner.program_name() + ", which manages its own cache"@).is_suffix_of(words)
        }),
{
    let words = uninstall_words(outcome);
    match outcome {
        UninstallOutcome::Cache { .. } => {},
        UninstallOutcome::PackageManager { agent_id, method, package } => {
            let head = "Uninstalled "@ + agent_id@ + " via "@ + method.name();
            let tail = ": "@ + package@;
            assert(words =~= head + tail);
            assert(words.take(head.len() as int) =~= head);
            assert(words.skip(words.len() - tail.len()) =~= tail);
        },
        UninstallOutcome::RunnerManaged { agent_id, runner } => {
            let head = "Nothing to uninstall for "@ + agent_id@;
            let tail = runner.program_name() + ", which manages its own cache"@;
            assert(words =~= head + ": its package is cached by "@ + tail);
            assert(words.take(head.len() as int) =~= head);
            assert(words.skip(words.len() - tail.len()) =~= tail);
        },
    }
}

/// A warning is given exactly if something stale was removed, or the registry could not be asked;
/// it names the agent, and what was the matter.
pub proof fn law_warnings_are_given_for_a_reason(
    installed: InstallOutcome,
    uninstalled: UninstallOutcome,
)
    ensures
        install_cautions(installed).len() == if installed is Binary
            && installed->stale_cache_entries_removed {
            1int
        } else {
            0int
        },
        install_cautions(installed).len() > 0 ==> (installed->Binary_agent_id@
            + "\""@).is_suffix_of(install_cautions(installed)[0]),
        uninstall_cautions(uninstalled).len() == if uninstalled is Cache
            && uninstalled->registry_error is Some {
            1int
        } else {
            0int
        },
        uninstall_cautions(uninstalled).len() > 0 ==> (uninstalled->registry_error->Some_0@
            + ")"@).is_suffix_of(uninstall_cautions(uninstalled)[0]),
{
    if install_cautions(installed).len() > 0 {
        let words = install_cautions(installed)[0];
        let tail = installed->Binary_agent_id@ + "\""@;
        assert(words.skip(words.len() - tail.len()) =~= tail);
    }
    if uninstall_cautions(uninstalled).len() > 0 {
        let words = uninstall_cautions(uninstalled)[0];
        let tail = uninstalled->registry_error->Some_0@ + ")"@;
        assert(words.skip(words.len() - tail.len()) =~= tail);
    }
}

} // verus!
