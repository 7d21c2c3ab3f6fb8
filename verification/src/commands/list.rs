//! Listing the agents of the registry.

use vstd::prelude::*;
use crate::commands;
use crate::commands::agents;
use crate::commands::agents::{write_registry_agents, ListedAgent};
use crate::order;
use crate::order::sort;
use crate::registry::{Registry, RegistryAgent};

verus! {

/// The agents of a registry, in its order.
pub open spec fn listed_agents<'a>(agents: Seq<RegistryAgent>) -> Seq<ListedAgent<'a>> {
    agents.map_values(|a: RegistryAgent| ListedAgent { agent: &a })
}

fn all_agents(registry: &Registry) -> (r: Vec<ListedAgent<'_>>)
    ensures
        r@ == listed_agents(registry.agents@),
{
    let agents = registry.list_agents();
    let mut all: Vec<ListedAgent<'_>> = Vec::new();
    let mut i: usize = 0;
    while i < agents.len()
        invariant
            i <= agents.len(),
            all.len() == i,
            forall|k: int| 0 <= k < i ==> *(#[trigger] all@[k]).agent == agents@[k],
        decreases agents.len() - i,
    {
        all.push(ListedAgent { agent: &agents[i] });
        i += 1;
    }
    assert(all@ =~= listed_agents(registry.agents@));
    all
}

/// Orders the agents of a registry by name without regard to case, and then by id.
pub fn sorted_agents(registry: &Registry) -> (r: Vec<ListedAgent<'_>>)
    ensures
        r@ == order::sorted(listed_agents(registry.agents@)),
        order::in_order(r@),
{
    proof {
        order::lemma_sorted(listed_agents(registry.agents@));
    }
    sort(all_agents(registry))
}

/// Prints the agents of a registry as tab-separated rows of name, id and description.
pub fn write_agent_list(registry: &Registry) -> (r: String)
    ensures
        r@ == commands::lines(
            agents::registry_rows(order::sorted(listed_agents(registry.agents@))),
        ),
{
    write_registry_agents(all_agents(registry))
}

/// The list tells of every agent of the registry, and of nothing else.
pub proof fn law_every_agent_is_listed(registered: Seq<RegistryAgent>, at: int)
    requires
        0 <= at < registered.len(),
    ensures
        agents::registry_rows(order::sorted(listed_agents(registered))).contains(
            agents::registry_row(registered[at]),
        ),
        agents::registry_rows(order::sorted(listed_agents(registered))).len() == registered.len(),
{
    let listed = listed_agents(registered);
    let all = order::sorted(listed);
    assert(listed[at].agent == registered[at]);
    assert(listed.contains(listed[at]));
    order::law_sorting_keeps_everything(listed, listed[at]);
    let i = choose|i: int| 0 <= i < all.len() && all[i] == listed[at];
    assert(agents::registry_rows(all)[i] == agents::registry_row(registered[at]));
}

} // verus!
