//! What the public registry says of agents.

use vstd::prelude::*;
use crate::failure;
use crate::failure::Failure;
use crate::text::same;

verus! {

/// A platform that binary distributions are built for.
#[derive(Debug, Clone, Copy, PartialEq, Eq, Structural)]
pub enum Platform {
    DarwinAarch64,
    DarwinX86_64,
    LinuxAarch64,
    LinuxX86_64,
    WindowsAarch64,
    WindowsX86_64,
}

/// Environment variables with their values.
pub type Environment = Vec<(String, String)>;

/// A binary archive for one platform.
#[derive(Debug, Clone, PartialEq, Eq)]
pub struct BinaryTarget {
    /// URL of the archive.
    pub archive: String,
    /// Path of the executable within the archive.
    pub cmd: String,
    /// SHA-256 digest of the archive in hexadecimal form.
    pub sha256: Option<String>,
    /// Arguments that the agent is always started with.
    pub args: Option<Vec<String>>,
    /// Environment variables that the agent is started with.
    pub env: Option<Environment>,
}

/// The binary archives of an agent, by platform.
#[derive(Debug, Clone, PartialEq, Eq)]
pub struct BinaryDistribution {
    pub darwin_aarch64: Option<BinaryTarget>,
    pub darwin_x86_64: Option<BinaryTarget>,
    pub linux_aarch64: Option<BinaryTarget>,
    pub linux_x86_64: Option<BinaryTarget>,
    pub windows_aarch64: Option<BinaryTarget>,
    pub windows_x86_64: Option<BinaryTarget>,
}

impl Default for BinaryDistribution {
    fn default() -> (r: Self)
        ensures
            forall|platform: Platform| r.target(platform) is None,
    {
        BinaryDistribution {
            darwin_aarch64: None,
            darwin_x86_64: None,
            linux_aarch64: None,
            linux_x86_64: None,
            windows_aarch64: None,
            windows_x86_64: None,
        }
    }
}

impl BinaryDistribution {
    /// The archive for `platform`.
    pub open spec fn target(self, platform: Platform) -> Option<BinaryTarget> {
        match platform {
            Platform::DarwinAarch64 => self.darwin_aarch64,
            Platform::DarwinX86_64 => self.darwin_x86_64,
            Platform::LinuxAarch64 => self.linux_aarch64,
            Platform::LinuxX86_64 => self.linux_x86_64,
            Platform::WindowsAarch64 => self.windows_aarch64,
            Platform::WindowsX86_64 => self.windows_x86_64,
        }
    }

    /// Gives the archive for `platform`.
    pub fn for_platform(&self, platform: Platform) -> (r: Option<&BinaryTarget>)
        ensures
            match r {
                Some(target) => self.target(platform) == Some(*target),
                None => self.target(platform) is None,
            },
    {
        match platform {
            Platform::DarwinAarch64 => self.darwin_aarch64.as_ref(),
            Platform::DarwinX86_64 => self.darwin_x86_64.as_ref(),
            Platform::LinuxAarch64 => self.linux_aarch64.as_ref(),
            Platform::LinuxX86_64 => self.linux_x86_64.as_ref(),
            Platform::WindowsAarch64 => self.windows_aarch64.as_ref(),
            Platform::WindowsX86_64 => self.windows_x86_64.as_ref(),
        }
    }
}

/// An npm package that holds an agent.
#[derive(Debug, Clone, PartialEq, Eq)]
pub struct NpxDistribution {
    pub package: String,
    pub args: Option<Vec<String>>,
    pub env: Option<Environment>,
}

/// A Python package that holds an agent.
#[derive(Debug, Clone, PartialEq, Eq)]
pub struct UvxDistribution {
    pub package: String,
    pub args: Option<Vec<String>>,
    pub env: Option<Environment>,
}

/// The ways in which an agent is distributed.
#[derive(Debug, Clone, PartialEq, Eq)]
pub struct AgentDistribution {
    pub binary: Option<BinaryDistribution>,
    pub npx: Option<NpxDistribution>,
    pub uvx: Option<UvxDistribution>,
}

/// An agent of the registry.
#[derive(Debug, Clone, PartialEq, Eq)]
pub struct RegistryAgent {
    pub id: String,
    pub name: String,
    pub version: String,
    pub description: String,
    pub repository: Option<String>,
    pub website: Option<String>,
    pub authors: Vec<String>,
    pub license: String,
    pub icon: Option<String>,
    pub distribution: AgentDistribution,
}

/// The registry's agents.
#[derive(Debug, Clone, PartialEq, Eq)]
pub struct Registry {
    pub version: String,
    pub agents: Vec<RegistryAgent>,
}

/// Whether `at` is the place of the first agent with the given id.
pub open spec fn is_first_with_id(agents: Seq<RegistryAgent>, id: Seq<char>, at: int) -> bool {
    &&& 0 <= at < agents.len()
    &&& agents[at].id@ == id
    &&& forall|k: int| 0 <= k < at ==> (#[trigger] agents[k]).id@ != id
}

/// Whether no agent has the given id.
pub open spec fn has_no_id(agents: Seq<RegistryAgent>, id: Seq<char>) -> bool {
    forall|k: int| 0 <= k < agents.len() ==> (#[trigger] agents[k]).id@ != id
}

impl Registry {
    /// All agents, in the registry's order.
    pub fn list_agents(&self) -> (r: &Vec<RegistryAgent>)
        ensures
            *r == self.agents,
    {
        &self.agents
    }

    /// Looks an agent up by its id.
    pub fn find_agent(&self, id: &str) -> (r: Option<&RegistryAgent>)
        ensures
            match r {
                Some(agent) => exists|at: int|
                    is_first_with_id(self.agents@, id@, at) && *agent == #[trigger] self.agents@[at],
                None => has_no_id(self.agents@, id@),
            },
    {
        let mut i: usize = 0;
        while i < self.agents.len()
            invariant
                i <= self.agents.len(),
                forall|k: int| 0 <= k < i ==> (#[trigger] self.agents@[k]).id@ != id@,
            decreases self.agents.len() - i,
        {
            if same(self.agents[i].id.as_str(), id) {
                assert(is_first_with_id(self.agents@, id@, i as int));
                return Some(&self.agents[i]);
            }
            i += 1;
        }
        None
    }

    /// Looks an agent up by its id; an unknown id is a failure.
    pub fn get_agent(&self, id: &str) -> (r: Result<&RegistryAgent, Failure>)
        ensures
            match r {
                Ok(agent) => exists|at: int|
                    is_first_with_id(self.agents@, id@, at) && *agent == #[trigger] self.agents@[at],
                Err(e) => has_no_id(self.agents@, id@) && e@ == failure::failure(
                    "agent \""@ + id@ + "\" not found in registry"@,
                ),
            },
    {
        match self.find_agent(id) {
            Some(agent) => Ok(agent),
            None => Err(
                Failure::new(
                    "agent \"".to_owned().concat(id).concat("\" not found in registry"),
                ),
            ),
        }
    }
}

/// Every platform has the archive that stands under its own name.
pub proof fn law_archives_are_of_their_platform(d: BinaryDistribution)
    ensures
        d.target(Platform::DarwinAarch64) == d.darwin_aarch64,
        d.target(Platform::DarwinX86_64) == d.darwin_x86_64,
        d.target(Platform::LinuxAarch64) == d.linux_aarch64,
        d.target(Platform::LinuxX86_64) == d.linux_x86_64,
        d.target(Platform::WindowsAarch64) == d.windows_aarch64,
        d.target(Platform::WindowsX86_64) == d.windows_x86_64,
{
}

/// An agent that is in the registry is found, and what is found has the id that was asked for and
/// stands before all others that have it.
pub proof fn law_agents_are_found_by_id(agents: Seq<RegistryAgent>, id: Seq<char>, k: int)
    requires
        0 <= k < agents.len(),
        agents[k].id@ == id,
    ensures
        !has_no_id(agents, id),
        exists|at: int| #[trigger] is_first_with_id(agents, id, at) && at <= k,
        forall|at: int| #[trigger]
            is_first_with_id(agents, id, at) ==> 0 <= at <= k && agents[at].id@ == id,
        forall|at: int, other: int| #[trigger]
            is_first_with_id(agents, id, at) && #[trigger] is_first_with_id(agents, id, other)
                ==> at == other,
    decreases k,
{
    if exists|j: int| 0 <= j < k && (#[trigger] agents[j]).id@ == id {
        let j = choose|j: int| 0 <= j < k && (#[trigger] agents[j]).id@ == id;
        law_agents_are_found_by_id(agents, id, j);
    } else {
        assert(is_first_with_id(agents, id, k));
    }
}

/// Where no agent is found, none of them has the id.
pub proof fn law_unknown_ids_are_nowhere(agents: Seq<RegistryAgent>, id: Seq<char>, k: int)
    requires
        has_no_id(agents, id),
        0 <= k < agents.len(),
    ensures
        agents[k].id@ != id,
        forall|at: int| !#[trigger] is_first_with_id(agents, id, at),
{
}

/// What is given for a platform is the archive that the distribution holds for that very platform,
/// and nothing exactly if it holds none.
pub proof fn law_platforms_get_their_own_archive(
    d: BinaryDistribution,
    platform: Platform,
    r: Option<&BinaryTarget>,
)
    requires
        call_ensures(BinaryDistribution::for_platform, (&d, platform), r),
    ensures
        ({
            let given = match r {
                Some(target) => Some(*target),
                None => None,
            };
            &&& platform is DarwinAarch64 ==> given == d.darwin_aarch64
            &&& platform is DarwinX86_64 ==> given == d.darwin_x86_64
            &&& platform is LinuxAarch64 ==> given == d.linux_aarch64
            &&& platform is LinuxX86_64 ==> given == d.linux_x86_64
            &&& platform is WindowsAarch64 ==> given == d.windows_aarch64
            &&& platform is WindowsX86_64 ==> given == d.windows_x86_64
        }),
{
}

/// The agent that is found has the id that was asked for, and one is found whenever there is one.
pub proof fn law_found_agents_have_the_id(
    registry: Registry,
    id: &str,
    found: Option<&RegistryAgent>,
    got: Result<&RegistryAgent, Failure>,
    k: int,
)
    requires
        call_ensures(Registry::find_agent, (&registry, id), found),
        call_ensures(Registry::get_agent, (&registry, id), got),
    ensures
        found is Some ==> found->Some_0.id@ == id@ && registry.agents@.contains(*found->Some_0),
        got is Ok ==> got->Ok_0.id@ == id@ && registry.agents@.contains(*got->Ok_0),
        0 <= k < registry.agents.len() && registry.agents@[k].id@ == id@ ==> found is Some && got
            is Ok,
        found is Some <==> got is Ok,
{
    if 0 <= k < registry.agents.len() && registry.agents@[k].id@ == id@ {
        law_agents_are_found_by_id(registry.agents@, id@, k);
    }
    if found is Some {
        let at = choose|at: int|
            is_first_with_id(registry.agents@, id@, at) && *found->Some_0
                == #[trigger] registry.agents@[at];
        assert(registry.agents@[at].id@ == id@);
    }
    if got is Ok {
        let at = choose|at: int|
            is_first_with_id(registry.agents@, id@, at) && *got->Ok_0
                == #[trigger] registry.agents@[at];
        assert(registry.agents@[at].id@ == id@);
    }
}

} // verus!
