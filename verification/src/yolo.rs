//! Startup arguments that make an agent approve everything by itself.

use vstd::prelude::*;
use crate::failure;
use crate::failure::{Failure, FailureView};
use crate::runner::push_texts;
use crate::text::same;

verus! {

/// The arguments for one agent.
#[derive(Debug, Clone, PartialEq, Eq)]
pub struct YoloMode {
    /// The arguments, each on its own.
    pub args: Vec<String>,
}

/// The arguments for one agent, with the agent's registry id.
#[derive(Debug, Clone, PartialEq, Eq)]
pub struct YoloEntry {
    pub agent_id: String,
    pub mode: YoloMode,
}

/// The catalog of arguments.
#[derive(Debug, Clone, PartialEq, Eq)]
pub struct YoloModes {
    /// Version of the catalog's schema.
    pub version: u64,
    /// The entries; each agent occurs at most once.
    pub agents: Vec<YoloEntry>,
}

impl YoloModes {
    /// Whether each agent occurs at most once.
    pub open spec fn is_catalog(self) -> bool {
        forall|i: int, j: int|
            0 <= i < j < self.agents@.len() ==> (#[trigger] self.agents@[i]).agent_id@ != (
            #[trigger] self.agents@[j]).agent_id@
    }

    /// The arguments for an agent, if the catalog has any.
    pub open spec fn lookup(self, agent_id: Seq<char>) -> Option<Seq<Seq<char>>> {
        if exists|i: int| 0 <= i < self.agents@.len() && self.agents@[i].agent_id@ == agent_id {
            let i = choose|i: int|
                0 <= i < self.agents@.len() && self.agents@[i].agent_id@ == agent_id;
            Some(self.agents@[i].mode.args.deep_view())
        } else {
            None
        }
    }

    /// Makes a catalog; of several entries for one agent the last one counts.
    pub fn new(version: u64, entries: Vec<YoloEntry>) -> (r: YoloModes)
        ensures
            r.version == version,
            r.is_catalog(),
            forall|id: Seq<char>| #[trigger] r.lookup(id) == last_args(entries@, id),
    {
        let mut agents: Vec<YoloEntry> = Vec::new();
        let ghost all = entries@;
        let ghost mut n: int = 0;
        for entry in it: entries
            invariant
                it.seq() == all,
                n == it.index(),
                (YoloModes { version, agents }).is_catalog(),
                forall|id: Seq<char>| #[trigger]
                    (YoloModes { version, agents }).lookup(id) == last_args(all.take(n), id),
        {
            let ghost before = YoloModes { version, agents };
            let ghost old_agents = agents@;
            let mut i: usize = 0;
            while i < agents.len() && !same(agents[i].agent_id.as_str(), entry.agent_id.as_str())
                invariant
                    i <= agents.len(),
                    agents@ == old_agents,
                    forall|k: int|
                        0 <= k < i ==> (#[trigger] old_agents[k]).agent_id@ != entry.agent_id@,
                decreases agents.len() - i,
            {
                i += 1;
            }
            if i < agents.len() {
                agents.remove(i);
                agents.insert(i, entry);
                assert(agents@ == old_agents.update(i as int, entry));
            } else {
                agents.push(entry);
            }
            proof {
                let after = YoloModes { version, agents };
                let place = i as int;
                assert(all.take(n + 1).drop_last() == all.take(n));
                assert(all.take(n + 1).last() == entry);
                assert(after.agents@[place] == entry);
                assert forall|j: int| 0 <= j < after.agents@.len() && j != place implies (
                #[trigger] after.agents@[j]) == old_agents[j] && old_agents[j].agent_id@
                    != entry.agent_id@ by {
                    if place < old_agents.len() {
                        assert(old_agents[place].agent_id@ == entry.agent_id@);
                    }
                }
                assert(after.is_catalog());
                assert forall|id: Seq<char>| #[trigger] after.lookup(id) == last_args(
                    all.take(n + 1),
                    id,
                ) by {
                    assert(before.lookup(id) == last_args(all.take(n), id));
                    if id == entry.agent_id@ {
                        lemma_lookup(after, place);
                    } else if before.lookup(id) is Some {
                        let k = choose|k: int|
                            0 <= k < old_agents.len() && old_agents[k].agent_id@ == id;
                        lemma_lookup(before, k);
                        assert(after.agents@[k] == old_agents[k]);
                        lemma_lookup(after, k);
                    } else if after.lookup(id) is Some {
                        let k = choose|k: int|
                            0 <= k < after.agents@.len() && after.agents@[k].agent_id@ == id;
                        assert(k != place);
                        assert(old_agents[k].agent_id@ == id);
                        assert(before.agents@[k].agent_id@ == id);
                        assert(false);
                    }
                }
                n = n + 1;
            }
        }
        assert(all.take(all.len() as int) == all);
        YoloModes { version, agents }
    }

    /// Looks up the arguments for an agent.
    pub fn find(&self, agent_id: &str) -> (r: Option<&YoloMode>)
        requires
            self.is_catalog(),
        ensures
            match r {
                Some(mode) => self.lookup(agent_id@) == Some(mode.args.deep_view()),
                None => self.lookup(agent_id@) is None,
            },
    {
        let mut i: usize = 0;
        while i < self.agents.len()
            invariant
                i <= self.agents.len(),
                self.is_catalog(),
                forall|k: int| 0 <= k < i ==> (#[trigger] self.agents@[k]).agent_id@ != agent_id@,
            decreases self.agents.len() - i,
        {
            if same(self.agents[i].agent_id.as_str(), agent_id) {
                proof {
                    lemma_lookup(*self, i as int);
                }
                return Some(&self.agents[i].mode);
            }
            i += 1;
        }
        None
    }
}

/// The arguments of the last entry for an agent.
pub open spec fn last_args(entries: Seq<YoloEntry>, agent_id: Seq<char>) -> Option<Seq<Seq<char>>>
    decreases entries.len(),
{
    if entries.len() == 0 {
        None
    } else if entries.last().agent_id@ == agent_id {
        Some(entries.last().mode.args.deep_view())
    } else {
        last_args(entries.drop_last(), agent_id)
    }
}

proof fn lemma_lookup(catalog: YoloModes, i: int)
    requires
        catalog.is_catalog(),
        0 <= i < catalog.agents@.len(),
    ensures
        catalog.lookup(catalog.agents@[i].agent_id@) == Some(
            catalog.agents@[i].mode.args.deep_view(),
        ),
{
    let id = catalog.agents@[i].agent_id@;
    let k = choose|k: int| 0 <= k < catalog.agents@.len() && catalog.agents@[k].agent_id@ == id;
    if k < i {
        assert(catalog.agents@[k].agent_id@ != catalog.agents@[i].agent_id@);
    } else if i < k {
        assert(catalog.agents@[i].agent_id@ != catalog.agents@[k].agent_id@);
    }
}

/// The failure for an agent that the catalog does not know.
pub open spec fn unmapped(agent_id: Seq<char>) -> FailureView {
    failure::failure(
        "no yolo mode mapping known for agent \""@ + agent_id
            + "\"; add an entry to data/yolo-modes.json or pass the agent's own arguments explicitly"@,
    )
}

/// Gives the arguments for an agent.
pub fn yolo_extra_args_from(catalog: &YoloModes, agent_id: &str) -> (r: Result<
    Vec<String>,
    Failure,
>)
    requires
        catalog.is_catalog(),
    ensures
        match r {
            Ok(args) => catalog.lookup(agent_id@) == Some(args.deep_view()),
            Err(e) => catalog.lookup(agent_id@) is None && e@ == unmapped(agent_id@),
        },
{
    match catalog.find(agent_id) {
        None => Err(
            Failure::new(
                "no yolo mode mapping known for agent \"".to_owned().concat(agent_id).concat(
                    "\"; add an entry to data/yolo-modes.json or pass the agent's own arguments explicitly",
                ),
            ),
        ),
        Some(mode) => {
            let mut args: Vec<String> = Vec::new();
            assert(args.deep_view() == Seq::<Seq<char>>::empty());
            push_texts(&mut args, &mode.args);
            assert(args.deep_view() == mode.args.deep_view());
            Ok(args)
        },
    }
}

/// Puts the arguments for the agent in front of `args` where that is asked for. The catalog is
/// looked at in that case only.
pub fn resolve_args(
    agent_id: &str,
    enabled: bool,
    args: Vec<String>,
    catalog: Option<&YoloModes>,
) -> (r: Result<Vec<String>, Failure>)
    requires
        enabled ==> catalog is Some && catalog->Some_0.is_catalog(),
    ensures
        match r {
            Ok(all) => if enabled {
                catalog->Some_0.lookup(agent_id@) is Some && all.deep_view()
                    == catalog->Some_0.lookup(agent_id@)->Some_0 + args.deep_view()
            } else {
                all.deep_view() == args.deep_view()
            },
            Err(e) => enabled && catalog->Some_0.lookup(agent_id@) is None && e@ == unmapped(
                agent_id@,
            ),
        },
{
    if !enabled {
        return Ok(args);
    }
    match catalog {
        None => Ok(args),
        Some(catalog) => {
            let mut all = yolo_extra_args_from(catalog, agent_id)?;
            push_texts(&mut all, &args);
            Ok(all)
        },
    }
}

/// The catalog that is used, and what there is to say about it.
#[derive(Debug)]
pub struct CatalogChoice {
    pub catalog: YoloModes,
    /// A warning for the user.
    pub warning: Option<String>,
}

/// Chooses the published catalog, or the bundled one where the published one could not be had.
/// Where neither could be had, the failure is that of the bundled one.
pub fn choose_catalog(
    published: Result<YoloModes, Failure>,
    bundled: Result<YoloModes, Failure>,
) -> (r: Result<CatalogChoice, Failure>)
    ensures
        match (published, bundled) {
            (Ok(catalog), _) => r matches Ok(choice) && choice.catalog == catalog
                && choice.warning is None,
            (Err(e), Ok(catalog)) => r matches Ok(choice) && choice.catalog == catalog
                && choice.warning is Some && choice.warning->Some_0@ == "warning: "@ + e@.message
                + "; using the yolo-mode catalog bundled with this release"@,
            (Err(_), Err(e)) => r matches Err(got) && got@ == e@,
        },
{
    match published {
        Ok(catalog) => Ok(CatalogChoice { catalog, warning: None }),
        Err(e) => match bundled {
            Ok(catalog) => {
                let words = "warning: ".to_owned().concat(e.message.as_str()).concat(
                    "; using the yolo-mode catalog bundled with this release",
                );
                Ok(CatalogChoice { catalog, warning: Some(words) })
            },
            Err(missing) => Err(missing),
        },
    }
}

/// What a catalog has for an agent is what its entry holds, argument by argument, and an agent
/// without an entry has nothing.
pub proof fn law_lookup_gives_the_agents_own_arguments(
    catalog: YoloModes,
    i: int,
    agent_id: Seq<char>,
)
    requires
        catalog.is_catalog(),
        0 <= i < catalog.agents@.len(),
    ensures
        catalog.lookup(catalog.agents@[i].agent_id@) is Some,
        ({
            let args = catalog.lookup(catalog.agents@[i].agent_id@)->Some_0;
            let stored = catalog.agents@[i].mode.args@;
            args.len() == stored.len() && forall|k: int|
                0 <= k < stored.len() ==> args[k] == (#[trigger] stored[k])@
        }),
        (forall|k: int|
            0 <= k < catalog.agents@.len() ==> (#[trigger] catalog.agents@[k]).agent_id@
                != agent_id) ==> catalog.lookup(agent_id) is None,
{
    let id = catalog.agents@[i].agent_id@;
    let k = choose|k: int| 0 <= k < catalog.agents@.len() && catalog.agents@[k].agent_id@ == id;
    assert(k == i) by {
        if k < i {
            assert(catalog.agents@[k].agent_id@ != catalog.agents@[i].agent_id@);
        } else if i < k {
            assert(catalog.agents@[i].agent_id@ != catalog.agents@[k].agent_id@);
        }
    }
    let stored = catalog.agents@[i].mode.args;
    assert forall|j: int| 0 <= j < stored@.len() implies stored.deep_view()[j] == (
    #[trigger] stored@[j])@ by {}
}

/// Of several entries for an agent, the one that no other follows is the one that counts.
pub proof fn law_the_last_entry_counts(entries: Seq<YoloEntry>, at: int)
    requires
        0 <= at < entries.len(),
        forall|k: int|
            at < k < entries.len() ==> (#[trigger] entries[k]).agent_id@ != entries[at].agent_id@,
    ensures
        last_args(entries, entries[at].agent_id@) == Some(entries[at].mode.args.deep_view()),
    decreases entries.len(),
{
    if at < entries.len() - 1 {
        let front = entries.drop_last();
        assert(entries.last() == entries[entries.len() - 1]);
        assert forall|k: int| at < k < front.len() implies (#[trigger] front[k]).agent_id@
            != front[at].agent_id@ by {
            assert(front[k] == entries[k]);
        }
        law_the_last_entry_counts(front, at);
    }
}

/// An agent that no entry names has no arguments.
pub proof fn law_unnamed_agents_have_no_entry(entries: Seq<YoloEntry>, agent_id: Seq<char>)
    requires
        forall|k: int| 0 <= k < entries.len() ==> (#[trigger] entries[k]).agent_id@ != agent_id,
    ensures
        last_args(entries, agent_id) is None,
    decreases entries.len(),
{
    if entries.len() > 0 {
        assert(entries.last() == entries[entries.len() - 1]);
        assert forall|k: int| 0 <= k < entries.drop_last().len() implies (
        #[trigger] entries.drop_last()[k]).agent_id@ != agent_id by {
            assert(entries.drop_last()[k] == entries[k]);
        }
        law_unnamed_agents_have_no_entry(entries.drop_last(), agent_id);
    }
}

/// Arguments come behind those of the mode where it is asked for, and are passed on as they are
/// where it is not; only an agent without an entry, and only where the mode is asked for, is refused.
pub proof fn law_modes_only_add_arguments(
    agent_id: &str,
    enabled: bool,
    args: Vec<String>,
    catalog: Option<&YoloModes>,
    r: Result<Vec<String>, Failure>,
)
    requires
        enabled ==> catalog is Some && catalog->Some_0.is_catalog(),
        call_ensures(resolve_args, (agent_id, enabled, args, catalog), r),
    ensures
        r is Err <==> enabled && catalog->Some_0.lookup(agent_id@) is None,
        r is Ok ==> args.deep_view().is_suffix_of(r->Ok_0.deep_view()),
        !enabled ==> r is Ok && r->Ok_0.deep_view() == args.deep_view(),
        r is Ok && enabled ==> r->Ok_0.len() == catalog->Some_0.lookup(agent_id@)->Some_0.len()
            + args.len() && catalog->Some_0.lookup(agent_id@)->Some_0.is_prefix_of(
            r->Ok_0.deep_view(),
        ),
{
    if r is Ok {
        let all = r->Ok_0.deep_view();
        let given = args.deep_view();
        assert(all.skip(all.len() - given.len()) =~= given);
        if enabled {
            let mode = catalog->Some_0.lookup(agent_id@)->Some_0;
            assert(all.take(mode.len() as int) =~= mode);
        }
    }
}

/// The published catalog is used whenever it could be read, else the bundled one, with a warning
/// that says why; without either, what is wrong with the bundled one is told.
pub proof fn law_published_catalogs_come_first(
    published: Result<YoloModes, Failure>,
    bundled: Result<YoloModes, Failure>,
    r: Result<CatalogChoice, Failure>,
)
    requires
        call_ensures(choose_catalog, (published, bundled), r),
    ensures
        r is Err <==> published is Err && bundled is Err,
        published is Ok ==> r->Ok_0.catalog == published->Ok_0,
        published is Err && bundled is Ok ==> r->Ok_0.catalog == bundled->Ok_0,
        r is Ok ==> (r->Ok_0.warning is None <==> published is Ok),
        r is Err ==> r->Err_0@ == bundled->Err_0@,
{
}

} // verus!
