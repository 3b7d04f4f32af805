//! The agent registry: one entry for each agent name, with the capabilities
//! that the agent announced and the time it was last seen.

use crate::text::same_text;
use vstd::prelude::*;
use vstd::string::StringExecFns;

verus! {

/// The name that an agent gets where it announced none.
pub const UNKNOWN_AGENT: &'static str = "unknown";

/// A data kind and whether the agent collects it.
#[derive(Debug, PartialEq, Eq)]
pub struct Capability {
    pub name: String,
    pub enabled: bool,
}

impl Clone for Capability {
    fn clone(&self) -> (r: Self)
        ensures
            r == *self,
    {
        Capability { name: self.name.clone(), enabled: self.enabled }
    }
}

/// A capability as it is announced: the value is `None` where what was
/// announced is no boolean.
#[derive(Debug, PartialEq, Eq)]
pub struct RawCapability {
    pub name: String,
    pub value: Option<bool>,
}

/// An agent of the fleet.
#[derive(Debug, PartialEq, Eq)]
pub struct Agent {
    pub name: String,
    pub last_seen: String,
    pub capabilities: Vec<Capability>,
}

/// What an agent entry holds.
pub struct AgentView {
    pub name: Seq<char>,
    pub last_seen: Seq<char>,
    pub capabilities: Seq<(Seq<char>, bool)>,
}

/// What a list of capabilities holds.
pub open spec fn capability_views(caps: Seq<Capability>) -> Seq<(Seq<char>, bool)> {
    caps.map_values(|c: Capability| (c.name@, c.enabled))
}

/// No two capabilities have the same name.
pub open spec fn distinct_capabilities(caps: Seq<(Seq<char>, bool)>) -> bool {
    forall|i: int, j: int| 0 <= i < j < caps.len() ==> (#[trigger] caps[i]).0 != (#[trigger] caps[j]).0
}

/// The index of the first capability named `name`, from index `from` on.
pub open spec fn capability_index(caps: Seq<(Seq<char>, bool)>, name: Seq<char>, from: int)
    -> Option<int>
    decreases caps.len() - from,
{
    if from < 0 || from >= caps.len() {
        None
    } else if caps[from].0 == name {
        Some(from)
    } else {
        capability_index(caps, name, from + 1)
    }
}

/// The capabilities after one more was announced: it takes the place of the
/// one of its name, or comes last where there is none.
pub open spec fn with_capability(caps: Seq<(Seq<char>, bool)>, name: Seq<char>, enabled: bool)
    -> Seq<(Seq<char>, bool)> {
    match capability_index(caps, name, 0) {
        Some(i) => caps.update(i, (name, enabled)),
        None => caps.push((name, enabled)),
    }
}

/// What a capability is announced as: a value that is no boolean counts as
/// `false`.
pub open spec fn announced_value(c: RawCapability) -> bool {
    match c.value {
        Some(b) => b,
        None => false,
    }
}

/// What a list of announced capabilities means: each name occurs once, at
/// the place where it was first announced, with the value that was announced
/// for it last.
pub open spec fn announced(raw: Seq<RawCapability>) -> Seq<(Seq<char>, bool)>
    decreases raw.len(),
{
    if raw.len() == 0 {
        Seq::empty()
    } else {
        with_capability(announced(raw.drop_last()), raw.last().name@, announced_value(raw.last()))
    }
}

/// What `capability_index` finds is the first capability of that name; it
/// finds one whenever there is one.
pub proof fn lemma_capability_index(caps: Seq<(Seq<char>, bool)>, name: Seq<char>, from: int)
    requires
        0 <= from,
    ensures
        match capability_index(caps, name, from) {
            Some(i) => from <= i < caps.len() && caps[i].0 == name && forall|k: int|
                from <= k < i ==> (#[trigger] caps[k]).0 != name,
            None => forall|k: int| from <= k < caps.len() ==> (#[trigger] caps[k]).0 != name,
        },
    decreases caps.len() - from,
{
    if from < caps.len() && caps[from].0 != name {
        lemma_capability_index(caps, name, from + 1);
    }
}

/// Announcing one more capability keeps each name at one entry.
pub proof fn lemma_with_capability_distinct(
    caps: Seq<(Seq<char>, bool)>,
    name: Seq<char>,
    enabled: bool,
)
    requires
        distinct_capabilities(caps),
    ensures
        distinct_capabilities(with_capability(caps, name, enabled)),
{
    lemma_capability_index(caps, name, 0);
}

/// In what a list of announced capabilities means, each name occurs once.
pub proof fn law_announced_names_occur_once(raw: Seq<RawCapability>)
    ensures
        distinct_capabilities(announced(raw)),
    decreases raw.len(),
{
    if raw.len() > 0 {
        law_announced_names_occur_once(raw.drop_last());
        lemma_with_capability_distinct(
            announced(raw.drop_last()),
            raw.last().name@,
            announced_value(raw.last()),
        );
    }
}

/// The value that was announced last for a name is the one that counts.
pub proof fn law_last_announcement_counts(raw: Seq<RawCapability>)
    requires
        raw.len() > 0,
    ensures
        capability_of(announced(raw), raw.last().name@) == Some(announced_value(raw.last())),
{
    let before = announced(raw.drop_last());
    let name = raw.last().name@;
    let after = announced(raw);
    law_announced_names_occur_once(raw);
    lemma_capability_index(before, name, 0);
    let i = match capability_index(before, name, 0) {
        Some(i) => i,
        None => before.len() as int,
    };
    assert(after[i] == (name, announced_value(raw.last())));
    lemma_capability_of_distinct(after, i);
}

/// Where each name occurs once, the capability of a name is the value of its
/// entry.
pub proof fn lemma_capability_of_distinct(caps: Seq<(Seq<char>, bool)>, i: int)
    requires
        distinct_capabilities(caps),
        0 <= i < caps.len(),
    ensures
        capability_of(caps, caps[i].0) == Some(caps[i].1),
    decreases caps.len(),
{
    if i < caps.len() - 1 {
        assert(caps.last().0 != caps[i].0);
        assert(caps.drop_last()[i] == caps[i]);
        assert forall|a: int, b: int| 0 <= a < b < caps.drop_last().len() implies (
        #[trigger] caps.drop_last()[a]).0 != (#[trigger] caps.drop_last()[b]).0 by {
            assert(caps.drop_last()[a] == caps[a]);
            assert(caps.drop_last()[b] == caps[b]);
        }
        lemma_capability_of_distinct(caps.drop_last(), i);
    }
}

/// Whether `caps` enables `kind`: the last entry for `kind` decides; `None`
/// where there is no entry for it.
pub open spec fn capability_of(caps: Seq<(Seq<char>, bool)>, kind: Seq<char>) -> Option<bool>
    decreases caps.len(),
{
    if caps.len() == 0 {
        None
    } else if caps.last().0 == kind {
        Some(caps.last().1)
    } else {
        capability_of(caps.drop_last(), kind)
    }
}

impl View for Agent {
    type V = AgentView;

    open spec fn view(&self) -> AgentView {
        AgentView {
            name: self.name@,
            last_seen: self.last_seen@,
            capabilities: capability_views(self.capabilities@),
        }
    }
}

/// A copy of a list of capabilities.
fn clone_capabilities(v: &Vec<Capability>) -> (r: Vec<Capability>)
    ensures
        r@ == v@,
{
    let mut r: Vec<Capability> = Vec::new();
    let mut i: usize = 0;
    while i < v.len()
        invariant
            i <= v.len(),
            r@ == v@.take(i as int),
        decreases v.len() - i,
    {
        r.push(v[i].clone());
        i += 1;
    }
    proof {
        assert(v@.take(v.len() as int) =~= v@);
    }
    r
}

impl Clone for Agent {
    fn clone(&self) -> (r: Self)
        ensures
            r@ == self@,
    {
        Agent {
            name: self.name.clone(),
            last_seen: self.last_seen.clone(),
            capabilities: clone_capabilities(&self.capabilities),
        }
    }
}

impl Agent {
    /// Whether the agent collects the data kind `kind`; `None` where it
    /// announced nothing of it.
    pub fn capability(&self, kind: &str) -> (r: Option<bool>)
        ensures
            r == capability_of(self@.capabilities, kind@),
    {
        let mut i: usize = self.capabilities.len();
        let ghost caps = capability_views(self.capabilities@);
        proof {
            assert(caps.take(i as int) =~= caps);
        }
        while i > 0
            invariant
                i <= self.capabilities.len(),
                caps == capability_views(self.capabilities@),
                capability_of(caps, kind@) == capability_of(caps.take(i as int), kind@),
            decreases i,
        {
            proof {
                assert(caps.take(i as int).drop_last() =~= caps.take(i - 1));
                assert(caps.take(i as int).last() == caps[i - 1]);
            }
            if same_text(self.capabilities[i - 1].name.as_str(), kind) {
                return Some(self.capabilities[i - 1].enabled);
            }
            i -= 1;
        }
        None
    }
}

/// What a list of agents holds.
pub open spec fn agent_views(agents: Seq<Agent>) -> Seq<AgentView> {
    agents.map_values(|a: Agent| a@)
}

/// No two entries have the same name.
pub open spec fn distinct_names(agents: Seq<AgentView>) -> bool {
    forall|i: int, j: int|
        0 <= i < j < agents.len() ==> (#[trigger] agents[i]).name != (#[trigger] agents[j]).name
}

/// The index of the first entry named `name`, from index `from` on.
pub open spec fn index_of(agents: Seq<AgentView>, name: Seq<char>, from: int) -> Option<int>
    decreases agents.len() - from,
{
    if from < 0 || from >= agents.len() {
        None
    } else if agents[from].name == name {
        Some(from)
    } else {
        index_of(agents, name, from + 1)
    }
}

/// The entries after `agent` was registered: it takes the place of the
/// entry of its name, or comes last where there is none.
pub open spec fn registered(agents: Seq<AgentView>, agent: AgentView) -> Seq<AgentView> {
    match index_of(agents, agent.name, 0) {
        Some(i) => agents.update(i, agent),
        None => agents.push(agent),
    }
}

/// What `index_of` finds is an entry of that name, the first one; it finds
/// one whenever there is one.
pub proof fn lemma_index_of(agents: Seq<AgentView>, name: Seq<char>, from: int)
    requires
        0 <= from,
    ensures
        match index_of(agents, name, from) {
            Some(i) => from <= i < agents.len() && agents[i].name == name && forall|k: int|
                from <= k < i ==> (#[trigger] agents[k]).name != name,
            None => forall|k: int| from <= k < agents.len() ==> (#[trigger] agents[k]).name != name,
        },
    decreases agents.len() - from,
{
    if from < agents.len() && agents[from].name != name {
        lemma_index_of(agents, name, from + 1);
    }
}

/// Registration keeps the registry at one entry for each name.
pub proof fn law_register_keeps_names_distinct(agents: Seq<AgentView>, agent: AgentView)
    requires
        distinct_names(agents),
    ensures
        distinct_names(registered(agents, agent)),
{
    lemma_index_of(agents, agent.name, 0);
}

/// After a registration the registry holds the agent as it was registered,
/// under its name.
pub proof fn law_registered_agent_is_listed(agents: Seq<AgentView>, agent: AgentView)
    requires
        distinct_names(agents),
    ensures
        match index_of(registered(agents, agent), agent.name, 0) {
            Some(i) => registered(agents, agent)[i] == agent,
            None => false,
        },
{
    lemma_index_of(agents, agent.name, 0);
    lemma_index_of(registered(agents, agent), agent.name, 0);
    let after = registered(agents, agent);
    match index_of(agents, agent.name, 0) {
        Some(i) => {
            assert(after[i].name == agent.name);
        },
        None => {
            assert(after[agents.len() as int].name == agent.name);
        },
    }
}

/// A second registration under a name overwrites the first: the registry is
/// as if only the second had been made.
pub proof fn law_reregistration_overwrites(agents: Seq<AgentView>, first: AgentView, second: AgentView)
    requires
        distinct_names(agents),
        first.name == second.name,
    ensures
        registered(registered(agents, first), second) == registered(agents, second),
{
    lemma_index_of(agents, first.name, 0);
    let mid = registered(agents, first);
    lemma_index_of(mid, second.name, 0);
    law_register_keeps_names_distinct(agents, first);
    match index_of(agents, first.name, 0) {
        Some(i) => {
            assert(mid[i].name == second.name);
            assert(registered(mid, second) =~= registered(agents, second));
        },
        None => {
            assert(mid[agents.len() as int].name == second.name);
            assert(registered(mid, second) =~= registered(agents, second));
        },
    }
}

/// The registry of agents.
pub struct AgentRegistry {
    agents: Vec<Agent>,
}

impl View for AgentRegistry {
    type V = Seq<AgentView>;

    closed spec fn view(&self) -> Seq<AgentView> {
        agent_views(self.agents@)
    }
}

/// The index of the capability named `name` among `caps`.
fn find_capability(caps: &Vec<Capability>, name: &str) -> (r: Option<usize>)
    ensures
        match r {
            Some(k) => capability_index(capability_views(caps@), name@, 0) == Some(k as int) && k
                < caps.len(),
            None => capability_index(capability_views(caps@), name@, 0) is None,
        },
{
    let ghost views = capability_views(caps@);
    let mut j: usize = 0;
    while j < caps.len()
        invariant
            j <= caps.len(),
            views == capability_views(caps@),
            capability_index(views, name@, 0) == capability_index(views, name@, j as int),
        decreases caps.len() - j,
    {
        proof {
            assert(views[j as int] == (caps@[j as int].name@, caps@[j as int].enabled));
        }
        if same_text(caps[j].name.as_str(), name) {
            return Some(j);
        }
        j += 1;
    }
    None
}

/// The capabilities that `raw` announces: each name once, with the value
/// that was announced for it last.
pub fn normalize(raw: Vec<RawCapability>) -> (r: Vec<Capability>)
    ensures
        capability_views(r@) == announced(raw@),
        distinct_capabilities(capability_views(r@)),
{
    let mut r: Vec<Capability> = Vec::new();
    let mut i: usize = 0;
    proof {
        assert(raw@.take(0) =~= Seq::<RawCapability>::empty());
        assert(capability_views(r@) =~= announced(raw@.take(0)));
    }
    while i < raw.len()
        invariant
            i <= raw.len(),
            capability_views(r@) == announced(raw@.take(i as int)),
        decreases raw.len() - i,
    {
        proof {
            assert(raw@.take(i + 1).drop_last() =~= raw@.take(i as int));
            assert(raw@.take(i + 1).last() == raw@[i as int]);
        }
        let enabled = match raw[i].value {
            Some(b) => b,
            None => false,
        };
        let ghost before = capability_views(r@);
        let ghost name = raw@[i as int].name@;
        let place = find_capability(&r, raw[i].name.as_str());
        match place {
            Some(k) => {
                r.set(k, Capability { name: raw[i].name.clone(), enabled });
                proof {
                    assert(capability_views(r@) =~= before.update(k as int, (name, enabled)));
                }
            },
            None => {
                r.push(Capability { name: raw[i].name.clone(), enabled });
                proof {
                    assert(capability_views(r@) =~= before.push((name, enabled)));
                }
            },
        }
        i += 1;
    }
    proof {
        assert(raw@.take(raw.len() as int) =~= raw@);
        law_announced_names_occur_once(raw@);
    }
    r
}

impl AgentRegistry {
    #[verifier::type_invariant]
    spec fn one_entry_per_name(self) -> bool {
        &&& distinct_names(agent_views(self.agents@))
        &&& forall|i: int|
            0 <= i < self.agents@.len() ==> distinct_capabilities(
                (#[trigger] self.agents@[i])@.capabilities,
            )
    }

    /// A registry without entries.
    pub fn new() -> (r: Self)
        ensures
            r@ == Seq::<AgentView>::empty(),
    {
        let r = AgentRegistry { agents: Vec::new() };
        proof {
            assert(agent_views(r.agents@) =~= Seq::<AgentView>::empty());
        }
        r
    }

    /// The number of entries.
    pub fn len(&self) -> (n: usize)
        ensures
            n == self@.len(),
    {
        self.agents.len()
    }

    /// The index of the entry named `name`.
    fn find(&self, name: &str) -> (r: Option<usize>)
        ensures
            match r {
                Some(i) => index_of(self@, name@, 0) == Some(i as int) && i < self.agents.len(),
                None => index_of(self@, name@, 0) is None,
            },
    {
        let mut i: usize = 0;
        while i < self.agents.len()
            invariant
                i <= self.agents.len(),
                index_of(self@, name@, 0) == index_of(self@, name@, i as int),
            decreases self.agents.len() - i,
        {
            if same_text(self.agents[i].name.as_str(), name) {
                return Some(i);
            }
            i += 1;
        }
        None
    }

    /// Registers an agent: the entry of its name is overwritten with the new
    /// capabilities and the time `now`, or a new entry is made. An agent
    /// without a name is registered as `unknown`; one without capabilities
    /// has none.
    pub fn register(
        &mut self,
        name: Option<String>,
        capabilities: Option<Vec<RawCapability>>,
        now: &str,
    )
        ensures
            final(self)@ == registered(
                old(self)@,
                AgentView {
                    name: match name {
                        Some(n) => n@,
                        None => UNKNOWN_AGENT@,
                    },
                    last_seen: now@,
                    capabilities: match capabilities {
                        Some(raw) => announced(raw@),
                        None => Seq::empty(),
                    },
                },
            ),
    {
        proof {
            use_type_invariant(&*self);
        }
        let name = match name {
            Some(n) => n,
            None => String::from_str(UNKNOWN_AGENT),
        };
        let capabilities = match capabilities {
            Some(raw) => normalize(raw),
            None => {
                let empty: Vec<Capability> = Vec::new();
                proof {
                    assert(capability_views(empty@) =~= Seq::<(Seq<char>, bool)>::empty());
                }
                empty
            },
        };
        assert(distinct_capabilities(capability_views(capabilities@)));
        let place = self.find(name.as_str());
        let agent = Agent { name, last_seen: String::from_str(now), capabilities };
        let ghost before = agent_views(self.agents@);
        proof {
            law_register_keeps_names_distinct(before, agent@);
        }
        let mut agents: Vec<Agent> = Vec::new();
        core::mem::swap(&mut self.agents, &mut agents);
        proof {
            assert(agent_views(self.agents@) =~= Seq::<AgentView>::empty());
        }
        match place {
            Some(i) => {
                agents.set(i, agent);
                proof {
                    assert(agent_views(agents@) =~= before.update(i as int, agent@));
                }
            },
            None => {
                agents.push(agent);
                proof {
                    assert(agent_views(agents@) =~= before.push(agent@));
                }
            },
        }
        self.agents = agents;
    }

    /// A copy of the entry named `name`.
    pub fn lookup(&self, name: &str) -> (r: Option<Agent>)
        ensures
            match r {
                Some(a) => distinct_capabilities(a@.capabilities) && match index_of(
                    self@,
                    name@,
                    0,
                ) {
                    Some(i) => a@ == self@[i],
                    None => false,
                },
                None => index_of(self@, name@, 0) is None,
            },
    {
        proof {
            use_type_invariant(self);
        }
        match self.find(name) {
            Some(i) => Some(self.agents[i].clone()),
            None => None,
        }
    }

    /// A copy of the entries, in the order in which their names were first
    /// registered.
    pub fn get_agents(&self) -> (r: Vec<Agent>)
        ensures
            agent_views(r@) == self@,
            forall|k: int|
                0 <= k < r@.len() ==> distinct_capabilities((#[trigger] r@[k])@.capabilities),
    {
        proof {
            use_type_invariant(self);
        }
        let mut r: Vec<Agent> = Vec::new();
        let mut i: usize = 0;
        while i < self.agents.len()
            invariant
                i <= self.agents.len(),
                r@.len() == i,
                forall|k: int| 0 <= k < i ==> (#[trigger] r@[k])@ == self.agents@[k]@,
            decreases self.agents.len() - i,
        {
            r.push(self.agents[i].clone());
            i += 1;
        }
        proof {
            assert(agent_views(r@) =~= self@);
        }
        r
    }
}

} // verus!
