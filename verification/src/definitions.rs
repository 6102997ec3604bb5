//! The admin server's agent definitions: the registry its definition
//! endpoints create, read, update, delete and list, keyed by identifier.
use vstd::prelude::*;
use std::collections::HashMap;

use crate::orchestrator::now_millis;
use crate::dto::Deployment;
use crate::schemas::{new_task_id, AgentType, CapabilityManifest, Permission};
use crate::text::{copy_string, owned, to_chars, trim, trim_chars};

verus! {

broadcast use vstd::std_specs::hash::group_hash_axioms;

/// Why a request to the admin API was refused.
#[derive(Debug, PartialEq, Eq)]
pub enum ApiError {
    BadRequest(String),
    NotFound(String),
    Internal(String),
}

/// What a client sends to create or replace a definition.
pub struct DefinitionBody {
    pub name: String,
    pub description: String,
    pub agent_type: AgentType,
    pub model: String,
    pub ollama_host: String,
    pub tools: Vec<String>,
    pub domains: Vec<String>,
    pub system_prompt: Option<String>,
    pub default_permissions: Vec<Permission>,
    /// The campaign directory for the `campaign.*` tools.
    pub campaign_dir: Option<String>,
    /// Tool-specific deployment settings, as the client gave them.
    pub deployed_context: Option<serde_json::Value>,
}

/// A stored agent definition: a body with its identifier and the times (in
/// milliseconds since the epoch) it was created and last updated.
pub struct AgentDefinition {
    pub id: u128,
    pub name: String,
    pub description: String,
    pub agent_type: AgentType,
    pub model: String,
    pub ollama_host: String,
    pub tools: Vec<String>,
    pub domains: Vec<String>,
    pub system_prompt: Option<String>,
    pub default_permissions: Vec<Permission>,
    pub campaign_dir: Option<String>,
    pub deployed_context: Option<serde_json::Value>,
    pub created_at_millis: i64,
    pub updated_at_millis: i64,
}

/// A definition holds exactly what a body gave.
pub open spec fn holds_body(d: AgentDefinition, b: DefinitionBody) -> bool {
    &&& d.name == b.name
    &&& d.description == b.description
    &&& d.agent_type == b.agent_type
    &&& d.model == b.model
    &&& d.ollama_host == b.ollama_host
    &&& d.tools == b.tools
    &&& d.domains == b.domains
    &&& d.system_prompt == b.system_prompt
    &&& d.default_permissions == b.default_permissions
    &&& d.campaign_dir == b.campaign_dir
    &&& d.deployed_context == b.deployed_context
}

fn definition_of(id: u128, body: DefinitionBody, created_at_millis: i64, updated_at_millis: i64) -> (d: AgentDefinition)
    ensures
        d.id == id,
        holds_body(d, body),
        d.created_at_millis == created_at_millis,
        d.updated_at_millis == updated_at_millis,
{
    AgentDefinition {
        id,
        name: body.name,
        description: body.description,
        agent_type: body.agent_type,
        model: body.model,
        ollama_host: body.ollama_host,
        tools: body.tools,
        domains: body.domains,
        system_prompt: body.system_prompt,
        default_permissions: body.default_permissions,
        campaign_dir: body.campaign_dir,
        deployed_context: body.deployed_context,
        created_at_millis,
        updated_at_millis,
    }
}

// ─────────────────────────────── the registry ──────────────────────────────

/// Each definition is stored under its own identifier.
pub open spec fn keyed_by_id(m: Map<u128, AgentDefinition>) -> bool {
    forall|id: u128| #[trigger] m.contains_key(id) ==> m[id].id == id
}

/// Position `a` comes before position `b` when its time is earlier, equal
/// times keeping their positions (a stable sort).
pub open spec fn time_before(times: Seq<i64>, a: int, b: int) -> bool {
    times[a] < times[b] || (times[a] == times[b] && a < b)
}

/// The positions of `times` in the order a stable sort by time puts them:
/// every position once, each before the next.
pub fn order_by_time(times: &Vec<i64>) -> (r: Vec<usize>)
    ensures
        r.len() == times.len(),
        forall|j: int| 0 <= j < r.len() ==> #[trigger] r@[j] < times.len(),
        forall|k: usize| k < times.len() ==> #[trigger] r@.contains(k),
        forall|j: int, k: int|
            0 <= j < k < r.len() ==> time_before(times@, #[trigger] r@[j] as int, #[trigger] r@[k] as int),
{
    let mut r: Vec<usize> = Vec::new();
    let mut i: usize = 0;
    while i < times.len()
        invariant
            i <= times.len(),
            r.len() == i,
            forall|j: int| 0 <= j < r.len() ==> #[trigger] r@[j] < i,
            forall|k: usize| k < i ==> #[trigger] r@.contains(k),
            forall|j: int, k: int|
                0 <= j < k < r.len() ==> time_before(times@, #[trigger] r@[j] as int, #[trigger] r@[k] as int),
        decreases times.len() - i,
    {
        let mut p: usize = 0;
        while p < r.len() && times[r[p]] <= times[i]
            invariant
                p <= r.len(),
                i < times.len(),
                forall|j: int| 0 <= j < r.len() ==> #[trigger] r@[j] < i,
                forall|j: int| 0 <= j < p ==> #[trigger] times@[r@[j] as int] <= times@[i as int],
            decreases r.len() - p,
        {
            p += 1;
        }
        let ghost old_r = r@;
        r.insert(p, i);
        proof {
            assert(r@ == old_r.insert(p as int, i));
            assert forall|j: int| 0 <= j < r.len() implies #[trigger] r@[j] < i + 1 by {
                if j < p {
                    assert(r@[j] == old_r[j]);
                } else if j > p {
                    assert(r@[j] == old_r[j - 1]);
                }
            }
            assert forall|k: usize| k < i + 1 implies #[trigger] r@.contains(k) by {
                if k == i {
                    assert(r@[p as int] == i);
                } else {
                    assert(old_r.contains(k));
                    let w = choose|w: int| 0 <= w < old_r.len() && old_r[w] == k;
                    if w < p {
                        assert(r@[w] == old_r[w]);
                    } else {
                        assert(r@[w + 1] == old_r[w]);
                    }
                }
            }
            assert forall|j: int, k: int|
                0 <= j < k < r.len() implies time_before(times@, #[trigger] r@[j] as int, #[trigger] r@[k] as int) by {
                if k < p {
                    assert(r@[j] == old_r[j] && r@[k] == old_r[k]);
                } else if k == p {
                    assert(r@[j] == old_r[j]);
                    assert(times@[old_r[j] as int] <= times@[i as int]);
                } else if j < p {
                    assert(r@[j] == old_r[j] && r@[k] == old_r[k - 1]);
                    if j < k - 1 {
                        assert(time_before(times@, old_r[j] as int, old_r[k - 1] as int));
                    }
                } else if j == p {
                    assert(r@[k] == old_r[k - 1]);
                    assert(times@[i as int] < times@[old_r[p as int] as int]);
                    if k - 1 > p {
                        assert(time_before(times@, old_r[p as int] as int, old_r[k - 1] as int));
                    }
                } else {
                    assert(r@[j] == old_r[j - 1] && r@[k] == old_r[k - 1]);
                }
            }
        }
        i += 1;
    }
    r
}

/// Position `a` comes before position `b` when its time is later, equal
/// times keeping their positions (a stable sort, newest first).
pub open spec fn time_after(times: Seq<i64>, a: int, b: int) -> bool {
    times[a] > times[b] || (times[a] == times[b] && a < b)
}

/// The positions of `times` in the order a stable sort by time, latest
/// first, puts them: every position once, each before the next.
pub fn order_by_time_desc(times: &Vec<i64>) -> (r: Vec<usize>)
    ensures
        r.len() == times.len(),
        forall|j: int| 0 <= j < r.len() ==> #[trigger] r@[j] < times.len(),
        forall|k: usize| k < times.len() ==> #[trigger] r@.contains(k),
        forall|j: int, k: int|
            0 <= j < k < r.len() ==> time_after(times@, #[trigger] r@[j] as int, #[trigger] r@[k] as int),
{
    let mut r: Vec<usize> = Vec::new();
    let mut i: usize = 0;
    while i < times.len()
        invariant
            i <= times.len(),
            r.len() == i,
            forall|j: int| 0 <= j < r.len() ==> #[trigger] r@[j] < i,
            forall|k: usize| k < i ==> #[trigger] r@.contains(k),
            forall|j: int, k: int|
                0 <= j < k < r.len() ==> time_after(times@, #[trigger] r@[j] as int, #[trigger] r@[k] as int),
        decreases times.len() - i,
    {
        let mut p: usize = 0;
        while p < r.len() && times[r[p]] >= times[i]
            invariant
                p <= r.len(),
                i < times.len(),
                forall|j: int| 0 <= j < r.len() ==> #[trigger] r@[j] < i,
                forall|j: int| 0 <= j < p ==> #[trigger] times@[r@[j] as int] >= times@[i as int],
            decreases r.len() - p,
        {
            p += 1;
        }
        let ghost old_r = r@;
        r.insert(p, i);
        proof {
            assert(r@ == old_r.insert(p as int, i));
            assert forall|j: int| 0 <= j < r.len() implies #[trigger] r@[j] < i + 1 by {
                if j < p {
                    assert(r@[j] == old_r[j]);
                } else if j > p {
                    assert(r@[j] == old_r[j - 1]);
                }
            }
            assert forall|k: usize| k < i + 1 implies #[trigger] r@.contains(k) by {
                if k == i {
                    assert(r@[p as int] == i);
                } else {
                    assert(old_r.contains(k));
                    let w = choose|w: int| 0 <= w < old_r.len() && old_r[w] == k;
                    if w < p {
                        assert(r@[w] == old_r[w]);
                    } else {
                        assert(r@[w + 1] == old_r[w]);
                    }
                }
            }
            assert forall|j: int, k: int|
                0 <= j < k < r.len() implies time_after(times@, #[trigger] r@[j] as int, #[trigger] r@[k] as int) by {
                if k < p {
                    assert(r@[j] == old_r[j] && r@[k] == old_r[k]);
                } else if k == p {
                    assert(r@[j] == old_r[j]);
                    assert(times@[old_r[j] as int] >= times@[i as int]);
                } else if j < p {
                    assert(r@[j] == old_r[j] && r@[k] == old_r[k - 1]);
                    if j < k - 1 {
                        assert(time_after(times@, old_r[j] as int, old_r[k - 1] as int));
                    }
                } else if j == p {
                    assert(r@[k] == old_r[k - 1]);
                    assert(times@[i as int] > times@[old_r[p as int] as int]);
                    if k - 1 > p {
                        assert(time_after(times@, old_r[p as int] as int, old_r[k - 1] as int));
                    }
                } else {
                    assert(r@[j] == old_r[j - 1] && r@[k] == old_r[k - 1]);
                }
            }
        }
        i += 1;
    }
    r
}

/// Every definition the admin server knows, by identifier.
pub struct DefinitionStore {
    defs: HashMap<u128, AgentDefinition>,
}

impl View for DefinitionStore {
    type V = Map<u128, AgentDefinition>;

    closed spec fn view(&self) -> Map<u128, AgentDefinition> {
        self.defs@
    }
}

impl DefinitionStore {
    #[verifier::type_invariant]
    closed spec fn wf(self) -> bool {
        keyed_by_id(self.defs@)
    }

    pub fn new() -> (r: DefinitionStore)
        ensures
            r@ == Map::<u128, AgentDefinition>::empty(),
    {
        DefinitionStore { defs: HashMap::new() }
    }

    /// How many definitions are stored.
    pub fn len(&self) -> (n: usize)
        ensures
            n == self@.len(),
    {
        self.defs.len()
    }

    /// The definition with identifier `id`, if there is one (it carries
    /// that identifier).
    pub fn get(&self, id: u128) -> (r: Option<&AgentDefinition>)
        ensures
            match r {
                Some(d) => self@.contains_key(id) && self@[id] == *d && d.id == id,
                None => !self@.contains_key(id),
            },
    {
        proof {
            use_type_invariant(self);
        }
        self.defs.get(&id)
    }

    /// Stores a new definition made of `body`, with a fresh identifier and
    /// the current time as both creation and update time, and returns the
    /// identifier. A name that is empty once trimmed is refused with
    /// `name is required`, and nothing is stored.
    pub fn create(&mut self, body: DefinitionBody) -> (r: Result<u128, ApiError>)
        ensures
            trim(body.name@).len() == 0 ==> (r matches Err(ApiError::BadRequest(m)) && m@ == "name is required"@
                && final(self)@ == old(self)@),
            trim(body.name@).len() > 0 ==> (r matches Ok(id) && {
                &&& final(self)@.contains_key(id)
                &&& final(self)@ == old(self)@.insert(id, final(self)@[id])
                &&& final(self)@[id].id == id
                &&& holds_body(final(self)@[id], body)
                &&& final(self)@[id].created_at_millis == final(self)@[id].updated_at_millis
            }),
    {
        proof {
            use_type_invariant(&*self);
        }
        let name = to_chars(body.name.as_str());
        let trimmed = trim_chars(&name);
        if trimmed.len() == 0 {
            return Err(ApiError::BadRequest(owned("name is required")));
        }
        let id = new_task_id();
        let now = now_millis();
        let d = definition_of(id, body, now, now);
        let mut defs: HashMap<u128, AgentDefinition> = HashMap::new();
        std::mem::swap(&mut defs, &mut self.defs);
        defs.insert(id, d);
        self.defs = defs;
        Ok(id)
    }

    /// Replaces the definition `id` with one made of `body`, keeping its
    /// identifier and creation time and taking the current time as update
    /// time; `false`, and nothing changed, when there is no such definition.
    /// Puts back a definition read from storage under its own identifier; a
    /// later one with the same identifier replaces the earlier.
    pub fn restore(&mut self, def: AgentDefinition)
        ensures
            final(self)@ == old(self)@.insert(def.id, def),
    {
        proof {
            use_type_invariant(&*self);
        }
        let id = def.id;
        let mut defs: HashMap<u128, AgentDefinition> = HashMap::new();
        std::mem::swap(&mut defs, &mut self.defs);
        defs.insert(id, def);
        self.defs = defs;
    }

    pub fn update(&mut self, id: u128, body: DefinitionBody) -> (found: bool)
        ensures
            found == old(self)@.contains_key(id),
            found ==> {
                &&& final(self)@.contains_key(id)
                &&& final(self)@ == old(self)@.insert(id, final(self)@[id])
                &&& final(self)@[id].id == id
                &&& holds_body(final(self)@[id], body)
                &&& final(self)@[id].created_at_millis == old(self)@[id].created_at_millis
            },
            !found ==> final(self)@ == old(self)@,
    {
        proof {
            use_type_invariant(&*self);
        }
        let created = match self.defs.get(&id) {
            None => {
                return false;
            },
            Some(d) => d.created_at_millis,
        };
        let now = now_millis();
        let d = definition_of(id, body, created, now);
        let mut defs: HashMap<u128, AgentDefinition> = HashMap::new();
        std::mem::swap(&mut defs, &mut self.defs);
        defs.insert(id, d);
        self.defs = defs;
        true
    }

    /// Removes the definition `id`; whether there was one.
    pub fn delete(&mut self, id: u128) -> (removed: bool)
        ensures
            removed == old(self)@.contains_key(id),
            final(self)@ == old(self)@.remove(id),
    {
        proof {
            use_type_invariant(&*self);
        }
        let mut defs: HashMap<u128, AgentDefinition> = HashMap::new();
        std::mem::swap(&mut defs, &mut self.defs);
        let gone = defs.remove(&id);
        self.defs = defs;
        gone.is_some()
    }

    /// The definitions as the listing shows them: each stored definition
    /// once, earliest created first (those created at the same time in the
    /// order the map hands them out).
    pub fn list(&self) -> (r: Vec<&AgentDefinition>)
        ensures
            r.len() == self@.len(),
            forall|j: int| 0 <= j < r.len() ==> self@.contains_key(#[trigger] r@[j].id) && self@[r@[j].id] == *r@[j],
            forall|id: u128| #[trigger] self@.contains_key(id) ==> exists|j: int| 0 <= j < r.len() && #[trigger] r@[j].id == id,
            forall|j: int, k: int|
                0 <= j < k < r.len() ==> (#[trigger] r@[j]).created_at_millis <= (#[trigger] r@[k]).created_at_millis,
    {
        proof {
            use_type_invariant(self);
        }
        let ghost m = self.defs@;
        let mut all: Vec<&AgentDefinition> = Vec::new();
        for d in it: self.defs.values()
            invariant
                m == self.defs@,
                keyed_by_id(m),
                it.seq().unref().to_set() == m.values(),
                it.seq().len() == m.dom().len(),
                all@.len() == it.index(),
                forall|j: int| 0 <= j < it.index() ==> all@[j] == #[trigger] it.seq()[j],
                forall|j: int|
                    0 <= j < all@.len() ==> m.contains_key(#[trigger] all@[j].id) && m[all@[j].id] == *all@[j],
        {
            proof {
                let v = *d;
                assert(it.seq().unref()[it.index()] == v);
                assert(it.seq().unref().to_set().contains(v));
                assert(m.values().contains(v));
                let k = choose|k: u128| #[trigger] m.contains_key(k) && m[k] == v;
                assert(m[k].id == k);
            }
            all.push(d);
        }
        let ghost s = all@;
        proof {
            assert(s.len() == m.len());
            assert forall|id: u128| #[trigger] m.contains_key(id) implies exists|j: int| 0 <= j < s.len() && #[trigger] s[j].id == id by {
                assert(m.values().contains(m[id]));
            }
        }
        let mut times: Vec<i64> = Vec::new();
        let mut i: usize = 0;
        while i < all.len()
            invariant
                i <= all@.len(),
                times@.len() == i,
                forall|j: int| 0 <= j < i ==> #[trigger] times@[j] == all@[j].created_at_millis,
            decreases all@.len() - i,
        {
            times.push(all[i].created_at_millis);
            i += 1;
        }
        let order = order_by_time(&times);
        let mut r: Vec<&AgentDefinition> = Vec::new();
        let mut k: usize = 0;
        while k < order.len()
            invariant
                k <= order@.len(),
                order@.len() == all@.len(),
                times@.len() == all@.len(),
                forall|j: int| 0 <= j < all@.len() ==> #[trigger] times@[j] == all@[j].created_at_millis,
                forall|j: int| 0 <= j < order@.len() ==> #[trigger] order@[j] < all@.len(),
                r@.len() == k,
                forall|j: int| 0 <= j < k ==> #[trigger] r@[j] == all@[order@[j] as int],
            decreases order@.len() - k,
        {
            r.push(all[order[k]]);
            k += 1;
        }
        proof {
            assert forall|j: int, k2: int| 0 <= j < k2 < r.len() implies (#[trigger] r@[j]).created_at_millis
                <= (#[trigger] r@[k2]).created_at_millis by {
                assert(time_before(times@, order@[j] as int, order@[k2] as int));
            }
            assert forall|id: u128| #[trigger] m.contains_key(id) implies exists|j: int| 0 <= j < r.len() && #[trigger] r@[j].id == id by {
                let w = choose|w: int| 0 <= w < s.len() && #[trigger] s[w].id == id;
                assert(order@.contains(w as usize));
                let j = choose|j: int| 0 <= j < order@.len() && order@[j] == w as usize;
                assert(r@[j] == all@[w]);
            }
        }
        r
    }
}



// ─────────────────────────────── running agents ────────────────────────────

/// What a client sends to start an agent from a definition.
pub struct SpawnBody {
    pub definition_id: u128,
    pub deployment: Deployment,
}

/// An agent instance started from a definition.
pub struct RunningAgentInfo {
    pub instance_id: u128,
    pub definition_id: u128,
    pub definition_name: String,
    pub deployment: Deployment,
    pub capability: CapabilityManifest,
    /// When it started, in milliseconds since the epoch.
    pub started_at_millis: i64,
    pub task_count: u32,
}

/// The record of an instance just started from `def`: the definition's
/// identifier and name, the requested deployment, the instance's
/// capability, the current time and no task run yet.
pub fn running_info(instance_id: u128, def: &AgentDefinition, deployment: Deployment, capability: CapabilityManifest) -> (r: RunningAgentInfo)
    ensures
        r.instance_id == instance_id,
        r.definition_id == def.id,
        r.definition_name@ == def.name@,
        r.deployment == deployment,
        r.capability == capability,
        r.task_count == 0,
{
    RunningAgentInfo {
        instance_id,
        definition_id: def.id,
        definition_name: copy_string(&def.name),
        deployment,
        capability,
        started_at_millis: now_millis(),
        task_count: 0,
    }
}

/// The listing order of running agents: their positions, earliest started
/// first, those started at the same time in their given order.
pub fn running_order(agents: &Vec<RunningAgentInfo>) -> (r: Vec<usize>)
    ensures
        r.len() == agents.len(),
        forall|j: int| 0 <= j < r.len() ==> #[trigger] r@[j] < agents.len(),
        forall|k: usize| k < agents.len() ==> #[trigger] r@.contains(k),
        forall|j: int, k: int|
            0 <= j < k < r.len() ==> time_before(
                agents@.map_values(|a: RunningAgentInfo| a.started_at_millis),
                #[trigger] r@[j] as int,
                #[trigger] r@[k] as int,
            ),
{
    let mut times: Vec<i64> = Vec::new();
    let mut i: usize = 0;
    while i < agents.len()
        invariant
            i <= agents@.len(),
            times@ == agents@.take(i as int).map_values(|a: RunningAgentInfo| a.started_at_millis),
        decreases agents@.len() - i,
    {
        proof {
            assert(agents@.take(i + 1).map_values(|a: RunningAgentInfo| a.started_at_millis)
                =~= agents@.take(i as int).map_values(|a: RunningAgentInfo| a.started_at_millis).push(
                agents@[i as int].started_at_millis,
            ));
        }
        times.push(agents[i].started_at_millis);
        i += 1;
    }
    proof {
        assert(agents@.take(agents@.len() as int) =~= agents@);
    }
    order_by_time(&times)
}

/// What is written is read back: after a definition is stored under `id`
/// (by `create` or `update`), reading `id` gives it, and every other
/// identifier reads as before.
pub proof fn law_read_after_write(before: Map<u128, AgentDefinition>, id: u128, d: AgentDefinition)
    ensures
        before.insert(id, d).contains_key(id),
        before.insert(id, d)[id] == d,
        forall|other: u128|
            other != id ==> (#[trigger] before.insert(id, d).contains_key(other) == before.contains_key(other)
                && (before.contains_key(other) ==> before.insert(id, d)[other] == before[other])),
{
}

/// What is deleted is gone: after `delete(id)`, reading `id` finds nothing,
/// and every other identifier reads as before.
pub proof fn law_read_after_delete(before: Map<u128, AgentDefinition>, id: u128)
    ensures
        !before.remove(id).contains_key(id),
        forall|other: u128|
            other != id ==> (#[trigger] before.remove(id).contains_key(other) == before.contains_key(other)
                && (before.contains_key(other) ==> before.remove(id)[other] == before[other])),
{
}

} // verus!
