//! Task lifecycle bookkeeping (`TaskManager`), the roster of registered
//! agents (`AgentRegistry`) and capability-based routing (`Router`).
//!
//! Records are kept in registration order; each task identifier and each
//! agent identifier occurs once, as in the maps they stand for.
use vstd::prelude::*;

use crate::schemas::{CapabilityManifest, ManifestView, Status, TaskRequest};
use crate::text::{
    copy_string, first_index, lemma_first_index, lemma_first_index_push,
    lemma_first_index_update_hit, lemma_first_index_update_miss, owned, str_eq, views,
};

verus! {

/// The current time in milliseconds since the epoch (`Utc::now()`).
///
/// The clock is read as it stands: nothing is stated of the value.
#[verifier::external_body]
pub(crate) fn now_millis() -> (r: i64) {
    chrono::Utc::now().timestamp_millis()
}

// ─────────────────────────────── task records ──────────────────────────────

/// A record of a task's current state and history; `R` is the agent's
/// response, carried through unread.
pub struct TaskRecord<R> {
    pub task_id: u128,
    pub parent_task_id: Option<u128>,
    pub intent: String,
    pub status: Status,
    pub assigned_agent: Option<String>,
    pub created_at: i64,
    pub completed_at: Option<i64>,
    pub child_tasks: Vec<u128>,
    pub response: Option<R>,
}

pub struct TaskRecordView<R> {
    pub task_id: u128,
    pub parent_task_id: Option<u128>,
    pub intent: Seq<char>,
    pub status: Status,
    pub assigned_agent: Option<Seq<char>>,
    pub created_at: i64,
    pub completed_at: Option<i64>,
    pub child_tasks: Seq<u128>,
    pub response: Option<R>,
}

impl<R> View for TaskRecord<R> {
    type V = TaskRecordView<R>;

    open spec fn view(&self) -> TaskRecordView<R> {
        TaskRecordView {
            task_id: self.task_id,
            parent_task_id: self.parent_task_id,
            intent: self.intent@,
            status: self.status,
            assigned_agent: match self.assigned_agent {
                Some(a) => Some(a@),
                None => None,
            },
            created_at: self.created_at,
            completed_at: self.completed_at,
            child_tasks: self.child_tasks@,
            response: self.response,
        }
    }
}

pub open spec fn record_views<R>(v: Seq<TaskRecord<R>>) -> Seq<TaskRecordView<R>> {
    v.map_values(|t: TaskRecord<R>| t@)
}

pub open spec fn task_is<R>(id: u128) -> spec_fn(TaskRecordView<R>) -> bool {
    |t: TaskRecordView<R>| t.task_id == id
}

/// The record of a task, if registered.
pub open spec fn lookup_task<R>(s: Seq<TaskRecordView<R>>, id: u128) -> Option<TaskRecordView<R>> {
    match first_index(s, task_is::<R>(id)) {
        Some(i) => Some(s[i]),
        None => None,
    }
}

/// A freshly registered task: pending, unassigned, no children or response.
pub open spec fn new_record<R>(id: u128, parent: Option<u128>, intent: Seq<char>, now: i64) -> TaskRecordView<R> {
    TaskRecordView {
        task_id: id,
        parent_task_id: parent,
        intent,
        status: Status::Pending,
        assigned_agent: None,
        created_at: now,
        completed_at: None,
        child_tasks: Seq::empty(),
        response: None,
    }
}

/// The records after registering a task: a registered parent lists the
/// task as its child, then the task's record is stored, replacing any
/// record with its identifier.
pub open spec fn registered<R>(
    s: Seq<TaskRecordView<R>>,
    id: u128,
    parent: Option<u128>,
    intent: Seq<char>,
    now: i64,
) -> Seq<TaskRecordView<R>> {
    let s1 = match parent {
        Some(p) => match first_index(s, task_is::<R>(p)) {
            Some(i) => s.update(i, TaskRecordView { child_tasks: s[i].child_tasks.push(id), ..s[i] }),
            None => s,
        },
        None => s,
    };
    upsert_record(s1, new_record::<R>(id, parent, intent, now))
}

/// The record stored in place of the one with its identifier, or appended.
pub open spec fn upsert_record<R>(s: Seq<TaskRecordView<R>>, rec: TaskRecordView<R>) -> Seq<TaskRecordView<R>> {
    match first_index(s, task_is::<R>(rec.task_id)) {
        Some(j) => s.update(j, rec),
        None => s.push(rec),
    }
}

/// The records after assigning a task to an agent: in progress, with the
/// agent recorded. An unknown task changes nothing.
pub open spec fn assigned<R>(s: Seq<TaskRecordView<R>>, id: u128, agent: Seq<char>) -> Seq<TaskRecordView<R>> {
    match first_index(s, task_is::<R>(id)) {
        Some(i) => s.update(i, TaskRecordView { status: Status::InProgress, assigned_agent: Some(agent), ..s[i] }),
        None => s,
    }
}

/// The records after a task's completion: the response's status, the
/// completion time and the response recorded. An unknown task changes nothing.
pub open spec fn completed<R>(s: Seq<TaskRecordView<R>>, id: u128, status: Status, now: i64, response: R) -> Seq<TaskRecordView<R>> {
    match first_index(s, task_is::<R>(id)) {
        Some(i) => s.update(i, TaskRecordView { status, completed_at: Some(now), response: Some(response), ..s[i] }),
        None => s,
    }
}

/// Pending or in progress.
pub open spec fn is_active(st: Status) -> bool {
    st == Status::Pending || st == Status::InProgress
}

/// Complete or failed.
pub open spec fn is_finished(st: Status) -> bool {
    st == Status::Complete || st == Status::Failed
}

/// Every child of the parent is registered and finished; true for a parent
/// that is not registered.
pub open spec fn children_complete<R>(s: Seq<TaskRecordView<R>>, parent: u128) -> bool {
    match lookup_task(s, parent) {
        None => true,
        Some(p) => forall|k: int| 0 <= k < p.child_tasks.len() ==> match #[trigger] lookup_task(s, p.child_tasks[k]) {
            Some(c) => is_finished(c.status),
            None => false,
        },
    }
}

/// The active records, in registration order.
pub open spec fn active_records<R>(s: Seq<TaskRecordView<R>>) -> Seq<TaskRecordView<R>>
    decreases s.len(),
{
    if s.len() == 0 {
        Seq::empty()
    } else {
        let p = active_records(s.drop_last());
        if is_active(s.last().status) { p.push(s.last()) } else { p }
    }
}

proof fn lemma_upsert_lookup<R>(s: Seq<TaskRecordView<R>>, rec: TaskRecordView<R>)
    ensures
        lookup_task(upsert_record(s, rec), rec.task_id) == Some(rec),
        forall|other: u128| other != rec.task_id ==> #[trigger] lookup_task(upsert_record(s, rec), other) == lookup_task(s, other),
{
    let id = rec.task_id;
    lemma_first_index(s, task_is::<R>(id));
    match first_index(s, task_is::<R>(id)) {
        Some(j) => {
            lemma_first_index_update_hit(s, task_is::<R>(id), j, rec);
            assert forall|other: u128| other != id implies #[trigger] lookup_task(s.update(j, rec), other) == lookup_task(s, other) by {
                lemma_first_index_update_miss(s, task_is::<R>(other), j, rec);
                lemma_first_index(s, task_is::<R>(other));
            }
        },
        None => {
            lemma_first_index_push(s, task_is::<R>(id), rec);
            assert forall|other: u128| other != id implies #[trigger] lookup_task(s.push(rec), other) == lookup_task(s, other) by {
                lemma_first_index_push(s, task_is::<R>(other), rec);
                lemma_first_index(s, task_is::<R>(other));
            }
        },
    }
}

proof fn lemma_update_lookup<R>(s: Seq<TaskRecordView<R>>, id: u128, rec: TaskRecordView<R>)
    requires
        first_index(s, task_is::<R>(id)) is Some,
        rec.task_id == id,
    ensures
        lookup_task(s.update(first_index(s, task_is::<R>(id))->0, rec), id) == Some(rec),
        forall|other: u128| other != id ==> #[trigger] lookup_task(s.update(first_index(s, task_is::<R>(id))->0, rec), other)
            == lookup_task(s, other),
{
    let j = first_index(s, task_is::<R>(id))->0;
    lemma_first_index(s, task_is::<R>(id));
    lemma_first_index_update_hit(s, task_is::<R>(id), j, rec);
    assert forall|other: u128| other != id implies #[trigger] lookup_task(s.update(j, rec), other) == lookup_task(s, other) by {
        lemma_first_index_update_miss(s, task_is::<R>(other), j, rec);
        lemma_first_index(s, task_is::<R>(other));
    }
}

/// A task just registered is recorded as pending, with its parent and
/// intent, unassigned and without children or response.
pub proof fn law_registered_task_is_pending<R>(
    s: Seq<TaskRecordView<R>>,
    id: u128,
    parent: Option<u128>,
    intent: Seq<char>,
    now: i64,
)
    ensures
        lookup_task(registered(s, id, parent, intent, now), id) == Some(new_record::<R>(id, parent, intent, now)),
{
    let s1 = match parent {
        Some(p) => match first_index(s, task_is::<R>(p)) {
            Some(i) => s.update(i, TaskRecordView { child_tasks: s[i].child_tasks.push(id), ..s[i] }),
            None => s,
        },
        None => s,
    };
    lemma_upsert_lookup(s1, new_record::<R>(id, parent, intent, now));
}

/// Registering a sub-task of a registered parent lists it among the
/// parent's children, so the parent's children are not all complete until
/// it finishes.
pub proof fn law_new_child_blocks_parent<R>(
    s: Seq<TaskRecordView<R>>,
    id: u128,
    parent: u128,
    intent: Seq<char>,
    now: i64,
)
    requires
        lookup_task(s, parent) is Some,
        id != parent,
    ensures
        ({
            let t = registered(s, id, Some(parent), intent, now);
            &&& lookup_task(t, parent)->0.child_tasks == lookup_task(s, parent)->0.child_tasks.push(id)
            &&& !children_complete(t, parent)
        }),
{
    let i = first_index(s, task_is::<R>(parent))->0;
    let pr = TaskRecordView { child_tasks: s[i].child_tasks.push(id), ..s[i] };
    lemma_first_index(s, task_is::<R>(parent));
    lemma_update_lookup(s, parent, pr);
    let s1 = s.update(i, pr);
    let rec = new_record::<R>(id, Some(parent), intent, now);
    lemma_upsert_lookup(s1, rec);
    let t = registered(s, id, Some(parent), intent, now);
    assert(lookup_task(t, parent) == Some(pr));
    assert(lookup_task(t, id) == Some(rec));
    let k = pr.child_tasks.len() - 1;
    assert(pr.child_tasks[k] == id);
    assert(lookup_task(t, pr.child_tasks[k]) == Some(rec));
}

/// Assigning a registered task puts it in progress with that agent and
/// leaves every other task's record as it was.
pub proof fn law_assigned_task_in_progress<R>(s: Seq<TaskRecordView<R>>, id: u128, agent: Seq<char>)
    requires
        lookup_task(s, id) is Some,
    ensures
        lookup_task(assigned(s, id, agent), id) == Some(TaskRecordView {
            status: Status::InProgress,
            assigned_agent: Some(agent),
            ..lookup_task(s, id)->0
        }),
        forall|other: u128| other != id ==> #[trigger] lookup_task(assigned(s, id, agent), other) == lookup_task(s, other),
{
    let i = first_index(s, task_is::<R>(id))->0;
    lemma_first_index(s, task_is::<R>(id));
    lemma_update_lookup(s, id, TaskRecordView { status: Status::InProgress, assigned_agent: Some(agent), ..s[i] });
}

/// Completing a registered task records the response's status, the time
/// and the response, and leaves every other task's record as it was; a
/// task completed with a finished status is no longer active.
pub proof fn law_completed_task_recorded<R>(s: Seq<TaskRecordView<R>>, id: u128, status: Status, now: i64, response: R)
    requires
        lookup_task(s, id) is Some,
    ensures
        lookup_task(completed(s, id, status, now, response), id) == Some(TaskRecordView {
            status,
            completed_at: Some(now),
            response: Some(response),
            ..lookup_task(s, id)->0
        }),
        forall|other: u128| other != id ==> #[trigger] lookup_task(completed(s, id, status, now, response), other)
            == lookup_task(s, other),
        is_finished(status) ==> !is_active(lookup_task(completed(s, id, status, now, response), id)->0.status),
{
    let i = first_index(s, task_is::<R>(id))->0;
    lemma_first_index(s, task_is::<R>(id));
    lemma_update_lookup(s, id, TaskRecordView { status, completed_at: Some(now), response: Some(response), ..s[i] });
}

/// Tracks task lifecycle from submission through completion, including the
/// parent-child relationships of delegated sub-tasks.
pub struct TaskManager<R> {
    tasks: Vec<TaskRecord<R>>,
}

impl<R> TaskManager<R> {
    /// The task records, in registration order.
    pub closed spec fn records(&self) -> Seq<TaskRecordView<R>> {
        record_views(self.tasks@)
    }

    pub fn new() -> (r: TaskManager<R>)
        ensures
            r.records() == Seq::<TaskRecordView<R>>::empty(),
    {
        let r = TaskManager { tasks: Vec::new() };
        assert(r.records() =~= Seq::<TaskRecordView<R>>::empty());
        r
    }

    fn position(&self, id: u128) -> (r: Option<usize>)
        ensures
            match r {
                Some(i) => first_index(self.records(), task_is::<R>(id)) == Some(i as int) && i < self.tasks.len(),
                None => first_index(self.records(), task_is::<R>(id)) is None,
            },
    {
        let ghost s = self.records();
        let mut i: usize = 0;
        assert(s.take(0) =~= Seq::<TaskRecordView<R>>::empty());
        while i < self.tasks.len()
            invariant
                i <= self.tasks.len(),
                s == self.records(),
                s.len() == self.tasks.len(),
                first_index(s.take(i as int), task_is::<R>(id)) is None,
            decreases self.tasks.len() - i,
        {
            proof {
                crate::text::lemma_first_index_step(s, task_is::<R>(id), i as int);
                assert(s[i as int] == self.tasks@[i as int]@);
            }
            if self.tasks[i].task_id == id {
                return Some(i);
            }
            i += 1;
        }
        proof {
            crate::text::lemma_first_index_all(s, task_is::<R>(id));
        }
        None
    }

    /// Registers a task at time `now` (see [`registered`]).
    pub fn register_task_at(&mut self, task: &TaskRequest, now: i64)
        ensures
            final(self).records() == registered(old(self).records(), task.task_id, task.parent_task_id, task.intent@, now),
    {
        let ghost s0 = self.records();
        let id = task.task_id;
        let ghost s1 = match task.parent_task_id {
            Some(p) => match first_index(s0, task_is::<R>(p)) {
                Some(i) => s0.update(i, TaskRecordView { child_tasks: s0[i].child_tasks.push(id), ..s0[i] }),
                None => s0,
            },
            None => s0,
        };
        match task.parent_task_id {
            Some(p) => {
                match self.position(p) {
                    Some(i) => {
                        let ghost before = self.tasks@;
                        let mut rec = self.tasks.remove(i);
                        rec.child_tasks.push(id);
                        self.tasks.insert(i, rec);
                        assert(self.tasks@ =~= before.update(i as int, rec));
                        assert(self.records() =~= s1);
                    },
                    None => {},
                }
            },
            None => {},
        }
        let rec = TaskRecord {
            task_id: id,
            parent_task_id: task.parent_task_id,
            intent: copy_string(&task.intent),
            status: Status::Pending,
            assigned_agent: None,
            created_at: now,
            completed_at: None,
            child_tasks: Vec::new(),
            response: None,
        };
        assert(rec@ == new_record::<R>(id, task.parent_task_id, task.intent@, now));
        match self.position(id) {
            Some(j) => {
                let ghost before = self.tasks@;
                self.tasks.set(j, rec);
                assert(self.records() =~= s1.update(j as int, new_record::<R>(id, task.parent_task_id, task.intent@, now)));
            },
            None => {
                let ghost before = self.tasks@;
                self.tasks.push(rec);
                assert(self.records() =~= s1.push(new_record::<R>(id, task.parent_task_id, task.intent@, now)));
            },
        }
    }

    /// Registers a task, stamped with the current time.
    pub fn register_task(&mut self, task: &TaskRequest)
        ensures
            exists|now: i64| final(self).records() == registered(
                old(self).records(), task.task_id, task.parent_task_id, task.intent@, now),
    {
        let now = now_millis();
        self.register_task_at(task, now);
    }

    /// Marks a task as assigned to an agent (see [`assigned`]).
    pub fn assign_task(&mut self, task_id: u128, agent_id: &str)
        ensures
            final(self).records() == assigned(old(self).records(), task_id, agent_id@),
    {
        match self.position(task_id) {
            Some(i) => {
                let ghost before = self.tasks@;
                let mut rec = self.tasks.remove(i);
                rec.status = Status::InProgress;
                rec.assigned_agent = Some(owned(agent_id));
                self.tasks.insert(i, rec);
                assert(self.tasks@ =~= before.update(i as int, rec));
                assert(self.records() =~= assigned(record_views(before), task_id, agent_id@));
            },
            None => {},
        }
    }

    /// Records a task's completion at time `now` (see [`completed`]).
    pub fn complete_task_at(&mut self, task_id: u128, status: Status, response: R, now: i64)
        ensures
            final(self).records() == completed(old(self).records(), task_id, status, now, response),
    {
        match self.position(task_id) {
            Some(i) => {
                let ghost before = self.tasks@;
                let mut rec = self.tasks.remove(i);
                rec.status = status;
                rec.completed_at = Some(now);
                rec.response = Some(response);
                self.tasks.insert(i, rec);
                assert(self.tasks@ =~= before.update(i as int, rec));
                assert(self.records() =~= completed(record_views(before), task_id, status, now, response));
            },
            None => {},
        }
    }

    /// Records a task's completion with the response's status, stamped with
    /// the current time.
    pub fn complete_task(&mut self, task_id: u128, status: Status, response: R)
        ensures
            exists|now: i64| final(self).records() == completed(old(self).records(), task_id, status, now, response),
    {
        let now = now_millis();
        self.complete_task_at(task_id, status, response, now);
    }

    /// A task's current record.
    pub fn get_task(&self, task_id: u128) -> (r: Option<&TaskRecord<R>>)
        ensures
            match r {
                Some(t) => lookup_task(self.records(), task_id) == Some(t@),
                None => lookup_task(self.records(), task_id) is None,
            },
    {
        match self.position(task_id) {
            Some(i) => Some(&self.tasks[i]),
            None => None,
        }
    }

    /// The active (pending or in-progress) tasks.
    pub fn active_tasks(&self) -> (r: Vec<&TaskRecord<R>>)
        ensures
            r@.map_values(|t: &TaskRecord<R>| t@) == active_records(self.records()),
    {
        let ghost s = self.records();
        let mut r: Vec<&TaskRecord<R>> = Vec::new();
        let mut i: usize = 0;
        assert(s.take(0) =~= Seq::<TaskRecordView<R>>::empty());
        while i < self.tasks.len()
            invariant
                i <= self.tasks.len(),
                s == self.records(),
                s.len() == self.tasks.len(),
                r@.map_values(|t: &TaskRecord<R>| t@) == active_records(s.take(i as int)),
            decreases self.tasks.len() - i,
        {
            assert(s.take(i + 1).drop_last() =~= s.take(i as int));
            assert(s.take(i + 1).last() == self.tasks@[i as int]@);
            let t = &self.tasks[i];
            if t.status == Status::Pending || t.status == Status::InProgress {
                let ghost before = r@;
                r.push(t);
                assert(r@.map_values(|t: &TaskRecord<R>| t@) =~= before.map_values(|t: &TaskRecord<R>| t@).push(t@));
            }
            i += 1;
        }
        assert(s.take(self.tasks.len() as int) =~= s);
        r
    }

    /// Whether every child task of a parent has finished (true for a parent
    /// that is not registered).
    pub fn all_children_complete(&self, parent_id: u128) -> (r: bool)
        ensures
            r == children_complete(self.records(), parent_id),
    {
        let ghost s = self.records();
        match self.position(parent_id) {
            None => true,
            Some(pi) => {
                let parent = &self.tasks[pi];
                assert(parent@ == s[pi as int]);
                let mut k: usize = 0;
                while k < parent.child_tasks.len()
                    invariant
                        s == self.records(),
                        lookup_task(s, parent_id) == Some(parent@),
                        k <= parent.child_tasks.len(),
                        forall|j: int| 0 <= j < k ==> match #[trigger] lookup_task(s, parent@.child_tasks[j]) {
                            Some(c) => is_finished(c.status),
                            None => false,
                        },
                    decreases parent.child_tasks.len() - k,
                {
                    let c = parent.child_tasks[k];
                    assert(parent@.child_tasks[k as int] == c);
                    match self.position(c) {
                        None => {
                            assert(lookup_task(s, parent@.child_tasks[k as int]) is None);
                            return false;
                        },
                        Some(ci) => {
                            assert(self.tasks@[ci as int]@ == s[ci as int]);
                            let st = self.tasks[ci].status;
                            if !(st == Status::Complete || st == Status::Failed) {
                                assert(lookup_task(s, parent@.child_tasks[k as int]) == Some(s[ci as int]));
                                return false;
                            }
                        },
                    }
                    k += 1;
                }
                true
            },
        }
    }
}

// ─────────────────────────────── agent roster ──────────────────────────────

pub open spec fn agent_is(id: Seq<char>) -> spec_fn(ManifestView) -> bool {
    |m: ManifestView| m.agent_id == id
}

/// The manifest of an agent, if registered.
pub open spec fn lookup_agent(s: Seq<ManifestView>, id: Seq<char>) -> Option<ManifestView> {
    match first_index(s, agent_is(id)) {
        Some(i) => Some(s[i]),
        None => None,
    }
}

/// Each agent identifier occurs once.
pub open spec fn unique_agents(s: Seq<ManifestView>) -> bool {
    forall|i: int, j: int| 0 <= i < j < s.len() ==> #[trigger] s[i].agent_id != #[trigger] s[j].agent_id
}

/// The roster after registering a manifest: it replaces the agent's
/// manifest, or is appended for a new agent.
pub open spec fn with_agent(s: Seq<ManifestView>, m: ManifestView) -> Seq<ManifestView> {
    match first_index(s, agent_is(m.agent_id)) {
        Some(i) => s.update(i, m),
        None => s.push(m),
    }
}

/// The roster after removing an agent (unchanged for an unknown agent).
pub open spec fn without_agent(s: Seq<ManifestView>, id: Seq<char>) -> Seq<ManifestView> {
    match first_index(s, agent_is(id)) {
        Some(i) => s.remove(i),
        None => s,
    }
}

/// The agent covers one of the domains, when any are required.
pub open spec fn covers_domains(m: ManifestView, domains: Seq<Seq<char>>) -> bool {
    domains.len() == 0 || exists|k: int| 0 <= k < domains.len() && m.domains.contains(#[trigger] domains[k])
}

/// The agent has every required tool.
pub open spec fn has_tools(m: ManifestView, tools: Seq<Seq<char>>) -> bool {
    forall|k: int| 0 <= k < tools.len() ==> m.tools_available.contains(#[trigger] tools[k])
}

pub open spec fn capable(m: ManifestView, domains: Seq<Seq<char>>, tools: Seq<Seq<char>>) -> bool {
    covers_domains(m, domains) && has_tools(m, tools)
}

/// The capable agents, in roster order.
pub open spec fn capable_agents(s: Seq<ManifestView>, domains: Seq<Seq<char>>, tools: Seq<Seq<char>>) -> Seq<ManifestView>
    decreases s.len(),
{
    if s.len() == 0 {
        Seq::empty()
    } else {
        let p = capable_agents(s.drop_last(), domains, tools);
        if capable(s.last(), domains, tools) { p.push(s.last()) } else { p }
    }
}

pub open spec fn manifest_views(v: Seq<CapabilityManifest>) -> Seq<ManifestView> {
    v.map_values(|m: CapabilityManifest| m@)
}

/// Whether `x` is among the names.
fn contains_name(v: &Vec<String>, x: &String) -> (r: bool)
    ensures
        r == views(v@).contains(x@),
{
    let mut i: usize = 0;
    while i < v.len()
        invariant
            i <= v.len(),
            forall|k: int| 0 <= k < i ==> v@[k]@ != x@,
        decreases v.len() - i,
    {
        if str_eq(v[i].as_str(), x.as_str()) {
            assert(views(v@)[i as int] == x@);
            return true;
        }
        i += 1;
    }
    proof {
        if views(v@).contains(x@) {
            let k = choose|k: int| 0 <= k < views(v@).len() && views(v@)[k] == x@;
            assert(v@[k]@ == x@);
        }
    }
    false
}

fn is_capable(m: &CapabilityManifest, domains: &Vec<String>, tools: &Vec<String>) -> (r: bool)
    ensures
        r == capable(m@, views(domains@), views(tools@)),
{
    let mut domain_match = domains.len() == 0;
    let mut k: usize = 0;
    while k < domains.len() && !domain_match
        invariant
            k <= domains.len(),
            domain_match ==> covers_domains(m@, views(domains@)),
            !domain_match ==> domains.len() > 0 && forall|j: int| 0 <= j < k ==> !m@.domains.contains(#[trigger] views(domains@)[j]),
        decreases domains.len() - k,
    {
        if contains_name(&m.domains, &domains[k]) {
            assert(m@.domains.contains(views(domains@)[k as int]));
            domain_match = true;
        }
        k += 1;
    }
    if !domain_match {
        return false;
    }
    let mut t: usize = 0;
    while t < tools.len()
        invariant
            t <= tools.len(),
            forall|j: int| 0 <= j < t ==> m@.tools_available.contains(#[trigger] views(tools@)[j]),
        decreases tools.len() - t,
    {
        if !contains_name(&m.tools_available, &tools[t]) {
            assert(!m@.tools_available.contains(views(tools@)[t as int]));
            return false;
        }
        t += 1;
    }
    true
}

/// A live roster of registered agents and their capabilities.
pub struct AgentRegistry {
    agents: Vec<CapabilityManifest>,
}

impl AgentRegistry {
    /// The registered manifests, in registration order.
    pub closed spec fn roster(&self) -> Seq<ManifestView> {
        manifest_views(self.agents@)
    }

    pub fn new() -> (r: AgentRegistry)
        ensures
            r.roster() == Seq::<ManifestView>::empty(),
    {
        let r = AgentRegistry { agents: Vec::new() };
        assert(r.roster() =~= Seq::<ManifestView>::empty());
        r
    }

    fn position(&self, id: &str) -> (r: Option<usize>)
        ensures
            match r {
                Some(i) => first_index(self.roster(), agent_is(id@)) == Some(i as int) && i < self.agents.len(),
                None => first_index(self.roster(), agent_is(id@)) is None,
            },
    {
        let ghost s = self.roster();
        let mut i: usize = 0;
        assert(s.take(0) =~= Seq::<ManifestView>::empty());
        while i < self.agents.len()
            invariant
                i <= self.agents.len(),
                s == self.roster(),
                s.len() == self.agents.len(),
                first_index(s.take(i as int), agent_is(id@)) is None,
            decreases self.agents.len() - i,
        {
            proof {
                crate::text::lemma_first_index_step(s, agent_is(id@), i as int);
                assert(s[i as int] == self.agents@[i as int]@);
            }
            if str_eq(self.agents[i].agent_id.as_str(), id) {
                return Some(i);
            }
            i += 1;
        }
        proof {
            crate::text::lemma_first_index_all(s, agent_is(id@));
        }
        None
    }

    /// Registers or updates an agent's capabilities.
    pub fn register(&mut self, manifest: CapabilityManifest)
        ensures
            final(self).roster() == with_agent(old(self).roster(), manifest@),
            unique_agents(old(self).roster()) ==> unique_agents(final(self).roster()),
    {
        let ghost s0 = self.roster();
        let ghost m = manifest@;
        proof {
            lemma_first_index(s0, agent_is(m.agent_id));
        }
        match self.position(manifest.agent_id.as_str()) {
            Some(i) => {
                self.agents.set(i, manifest);
                assert(self.roster() =~= s0.update(i as int, m));
            },
            None => {
                self.agents.push(manifest);
                assert(self.roster() =~= s0.push(m));
                proof {
                    assert forall|a: int, b: int| 0 <= a < b < self.roster().len() && unique_agents(s0)
                        implies #[trigger] self.roster()[a].agent_id != #[trigger] self.roster()[b].agent_id by {
                        if b == s0.len() {
                            assert(!agent_is(m.agent_id)(s0[a]));
                        } else {
                            assert(s0[a].agent_id != s0[b].agent_id);
                        }
                    }
                }
            },
        }
    }

    /// Removes an agent from the roster.
    pub fn deregister(&mut self, agent_id: &str)
        ensures
            final(self).roster() == without_agent(old(self).roster(), agent_id@),
            unique_agents(old(self).roster()) ==> unique_agents(final(self).roster()),
    {
        let ghost s0 = self.roster();
        match self.position(agent_id) {
            Some(i) => {
                let ghost before = self.agents@;
                let _gone = self.agents.remove(i);
                assert(self.roster() =~= s0.remove(i as int));
                proof {
                    assert forall|a: int, b: int| 0 <= a < b < self.roster().len() && unique_agents(s0)
                        implies #[trigger] self.roster()[a].agent_id != #[trigger] self.roster()[b].agent_id by {
                        let a0 = if a < i { a } else { a + 1 };
                        let b0 = if b < i { b } else { b + 1 };
                        assert(self.roster()[a] == s0[a0]);
                        assert(self.roster()[b] == s0[b0]);
                        assert(s0[a0].agent_id != s0[b0].agent_id);
                    }
                }
            },
            None => {},
        }
    }

    /// The agents able to handle a task: covering at least one of the
    /// domains (when any are named) and having every required tool.
    pub fn find_capable_agents(&self, required_domains: &Vec<String>, required_tools: &Vec<String>) -> (r: Vec<CapabilityManifest>)
        ensures
            manifest_views(r@) == capable_agents(self.roster(), views(required_domains@), views(required_tools@)),
    {
        let ghost s = self.roster();
        let ghost d = views(required_domains@);
        let ghost t = views(required_tools@);
        let mut r: Vec<CapabilityManifest> = Vec::new();
        let mut i: usize = 0;
        assert(s.take(0) =~= Seq::<ManifestView>::empty());
        while i < self.agents.len()
            invariant
                i <= self.agents.len(),
                s == self.roster(),
                s.len() == self.agents.len(),
                d == views(required_domains@),
                t == views(required_tools@),
                manifest_views(r@) == capable_agents(s.take(i as int), d, t),
            decreases self.agents.len() - i,
        {
            assert(s.take(i + 1).drop_last() =~= s.take(i as int));
            assert(s.take(i + 1).last() == self.agents@[i as int]@);
            if is_capable(&self.agents[i], required_domains, required_tools) {
                let m = self.agents[i].duplicate();
                let ghost before = r@;
                r.push(m);
                assert(manifest_views(r@) =~= manifest_views(before).push(m@));
            }
            i += 1;
        }
        assert(s.take(self.agents.len() as int) =~= s);
        r
    }

    /// All registered agents.
    pub fn list_agents(&self) -> (r: Vec<CapabilityManifest>)
        ensures
            manifest_views(r@) == self.roster(),
    {
        let ghost s = self.roster();
        let mut r: Vec<CapabilityManifest> = Vec::new();
        let mut i: usize = 0;
        while i < self.agents.len()
            invariant
                i <= self.agents.len(),
                s == self.roster(),
                s.len() == self.agents.len(),
                manifest_views(r@) == s.take(i as int),
            decreases self.agents.len() - i,
        {
            let m = self.agents[i].duplicate();
            let ghost before = r@;
            assert(s[i as int] == self.agents@[i as int]@);
            r.push(m);
            assert(manifest_views(r@) =~= manifest_views(before).push(m@));
            assert(manifest_views(r@) =~= s.take(i + 1));
            i += 1;
        }
        assert(s.take(self.agents.len() as int) =~= s);
        r
    }

    /// A specific agent's manifest.
    pub fn get_agent(&self, agent_id: &str) -> (r: Option<CapabilityManifest>)
        ensures
            match r {
                Some(m) => lookup_agent(self.roster(), agent_id@) == Some(m@),
                None => lookup_agent(self.roster(), agent_id@) is None,
            },
    {
        match self.position(agent_id) {
            Some(i) => Some(self.agents[i].duplicate()),
            None => None,
        }
    }
}

/// A registered agent is found under its identifier, and registering it
/// changes no other agent's manifest.
pub proof fn law_registered_agent_found(s: Seq<ManifestView>, m: ManifestView)
    ensures
        lookup_agent(with_agent(s, m), m.agent_id) == Some(m),
        forall|other: Seq<char>| other != m.agent_id ==> #[trigger] lookup_agent(with_agent(s, m), other) == lookup_agent(s, other),
{
    let id = m.agent_id;
    lemma_first_index(s, agent_is(id));
    match first_index(s, agent_is(id)) {
        Some(j) => {
            lemma_first_index_update_hit(s, agent_is(id), j, m);
            assert forall|other: Seq<char>| other != id implies #[trigger] lookup_agent(s.update(j, m), other) == lookup_agent(s, other) by {
                lemma_first_index_update_miss(s, agent_is(other), j, m);
                lemma_first_index(s, agent_is(other));
            }
        },
        None => {
            lemma_first_index_push(s, agent_is(id), m);
            assert forall|other: Seq<char>| other != id implies #[trigger] lookup_agent(s.push(m), other) == lookup_agent(s, other) by {
                lemma_first_index_push(s, agent_is(other), m);
                lemma_first_index(s, agent_is(other));
            }
        },
    }
}

/// A deregistered agent is no longer found (each identifier occurring once).
pub proof fn law_deregistered_agent_gone(s: Seq<ManifestView>, id: Seq<char>)
    requires
        unique_agents(s),
    ensures
        lookup_agent(without_agent(s, id), id) is None,
{
    lemma_first_index(s, agent_is(id));
    let t = without_agent(s, id);
    lemma_first_index(t, agent_is(id));
    match first_index(s, agent_is(id)) {
        Some(i) => {
            match first_index(t, agent_is(id)) {
                Some(k) => {
                    let k0 = if k < i { k } else { k + 1 };
                    assert(t[k] == s[k0]);
                    if k0 < i {
                        assert(s[k0].agent_id != s[i].agent_id);
                    } else {
                        assert(s[i].agent_id != s[k0].agent_id);
                    }
                },
                None => {},
            }
        },
        None => {},
    }
}

/// Of the capable agents `c`, the `i`-th is the first with the fewest domains.
pub open spec fn most_specialized(c: Seq<ManifestView>, i: int) -> bool {
    &&& 0 <= i < c.len()
    &&& forall|j: int| 0 <= j < c.len() ==> c[i].domains.len() <= #[trigger] c[j].domains.len()
    &&& forall|j: int| 0 <= j < i ==> c[i].domains.len() < #[trigger] c[j].domains.len()
}

/// Routes incoming tasks to the most suitable agent based on capabilities.
pub struct Router {
    registry: AgentRegistry,
}

impl Router {
    pub fn new(registry: AgentRegistry) -> (r: Router)
        ensures
            r.routing_registry().roster() == registry.roster(),
    {
        Router { registry }
    }

    pub closed spec fn routing_registry(&self) -> AgentRegistry {
        self.registry
    }

    /// The underlying registry.
    pub fn registry(&self) -> (r: &AgentRegistry)
        ensures
            r.roster() == self.routing_registry().roster(),
    {
        &self.registry
    }

    /// The agent for a task: among the agents with every tool the task
    /// allows, the first with the fewest domains (the most specialized);
    /// none when no agent has them.
    pub fn route(&self, task: &TaskRequest) -> (r: Option<CapabilityManifest>)
        ensures
            ({
                let c = capable_agents(self.routing_registry().roster(), Seq::empty(), views(task.constraints.allowed_tools@));
                match r {
                    None => c.len() == 0,
                    Some(m) => exists|i: int| most_specialized(c, i) && #[trigger] c[i] == m@,
                }
            }),
    {
        let no_domains: Vec<String> = Vec::new();
        assert(views(no_domains@) =~= Seq::<Seq<char>>::empty());
        let candidates = self.registry.find_capable_agents(&no_domains, &task.constraints.allowed_tools);
        let ghost c = manifest_views(candidates@);
        assert(c == capable_agents(self.routing_registry().roster(), Seq::<Seq<char>>::empty(), views(task.constraints.allowed_tools@)));
        if candidates.len() == 0 {
            return None;
        }
        let mut best: usize = 0;
        let mut k: usize = 1;
        while k < candidates.len()
            invariant
                c == manifest_views(candidates@),
                0 <= best < k <= candidates.len(),
                forall|j: int| 0 <= j < k ==> c[best as int].domains.len() <= #[trigger] c[j].domains.len(),
                forall|j: int| 0 <= j < best ==> c[best as int].domains.len() < #[trigger] c[j].domains.len(),
            decreases candidates.len() - k,
        {
            assert(c[k as int].domains.len() == candidates[k as int].domains.len());
            assert(c[best as int].domains.len() == candidates[best as int].domains.len());
            if candidates[k].domains.len() < candidates[best].domains.len() {
                best = k;
            }
            k += 1;
        }
        let m = candidates[best].duplicate();
        assert(most_specialized(c, best as int));
        assert(c[best as int] == m@);
        Some(m)
    }
}

} // verus!
