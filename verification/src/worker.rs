//! The admin server's task worker: which tasks it runs (each task once), by
//! their declared type; the model a pipeline step runs on; the file
//! operations of the pipeline's data plane; and the tools a definition's
//! executor is built with.
use vstd::prelude::*;

use crate::assistant::{
    field_get, field_views, json_object_of, opt_view, parse_json_object, text_of, JsonField,
};
use crate::text::{
    copy_string, first_index, lemma_first_index_step, owned, push_str, starts_with, str_eq,
    strip_prefix_chars, string_of, take_chars, take_prefix, to_chars, views,
};

verus! {

// ─────────────────────────────── task types ────────────────────────────────

/// The kinds of task the worker runs.
#[derive(Debug, Clone, Copy, PartialEq, Eq, Structural)]
pub enum TaskKind {
    ScenePlayerTurn,
    FactCheck,
    RulesAssess,
    DmWrite,
    DmSummarize,
    CharImpact,
    SceneSummary,
    Unknown,
}

/// The kind a `task_type` names.
pub open spec fn kind_of(t: Seq<char>) -> TaskKind {
    if t == "scene_player_turn"@ {
        TaskKind::ScenePlayerTurn
    } else if t == "fact_check"@ {
        TaskKind::FactCheck
    } else if t == "rules_assess"@ {
        TaskKind::RulesAssess
    } else if t == "dm_write"@ {
        TaskKind::DmWrite
    } else if t == "dm_summarize"@ {
        TaskKind::DmSummarize
    } else if t == "char_impact"@ {
        TaskKind::CharImpact
    } else if t == "scene_summary"@ {
        TaskKind::SceneSummary
    } else {
        TaskKind::Unknown
    }
}

pub fn task_kind(task_type: &str) -> (r: TaskKind)
    ensures
        r == kind_of(task_type@),
{
    if str_eq(task_type, "scene_player_turn") {
        TaskKind::ScenePlayerTurn
    } else if str_eq(task_type, "fact_check") {
        TaskKind::FactCheck
    } else if str_eq(task_type, "rules_assess") {
        TaskKind::RulesAssess
    } else if str_eq(task_type, "dm_write") {
        TaskKind::DmWrite
    } else if str_eq(task_type, "dm_summarize") {
        TaskKind::DmSummarize
    } else if str_eq(task_type, "char_impact") {
        TaskKind::CharImpact
    } else if str_eq(task_type, "scene_summary") {
        TaskKind::SceneSummary
    } else {
        TaskKind::Unknown
    }
}

/// The component that answers a task of each kind.
pub open spec fn responder_of(k: TaskKind) -> Option<Seq<char>> {
    match k {
        TaskKind::ScenePlayerTurn => Some("dm-manager"@),
        TaskKind::FactCheck => Some("fact-checker"@),
        TaskKind::RulesAssess => Some("rules-assessor"@),
        TaskKind::DmWrite => Some("dm-writer"@),
        TaskKind::DmSummarize => Some("dm-summarizer"@),
        TaskKind::CharImpact => Some("char-impact"@),
        TaskKind::SceneSummary => Some("scene-summarizer"@),
        TaskKind::Unknown => None,
    }
}

pub fn responder(k: TaskKind) -> (r: Option<&'static str>)
    ensures
        match r {
            Some(s) => responder_of(k) == Some(s@),
            None => responder_of(k) is None,
        },
{
    match k {
        TaskKind::ScenePlayerTurn => Some("dm-manager"),
        TaskKind::FactCheck => Some("fact-checker"),
        TaskKind::RulesAssess => Some("rules-assessor"),
        TaskKind::DmWrite => Some("dm-writer"),
        TaskKind::DmSummarize => Some("dm-summarizer"),
        TaskKind::CharImpact => Some("char-impact"),
        TaskKind::SceneSummary => Some("scene-summarizer"),
        TaskKind::Unknown => None,
    }
}

/// The `task_type` an intent object declares, empty when it declares none.
pub open spec fn declared_type(fs: Seq<(Seq<char>, Option<Seq<char>>, Seq<char>)>) -> Seq<char> {
    match text_of(fs, "task_type"@) {
        Some(t) => t,
        None => seq![],
    }
}

/// The task type of an intent that is not a JSON object: empty.
pub open spec fn intent_type(intent: Seq<char>) -> Seq<char> {
    match json_object_of(intent) {
        Some(Some(fs)) => declared_type(fs),
        _ => seq![],
    }
}

/// The `task_type` field of a parsed intent object.
pub fn declared_type_of(fields: &Vec<JsonField>) -> (r: String)
    ensures
        r@ == declared_type(field_views(fields@)),
{
    match crate::assistant::field_text(fields, "task_type") {
        Some(t) => t,
        None => String::new(),
    }
}

/// The task type of an intent (see [`intent_type`]).
pub fn task_type_of(intent: &str) -> (r: String)
    ensures
        r@ == intent_type(intent@),
{
    match parse_json_object(intent) {
        Some(Some(fields)) => declared_type_of(&fields),
        _ => String::new(),
    }
}

// ─────────────────────────────── the worker ────────────────────────────────

/// The task worker's memory: the ids of the tasks it has taken. The control
/// plane delivers a task again to every new participant; a task runs once.
pub struct TaskWorker {
    pub seen: Vec<u128>,
}

/// Taking a task: fresh when its id is new, and then remembered.
pub open spec fn take_spec(seen: Seq<u128>, id: u128) -> (bool, Seq<u128>) {
    if seen.contains(id) {
        (false, seen)
    } else {
        (true, seen.push(id))
    }
}

impl TaskWorker {
    pub fn new() -> (r: TaskWorker)
        ensures
            r.seen@.len() == 0,
    {
        TaskWorker { seen: Vec::new() }
    }

    /// Takes a task by id: `true` the first time, `false` for a repeat.
    pub fn take(&mut self, task_id: u128) -> (fresh: bool)
        ensures
            (fresh, final(self).seen@) == take_spec(old(self).seen@, task_id),
    {
        let mut i: usize = 0;
        while i < self.seen.len()
            invariant
                i <= self.seen.len(),
                forall|j: int| 0 <= j < i ==> self.seen@[j] != task_id,
            decreases self.seen.len() - i,
        {
            if self.seen[i] == task_id {
                assert(self.seen@.contains(task_id));
                return false;
            }
            i += 1;
        }
        self.seen.push(task_id);
        true
    }

    /// What to run for a delivered task: `None` for a repeat, else its kind
    /// by the intent's `task_type`.
    pub fn accept(&mut self, task_id: u128, intent: &str) -> (r: Option<TaskKind>)
        ensures
            final(self).seen@ == take_spec(old(self).seen@, task_id).1,
            match r {
                None => old(self).seen@.contains(task_id),
                Some(k) => !old(self).seen@.contains(task_id) && k == kind_of(intent_type(intent@)),
            },
    {
        if !self.take(task_id) {
            return None;
        }
        let t = task_type_of(intent);
        Some(task_kind(t.as_str()))
    }
}

/// A delivered task runs at most once: once taken, its id is never fresh again.
pub proof fn law_task_runs_once(seen: Seq<u128>, id: u128)
    ensures
        take_spec(take_spec(seen, id).1, id).0 == false,
{
    if !seen.contains(id) {
        assert(seen.push(id)[seen.len() as int] == id);
    }
}


/// Taking the tasks `ids` in delivery order: whether each was fresh, and
/// the worker's memory afterwards.
pub open spec fn take_all(seen: Seq<u128>, ids: Seq<u128>) -> (Seq<bool>, Seq<u128>)
    decreases ids.len(),
{
    if ids.len() == 0 {
        (Seq::empty(), seen)
    } else {
        let p = take_all(seen, ids.drop_last());
        let t = take_spec(p.1, ids.last());
        (p.0.push(t.0), t.1)
    }
}

/// Across any sequence of deliveries, a task runs exactly for the first
/// delivery of its id (and only if the worker had not seen it before); the
/// worker then remembers exactly what it had seen and what was delivered.
pub proof fn law_first_delivery_runs(seen: Seq<u128>, ids: Seq<u128>)
    ensures
        take_all(seen, ids).0.len() == ids.len(),
        forall|k: int| 0 <= k < ids.len() ==> #[trigger] take_all(seen, ids).0[k] == (!seen.contains(ids[k])
            && !ids.take(k).contains(ids[k])),
        forall|x: u128| #[trigger] take_all(seen, ids).1.contains(x) <==> (seen.contains(x) || ids.contains(x)),
    decreases ids.len(),
{
    if ids.len() > 0 {
        let q = ids.drop_last();
        law_first_delivery_runs(seen, q);
        let p = take_all(seen, q);
        let id = ids.last();
        let t = take_spec(p.1, id);
        let r = take_all(seen, ids);
        assert(r.0 == p.0.push(t.0));
        assert forall|k: int| 0 <= k < ids.len() implies #[trigger] r.0[k] == (!seen.contains(ids[k])
            && !ids.take(k).contains(ids[k])) by {
            if k < q.len() {
                assert(r.0[k] == p.0[k]);
                assert(q[k] == ids[k]);
                assert(q.take(k) =~= ids.take(k));
            } else {
                assert(ids.take(k) =~= q);
                assert(ids[k] == id);
                assert(p.1.contains(id) <==> (seen.contains(id) || q.contains(id)));
            }
        }
        assert forall|x: u128| #[trigger] r.1.contains(x) <==> (seen.contains(x) || ids.contains(x)) by {
            assert(p.1.contains(x) <==> (seen.contains(x) || q.contains(x)));
            if !p.1.contains(id) {
                if r.1.contains(x) && x != id {
                    let w = choose|w: int| 0 <= w < r.1.len() && r.1[w] == x;
                    assert(p.1.push(id)[w] == x);
                    assert(w < p.1.len());
                    assert(p.1[w] == x);
                }
                if x == id {
                    assert(r.1[p.1.len() as int] == id);
                }
                if p.1.contains(x) {
                    let w = choose|w: int| 0 <= w < p.1.len() && p.1[w] == x;
                    assert(r.1[w] == x);
                }
            }
            if ids.contains(x) {
                let w = choose|w: int| 0 <= w < ids.len() && ids[w] == x;
                if w < q.len() {
                    assert(q[w] == x);
                }
            }
            if q.contains(x) {
                let w = choose|w: int| 0 <= w < q.len() && q[w] == x;
                assert(ids[w] == x);
            }
        }
    }
}

/// The task names the worker knows.
pub open spec fn known_task_type(t: Seq<char>) -> bool {
    t == "scene_player_turn"@ || t == "fact_check"@ || t == "rules_assess"@ || t == "dm_write"@
        || t == "dm_summarize"@ || t == "char_impact"@ || t == "scene_summary"@
}

/// What the worker starts for each of a stream of envelopes (their task
/// ids, intents, and whether their parameters parsed for their kind): the
/// responder of a task delivered for the first time with a known task type
/// and parameters that parse, nothing otherwise.
pub open spec fn spawned(seen: Seq<u128>, ids: Seq<u128>, intents: Seq<Seq<char>>, parsed: Seq<bool>) -> Seq<Option<Seq<char>>> {
    Seq::new(
        ids.len(),
        |k: int|
            if take_all(seen, ids).0[k] && parsed[k] {
                responder_of(kind_of(intent_type(intents[k])))
            } else {
                None
            },
    )
}

/// Across a stream of envelopes the worker starts a task exactly when it
/// sees its id for the first time, its intent names a known task type and
/// its parameters parse; a repeated id, an unknown type or parameters that
/// do not parse start nothing.
pub proof fn law_only_known_first_tasks_spawn(seen: Seq<u128>, ids: Seq<u128>, intents: Seq<Seq<char>>, parsed: Seq<bool>)
    requires
        intents.len() == ids.len(),
        parsed.len() == ids.len(),
    ensures
        spawned(seen, ids, intents, parsed).len() == ids.len(),
        forall|k: int|
            0 <= k < ids.len() ==> (#[trigger] spawned(seen, ids, intents, parsed)[k] is Some <==> (!seen.contains(ids[k])
                && !ids.take(k).contains(ids[k]) && known_task_type(intent_type(intents[k])) && parsed[k])),
{
    law_first_delivery_runs(seen, ids);
    assert forall|k: int|
        0 <= k < ids.len() implies (#[trigger] spawned(seen, ids, intents, parsed)[k] is Some <==> (!seen.contains(ids[k])
            && !ids.take(k).contains(ids[k]) && known_task_type(intent_type(intents[k])) && parsed[k])) by {
        assert(take_all(seen, ids).0[k] == (!seen.contains(ids[k]) && !ids.take(k).contains(ids[k])));
    }
}

// ─────────────────────────────── step models ───────────────────────────────

/// Where an agent definition runs: its Ollama host, model and domains.
pub struct AgentEndpoint {
    pub ollama_host: String,
    pub model: String,
    pub domains: Vec<String>,
}

pub open spec fn endpoint_domains(v: Seq<AgentEndpoint>) -> Seq<Seq<Seq<char>>> {
    v.map_values(|e: AgentEndpoint| views(e.domains@))
}

pub open spec fn serves(d: Seq<char>) -> spec_fn(Seq<Seq<char>>) -> bool {
    |ds: Seq<Seq<char>>| ds.contains(d)
}

/// The host and model of the first definition that serves `domain`, or the
/// fallback pair.
pub fn find_agent_model(defs: &Vec<AgentEndpoint>, domain: &str, fallback_host: &str, fallback_model: &str) -> (r: (String, String))
    ensures
        match first_index(endpoint_domains(defs@), serves(domain@)) {
            Some(i) => r.0@ == defs@[i].ollama_host@ && r.1@ == defs@[i].model@,
            None => r.0@ == fallback_host@ && r.1@ == fallback_model@,
        },
{
    let ghost ds = endpoint_domains(defs@);
    let mut i: usize = 0;
    assert(ds.take(0) =~= Seq::<Seq<Seq<char>>>::empty());
    while i < defs.len()
        invariant
            i <= defs.len(),
            ds == endpoint_domains(defs@),
            first_index(ds.take(i as int), serves(domain@)) is None,
        decreases defs.len() - i,
    {
        proof {
            lemma_first_index_step(ds, serves(domain@), i as int);
        }
        let d = &defs[i];
        let mut k: usize = 0;
        let mut hit = false;
        while k < d.domains.len()
            invariant
                k <= d.domains.len(),
                hit <==> exists|j: int| 0 <= j < k && d.domains@[j]@ == domain@,
            decreases d.domains.len() - k,
        {
            if str_eq(d.domains[k].as_str(), domain) {
                hit = true;
            }
            k += 1;
        }
        assert(ds[i as int] == views(d.domains@));
        if hit {
            proof {
                let j = choose|j: int| 0 <= j < d.domains.len() && d.domains@[j]@ == domain@;
                assert(views(d.domains@)[j] == domain@);
                assert(serves(domain@)(ds[i as int]));
            }
            return (copy_string(&d.ollama_host), copy_string(&d.model));
        }
        proof {
            assert forall|j: int| 0 <= j < views(d.domains@).len() implies views(d.domains@)[j] != domain@ by {
                assert(views(d.domains@)[j] == d.domains@[j]@);
            }
            assert(!serves(domain@)(ds[i as int]));
        }
        i += 1;
    }
    assert(ds.take(defs.len() as int) =~= ds);
    (owned(fallback_host), owned(fallback_model))
}

// ─────────────────────────────── data plane ────────────────────────────────

/// A file operation the pipeline asks of the data plane.
pub enum DataPlaneOp {
    Read { path: String },
    Write { path: String, content: String },
    Append { path: String, content: String },
    /// Any other tool fails with this message.
    Unknown(String),
}

pub open spec fn or_empty(o: Option<Seq<char>>) -> Seq<char> {
    match o {
        Some(s) => s,
        None => seq![],
    }
}

fn owned_or_empty(o: Option<&str>) -> (r: String)
    ensures
        r@ == or_empty(match o { Some(s) => Some(s@), None => None }),
{
    match o {
        Some(s) => owned(s),
        None => String::new(),
    }
}

/// The operation a data-plane call names: `file.read`, `file.write` or
/// `file.append` of its `path` with its `content` (each empty when absent);
/// any other tool is unknown.
pub fn plan_data_plane_call(tool: &str, path: Option<&str>, content: Option<&str>) -> (r: DataPlaneOp)
    ensures
        ({
            let p = or_empty(match path { Some(s) => Some(s@), None => None });
            let c = or_empty(match content { Some(s) => Some(s@), None => None });
            if tool@ == "file.read"@ {
                r matches DataPlaneOp::Read { path: rp } && rp@ == p
            } else if tool@ == "file.write"@ {
                r matches DataPlaneOp::Write { path: rp, content: rc } && rp@ == p && rc@ == c
            } else if tool@ == "file.append"@ {
                r matches DataPlaneOp::Append { path: rp, content: rc } && rp@ == p && rc@ == c
            } else {
                r matches DataPlaneOp::Unknown(m) && m@ == "unknown tool: "@ + tool@
            }
        }),
{
    if str_eq(tool, "file.read") {
        DataPlaneOp::Read { path: owned_or_empty(path) }
    } else if str_eq(tool, "file.write") {
        DataPlaneOp::Write { path: owned_or_empty(path), content: owned_or_empty(content) }
    } else if str_eq(tool, "file.append") {
        DataPlaneOp::Append { path: owned_or_empty(path), content: owned_or_empty(content) }
    } else {
        let mut m = owned("unknown tool: ");
        push_str(&mut m, tool);
        DataPlaneOp::Unknown(m)
    }
}

/// The file-write event a data-plane call announces: a `file.write` or
/// `file.append` with a `path`, and the byte length of its `content` (0
/// when there is none).
pub fn file_write_event(tool: &str, path: Option<&str>, content: Option<&str>) -> (r: Option<(String, usize)>)
    ensures
        match r {
            Some((p, n)) => (tool@ == "file.write"@ || tool@ == "file.append"@) && path is Some
                && p@ == path.unwrap()@ && n == match content {
                    Some(c) => c.len(),
                    None => 0,
                },
            None => !(tool@ == "file.write"@ || tool@ == "file.append"@) || path is None,
        },
{
    if !(str_eq(tool, "file.write") || str_eq(tool, "file.append")) {
        return None;
    }
    match path {
        None => None,
        Some(p) => {
            let n: usize = match content {
                Some(c) => c.len(),
                None => 0,
            };
            Some((owned(p), n))
        },
    }
}

// ─────────────────────────────── executor plans ────────────────────────────

/// How one tool of an agent definition is set up.
pub enum ToolPlan {
    FileRead,
    FileWrite,
    BashExec,
    SearchGrep,
    DiceRoll,
    CampaignRead(String),
    CampaignWrite(String),
    CampaignList(String),
    /// A rulebook index built from `dir` with an embedding model.
    Rulebook { dir: String, ollama_host: String, embed_model: String },
    /// Another agent definition, by id, offered as the tool `tool`.
    SubAgent { tool: String, definition_id: String },
    /// Not set up: unknown, or its configuration is missing.
    Skip,
}

pub enum PlanView {
    FileRead,
    FileWrite,
    BashExec,
    SearchGrep,
    DiceRoll,
    CampaignRead(Seq<char>),
    CampaignWrite(Seq<char>),
    CampaignList(Seq<char>),
    Rulebook(Seq<char>, Seq<char>, Seq<char>),
    SubAgent(Seq<char>, Seq<char>),
    Skip,
}

pub open spec fn plan_view(p: ToolPlan) -> PlanView {
    match p {
        ToolPlan::FileRead => PlanView::FileRead,
        ToolPlan::FileWrite => PlanView::FileWrite,
        ToolPlan::BashExec => PlanView::BashExec,
        ToolPlan::SearchGrep => PlanView::SearchGrep,
        ToolPlan::DiceRoll => PlanView::DiceRoll,
        ToolPlan::CampaignRead(d) => PlanView::CampaignRead(d@),
        ToolPlan::CampaignWrite(d) => PlanView::CampaignWrite(d@),
        ToolPlan::CampaignList(d) => PlanView::CampaignList(d@),
        ToolPlan::Rulebook { dir, ollama_host, embed_model } => PlanView::Rulebook(dir@, ollama_host@, embed_model@),
        ToolPlan::SubAgent { tool, definition_id } => PlanView::SubAgent(tool@, definition_id@),
        ToolPlan::Skip => PlanView::Skip,
    }
}

/// A string of the deployment context, or a default.
pub open spec fn text_or(ctx: Seq<(Seq<char>, Option<Seq<char>>, Seq<char>)>, k: Seq<char>, dflt: Seq<char>) -> Seq<char> {
    match text_of(ctx, k) {
        Some(t) => t,
        None => dflt,
    }
}

/// The campaign directory: the deployment context's `campaign_dir`, else the
/// definition's own.
pub open spec fn campaign_dir_of(ctx: Seq<(Seq<char>, Option<Seq<char>>, Seq<char>)>, own: Option<Seq<char>>) -> Option<Seq<char>> {
    match text_of(ctx, "campaign_dir"@) {
        Some(d) => Some(d),
        None => own,
    }
}

/// The definition id of sub-agent `sub`: the context's flat
/// `sub_agents.{sub}` key, else `{sub}` in its `sub_agents` object.
pub open spec fn sub_agent_id(
    ctx: Seq<(Seq<char>, Option<Seq<char>>, Seq<char>)>,
    subs: Seq<(Seq<char>, Option<Seq<char>>, Seq<char>)>,
    sub: Seq<char>,
) -> Option<Seq<char>> {
    match text_of(ctx, "sub_agents."@ + sub) {
        Some(id) => Some(id),
        None => text_of(subs, sub),
    }
}

/// The plan for one tool name.
pub open spec fn plan_of(
    name: Seq<char>,
    ctx: Seq<(Seq<char>, Option<Seq<char>>, Seq<char>)>,
    subs: Seq<(Seq<char>, Option<Seq<char>>, Seq<char>)>,
    dir: Option<Seq<char>>,
) -> PlanView {
    if name == "file.read"@ {
        PlanView::FileRead
    } else if name == "file.write"@ {
        PlanView::FileWrite
    } else if name == "bash.exec"@ {
        PlanView::BashExec
    } else if name == "search.grep"@ {
        PlanView::SearchGrep
    } else if name == "campaign.read"@ || name == "campaign.write"@ || name == "campaign.list"@ {
        match dir {
            Some(d) => if name == "campaign.read"@ {
                PlanView::CampaignRead(d)
            } else if name == "campaign.write"@ {
                PlanView::CampaignWrite(d)
            } else {
                PlanView::CampaignList(d)
            },
            None => PlanView::Skip,
        }
    } else if name == "rulebook.search"@ {
        match text_of(ctx, "rulebook_dir"@) {
            Some(d) => PlanView::Rulebook(
                d,
                text_or(ctx, "ollama_host"@, "http://localhost:11434"@),
                text_or(ctx, "embed_model"@, "nomic-embed-text"@),
            ),
            None => PlanView::Skip,
        }
    } else if name == "dice.roll"@ {
        PlanView::DiceRoll
    } else if starts_with(name, "agent."@) {
        match sub_agent_id(ctx, subs, name.skip(6)) {
            Some(id) => PlanView::SubAgent(name, id),
            None => PlanView::Skip,
        }
    } else {
        PlanView::Skip
    }
}

fn text_or_default(ctx: &Vec<JsonField>, k: &str, dflt: &str) -> (r: String)
    ensures
        r@ == text_or(field_views(ctx@), k@, dflt@),
{
    match crate::assistant::field_text(ctx, k) {
        Some(t) => t,
        None => owned(dflt),
    }
}

/// The plan for one tool name, given the deployment context's fields, its
/// `sub_agents` object's fields, and the campaign directory in force.
pub fn plan_tool(name: &str, context: &Vec<JsonField>, sub_agents: &Vec<JsonField>, dir: Option<&str>) -> (r: ToolPlan)
    ensures
        plan_view(r) == plan_of(
            name@,
            field_views(context@),
            field_views(sub_agents@),
            match dir { Some(d) => Some(d@), None => None },
        ),
{
    proof {
        reveal_strlit("agent.");
    }
    if str_eq(name, "file.read") {
        ToolPlan::FileRead
    } else if str_eq(name, "file.write") {
        ToolPlan::FileWrite
    } else if str_eq(name, "bash.exec") {
        ToolPlan::BashExec
    } else if str_eq(name, "search.grep") {
        ToolPlan::SearchGrep
    } else if str_eq(name, "campaign.read") || str_eq(name, "campaign.write") || str_eq(name, "campaign.list") {
        match dir {
            Some(d) => if str_eq(name, "campaign.read") {
                ToolPlan::CampaignRead(owned(d))
            } else if str_eq(name, "campaign.write") {
                ToolPlan::CampaignWrite(owned(d))
            } else {
                ToolPlan::CampaignList(owned(d))
            },
            None => ToolPlan::Skip,
        }
    } else if str_eq(name, "rulebook.search") {
        match crate::assistant::field_text(context, "rulebook_dir") {
            Some(d) => ToolPlan::Rulebook {
                dir: d,
                ollama_host: text_or_default(context, "ollama_host", "http://localhost:11434"),
                embed_model: text_or_default(context, "embed_model", "nomic-embed-text"),
            },
            None => ToolPlan::Skip,
        }
    } else if str_eq(name, "dice.roll") {
        ToolPlan::DiceRoll
    } else {
        match strip_prefix_chars(&to_chars(name), "agent.") {
            None => ToolPlan::Skip,
            Some(rest) => {
                let sub = string_of(&rest);
                let mut key = owned("sub_agents.");
                push_str(&mut key, sub.as_str());
                let id = match crate::assistant::field_text(context, key.as_str()) {
                    Some(id) => Some(id),
                    None => crate::assistant::field_text(sub_agents, sub.as_str()),
                };
                match id {
                    Some(definition_id) => ToolPlan::SubAgent { tool: owned(name), definition_id },
                    None => ToolPlan::Skip,
                }
            },
        }
    }
}

/// The plans of a definition's tools, one per name, in order, with the
/// campaign directory the deployment context or the definition gives.
pub fn plan_executor(tool_names: &Vec<String>, campaign_dir: Option<&str>, context: &Vec<JsonField>, sub_agents: &Vec<JsonField>) -> (r: Vec<ToolPlan>)
    ensures
        r.len() == tool_names.len(),
        forall|i: int| 0 <= i < r.len() ==> #[trigger] plan_view(r@[i]) == plan_of(
            tool_names@[i]@,
            field_views(context@),
            field_views(sub_agents@),
            campaign_dir_of(field_views(context@), match campaign_dir { Some(d) => Some(d@), None => None }),
        ),
{
    let dir: Option<String> = match crate::assistant::field_text(context, "campaign_dir") {
        Some(d) => Some(d),
        None => match campaign_dir {
            Some(d) => Some(owned(d)),
            None => None,
        },
    };
    let ghost want_dir = campaign_dir_of(field_views(context@), match campaign_dir { Some(d) => Some(d@), None => None });
    assert(opt_view(dir) == want_dir);
    let mut r: Vec<ToolPlan> = Vec::new();
    let mut i: usize = 0;
    while i < tool_names.len()
        invariant
            i <= tool_names.len(),
            r.len() == i,
            opt_view(dir) == want_dir,
            forall|j: int| 0 <= j < i ==> #[trigger] plan_view(r@[j]) == plan_of(
                tool_names@[j]@,
                field_views(context@),
                field_views(sub_agents@),
                want_dir,
            ),
        decreases tool_names.len() - i,
    {
        let d: Option<&str> = match &dir {
            Some(s) => Some(s.as_str()),
            None => None,
        };
        let p = plan_tool(tool_names[i].as_str(), context, sub_agents, d);
        r.push(p);
        i += 1;
    }
    r
}

/// The description of a sub-agent tool.
pub fn sub_agent_description(name: &str, description: &str) -> (r: String)
    ensures
        r@ == "Sub-agent '"@ + name@ + "': "@ + description@ + ". Parameter: 'query' (string)."@,
{
    let mut r = owned("Sub-agent '");
    push_str(&mut r, name);
    push_str(&mut r, "': ");
    push_str(&mut r, description);
    push_str(&mut r, ". Parameter: 'query' (string).");
    r
}

/// A sub-agent's system prompt: its definition's, or a plain default.
pub fn sub_agent_prompt(custom: Option<&str>) -> (r: String)
    ensures
        r@ == match custom {
            Some(p) => p@,
            None => "You are a helpful AI agent."@,
        },
{
    match custom {
        Some(p) => owned(p),
        None => owned("You are a helpful AI agent."),
    }
}

// ─────────────────────────────── file classification ───────────────────────

/// The domain a file is classified in: the request's, else
/// `file-classification`.
pub fn ingest_domain(domain: Option<&str>) -> (r: String)
    ensures
        r@ == match domain {
            Some(d) => d@,
            None => "file-classification"@,
        },
{
    match domain {
        Some(d) => owned(d),
        None => owned("file-classification"),
    }
}

/// A classification task's intent: the override when there is one, else
/// the file's name and its first 600 characters.
pub fn ingest_intent(filename: &str, content: &str, intent_override: Option<&str>) -> (r: String)
    ensures
        r@ == match intent_override {
            Some(i) => i@,
            None => "File: "@ + filename@ + "\n\nExcerpt:\n"@ + take_chars(content@, 600),
        },
{
    match intent_override {
        Some(i) => owned(i),
        None => {
            let mut r = owned("File: ");
            push_str(&mut r, filename);
            push_str(&mut r, "\n\nExcerpt:\n");
            let e = take_prefix(content, 600);
            push_str(&mut r, e.as_str());
            r
        },
    }
}

/// What a tool event shows of a call's input: the first 300 characters of
/// its JSON.
pub fn event_excerpt(json: &str) -> (r: String)
    ensures
        r@ == take_chars(json@, 300),
{
    take_prefix(json, 300)
}

/// What a tool event shows of a call's output: `error: {e}` for a tool that
/// failed, else the first 300 characters of its output JSON.
pub fn tool_event_output(error: Option<&str>, output_json: &str) -> (r: String)
    ensures
        r@ == match error {
            Some(e) => "error: "@ + e@,
            None => take_chars(output_json@, 300),
        },
{
    match error {
        Some(e) => {
            let mut r = owned("error: ");
            push_str(&mut r, e);
            r
        },
        None => take_prefix(output_json, 300),
    }
}

// ─────────────────────────────── the event bus ─────────────────────────────

/// The kinds of task event the admin server broadcasts.
#[derive(Debug, Clone, Copy, PartialEq, Eq, Structural)]
pub enum EventKind {
    Started,
    Complete,
    Failed,
    PipelineStep,
    AgentSpawned,
    ToolCall,
    FileWrite,
}

/// The topic an event is published on: completions publish their campaign
/// writes on `campaign`; failures are not published.
pub open spec fn topic_of(k: EventKind) -> Option<Seq<char>> {
    match k {
        EventKind::Started => Some("task"@),
        EventKind::Complete => Some("campaign"@),
        EventKind::Failed => None,
        EventKind::PipelineStep => Some("pipeline"@),
        EventKind::AgentSpawned => Some("agent"@),
        EventKind::ToolCall => Some("tool"@),
        EventKind::FileWrite => Some("file"@),
    }
}

pub fn event_topic(k: EventKind) -> (r: Option<&'static str>)
    ensures
        match r {
            Some(t) => topic_of(k) == Some(t@),
            None => topic_of(k) is None,
        },
{
    match k {
        EventKind::Started => Some("task"),
        EventKind::Complete => Some("campaign"),
        EventKind::Failed => None,
        EventKind::PipelineStep => Some("pipeline"),
        EventKind::AgentSpawned => Some("agent"),
        EventKind::ToolCall => Some("tool"),
        EventKind::FileWrite => Some("file"),
    }
}

/// What a completed task publishes of one of its actions: for a
/// `campaign.write`, the file name (`unknown` when missing) and the content
/// (empty when missing); nothing for other tools.
pub fn campaign_write_event(tool: &str, filename: Option<&str>, content: Option<&str>) -> (r: Option<(String, String)>)
    ensures
        match r {
            Some((f, c)) => tool@ == "campaign.write"@
                && f@ == match filename { Some(x) => x@, None => "unknown"@ }
                && c@ == or_empty(match content { Some(x) => Some(x@), None => None }),
            None => tool@ != "campaign.write"@,
        },
{
    if !str_eq(tool, "campaign.write") {
        return None;
    }
    let f = match filename {
        Some(x) => owned(x),
        None => owned("unknown"),
    };
    Some((f, owned_or_empty(content)))
}

} // verus!
