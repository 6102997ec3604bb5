//! What the chat agents make of a model reply: the JSON object it holds, the
//! fenced ```` ```tool ```` / ```` ```result ```` blocks of the assistant
//! agents, the flat `action` objects of the Ollama agent, and the decisions
//! of the Ollama agent's task loop.
use vstd::prelude::*;

use crate::agent::{braced_object, extract_braced_object, is_rewrite, strip_fences, unfenced};
use crate::graph::{find_chars, find_str};
use crate::agent::ollama_capability;
use crate::tools::{ToolExecutor, ToolSpecView};
use crate::schemas::{copy_strings, AgentType, CapabilityManifest, ManifestView, ModelBackendView, ResourceRequirements};
use crate::text::{
    contains, contains_chars, copy_string, deep, first_index, split, split_chars, join, join_strings, lemma_first_index_step, lemma_views_push, occurs_at, owned,
    push_str, starts_with, str_eq, string_of, sub_chars, to_chars, trim, trim_chars, views,
};

verus! {

// ─────────────────────────────── JSON objects ──────────────────────────────

/// One field of a JSON object: its key, its text when the value is a JSON
/// string, and the value written back as JSON.
pub struct JsonField {
    pub key: String,
    pub text: Option<String>,
    pub json: String,
}

pub open spec fn opt_view(o: Option<String>) -> Option<Seq<char>> {
    match o {
        Some(s) => Some(s@),
        None => None,
    }
}

pub open spec fn field_view(f: JsonField) -> (Seq<char>, Option<Seq<char>>, Seq<char>) {
    (f.key@, opt_view(f.text), f.json@)
}

pub open spec fn field_views(v: Seq<JsonField>) -> Seq<(Seq<char>, Option<Seq<char>>, Seq<char>)> {
    v.map_values(|f: JsonField| field_view(f))
}

pub open spec fn parsed_view(r: Option<Option<Vec<JsonField>>>) -> Option<Option<Seq<(Seq<char>, Option<Seq<char>>, Seq<char>)>>> {
    match r {
        None => None,
        Some(None) => Some(None),
        Some(Some(v)) => Some(Some(field_views(v@))),
    }
}

/// What `serde_json::from_str::<serde_json::Value>` makes of a text, seen
/// through an object's fields: `None` when the text is not JSON,
/// `Some(None)` when it is JSON but no object, and `Some(Some(fields))` for
/// an object, its fields in the order the map keeps them.
pub uninterp spec fn json_object_of(text: Seq<char>) -> Option<Option<Seq<(Seq<char>, Option<Seq<char>>, Seq<char>)>>>;

/// Parses a text as JSON with `serde_json::from_str` and hands back an
/// object's fields, each with its string text (`Value::as_str`) and its JSON
/// (`Value::to_string`). The result is `json_object_of` of the text; the
/// keys of a `serde_json::Map` are distinct.
#[verifier::external_body]
pub(crate) fn parse_json_object(text: &str) -> (r: Option<Option<Vec<JsonField>>>)
    ensures
        parsed_view(r) == json_object_of(text@),
        match r {
            Some(Some(v)) => forall|i: int, j: int| 0 <= i < j < v.len() ==> #[trigger] v@[i].key@ != #[trigger] v@[j].key@,
            _ => true,
        },
{
    match serde_json::from_str::<serde_json::Value>(text) {
        Err(_) => None,
        Ok(serde_json::Value::Object(map)) => Some(Some(map.into_iter().map(|(key, value)| JsonField {
            text: value.as_str().map(String::from),
            json: value.to_string(),
            key,
        }).collect())),
        Ok(_) => Some(None),
    }
}

/// Fields named `k`.
pub open spec fn field_named(k: Seq<char>) -> spec_fn((Seq<char>, Option<Seq<char>>, Seq<char>)) -> bool {
    |f: (Seq<char>, Option<Seq<char>>, Seq<char>)| f.0 == k
}

/// The field stored under a key (`Value::get`).
pub open spec fn field_get(fs: Seq<(Seq<char>, Option<Seq<char>>, Seq<char>)>, k: Seq<char>) -> Option<(Seq<char>, Option<Seq<char>>, Seq<char>)> {
    match first_index(fs, field_named(k)) {
        Some(i) => Some(fs[i]),
        None => None,
    }
}

/// The position of the field named `key`.
fn find_field(fields: &Vec<JsonField>, key: &str) -> (r: Option<usize>)
    ensures
        match r {
            Some(i) => i < fields.len() && first_index(field_views(fields@), field_named(key@)) == Some(i as int),
            None => first_index(field_views(fields@), field_named(key@)) is None,
        },
{
    let ghost fs = field_views(fields@);
    let mut i: usize = 0;
    assert(fs.take(0) =~= Seq::<(Seq<char>, Option<Seq<char>>, Seq<char>)>::empty());
    while i < fields.len()
        invariant
            i <= fields.len(),
            fs == field_views(fields@),
            first_index(fs.take(i as int), field_named(key@)) is None,
        decreases fields.len() - i,
    {
        proof {
            lemma_first_index_step(fs, field_named(key@), i as int);
        }
        if str_eq(fields[i].key.as_str(), key) {
            return Some(i);
        }
        i += 1;
    }
    assert(fs.take(fields.len() as int) =~= fs);
    None
}

fn copy_opt(o: &Option<String>) -> (r: Option<String>)
    ensures
        opt_view(r) == opt_view(*o),
{
    match o {
        Some(s) => Some(copy_string(s)),
        None => None,
    }
}

/// A copy of a field.
pub fn copy_field(f: &JsonField) -> (r: JsonField)
    ensures
        field_view(r) == field_view(*f),
{
    JsonField { key: copy_string(&f.key), text: copy_opt(&f.text), json: copy_string(&f.json) }
}

// ─────────────────────────────── fenced blocks ─────────────────────────────

/// The trimmed text between `marker` and the next ```` ``` ```` after it.
pub open spec fn fenced(text: Seq<char>, marker: Seq<char>) -> Option<Seq<char>> {
    match find_str(text, marker) {
        Some(i) => {
            let after = text.skip(i + marker.len());
            match find_str(after, "```"@) {
                Some(j) => Some(trim(after.take(j))),
                None => None,
            }
        },
        None => None,
    }
}

/// The block of a reply that follows `marker` (see [`fenced`]).
pub fn fenced_block(text: &str, marker: &str) -> (r: Option<String>)
    ensures
        opt_view(r) == fenced(text@, marker@),
{
    let tv = to_chars(text);
    let mv = to_chars(marker);
    match find_chars(&tv, &mv) {
        None => None,
        Some(i) => {
            assert(occurs_at(tv@, mv@, i as int));
            let ml = mv.len();
            assert(i as int + ml as int <= tv.len() as int);
            let start = i + ml;
            let after = sub_chars(&tv, start, tv.len());
            assert(after@ =~= text@.skip(i + marker@.len()));
            let fence = to_chars("```");
            match find_chars(&after, &fence) {
                None => None,
                Some(j) => {
                    assert(occurs_at(after@, fence@, j as int));
                    let inner = sub_chars(&after, 0, j);
                    assert(inner@ =~= after@.take(j as int));
                    Some(string_of(&trim_chars(&inner)))
                },
            }
        },
    }
}

// ─────────────────────────────── assistant replies ─────────────────────────

/// A tool the model asked for: its name, its parameters as JSON, and why.
pub struct ToolRequest {
    pub tool: String,
    pub parameters: String,
    pub justification: Option<String>,
}

pub open spec fn request_view(r: ToolRequest) -> (Seq<char>, Seq<char>, Option<Seq<char>>) {
    (r.tool@, r.parameters@, opt_view(r.justification))
}

/// The `result` value of a reply object, as JSON.
pub open spec fn result_of(fs: Seq<(Seq<char>, Option<Seq<char>>, Seq<char>)>) -> Option<Seq<char>> {
    match field_get(fs, "result"@) {
        Some(f) => Some(f.2),
        None => None,
    }
}

/// The text of a field that holds a JSON string.
pub open spec fn text_of(fs: Seq<(Seq<char>, Option<Seq<char>>, Seq<char>)>, k: Seq<char>) -> Option<Seq<char>> {
    match field_get(fs, k) {
        Some(f) => f.1,
        None => None,
    }
}

/// The tool call of a reply object: a string `tool`, any `parameters`, and a
/// `justification` when it is a string.
pub open spec fn tool_request_of(fs: Seq<(Seq<char>, Option<Seq<char>>, Seq<char>)>) -> Option<(Seq<char>, Seq<char>, Option<Seq<char>>)> {
    match text_of(fs, "tool"@) {
        Some(tool) => match field_get(fs, "parameters"@) {
            Some(p) => Some((tool, p.2, text_of(fs, "justification"@))),
            None => None,
        },
        None => None,
    }
}

/// The `result` value of a parsed reply object.
pub fn result_field(fields: &Vec<JsonField>) -> (r: Option<String>)
    ensures
        opt_view(r) == result_of(field_views(fields@)),
{
    match find_field(fields, "result") {
        Some(i) => Some(copy_string(&fields[i].json)),
        None => None,
    }
}

/// The text of the field named `key`, when it holds a JSON string.
pub fn field_text(fields: &Vec<JsonField>, key: &str) -> (r: Option<String>)
    ensures
        opt_view(r) == text_of(field_views(fields@), key@),
{
    match find_field(fields, key) {
        Some(i) => copy_opt(&fields[i].text),
        None => None,
    }
}

/// The tool call of a parsed reply object.
pub fn tool_request(fields: &Vec<JsonField>) -> (r: Option<ToolRequest>)
    ensures
        match r {
            Some(q) => tool_request_of(field_views(fields@)) == Some(request_view(q)),
            None => tool_request_of(field_views(fields@)) is None,
        },
{
    let tool = match field_text(fields, "tool") {
        Some(t) => t,
        None => return None,
    };
    let p = match find_field(fields, "parameters") {
        Some(i) => i,
        None => return None,
    };
    let justification = field_text(fields, "justification");
    Some(ToolRequest { tool, parameters: copy_string(&fields[p].json), justification })
}

/// What an assistant agent does with a reply.
pub enum AssistantStep {
    /// The reply carries a ```` ```result ```` object: the task is done with
    /// this value (JSON).
    Finish(String),
    /// The reply asks for a tool.
    Call(ToolRequest),
    /// Neither: the reply itself is the answer.
    Answer,
}

pub enum StepView {
    Finish(Seq<char>),
    Call((Seq<char>, Seq<char>, Option<Seq<char>>)),
    Answer,
}

pub open spec fn step_view(s: AssistantStep) -> StepView {
    match s {
        AssistantStep::Finish(j) => StepView::Finish(j@),
        AssistantStep::Call(q) => StepView::Call(request_view(q)),
        AssistantStep::Answer => StepView::Answer,
    }
}

/// The result a reply reports: its ```` ```result ```` block parsed as a
/// JSON object with a `result` field.
pub open spec fn reply_result(reply: Seq<char>) -> Option<Seq<char>> {
    match fenced(reply, "```result"@) {
        Some(b) => match json_object_of(b) {
            Some(Some(fs)) => result_of(fs),
            _ => None,
        },
        None => None,
    }
}

/// The tool call a reply makes: its ```` ```tool ```` block parsed as a JSON
/// object with a string `tool` and `parameters`.
pub open spec fn reply_tool_call(reply: Seq<char>) -> Option<(Seq<char>, Seq<char>, Option<Seq<char>>)> {
    match fenced(reply, "```tool"@) {
        Some(b) => match json_object_of(b) {
            Some(Some(fs)) => tool_request_of(fs),
            _ => None,
        },
        None => None,
    }
}

/// A reply's result first, then its tool call, else the reply is the answer.
pub open spec fn assistant_step_of(reply: Seq<char>) -> StepView {
    match reply_result(reply) {
        Some(r) => StepView::Finish(r),
        None => match reply_tool_call(reply) {
            Some(q) => StepView::Call(q),
            None => StepView::Answer,
        },
    }
}

/// What the DM-assistant and media-server agents do with a model reply.
pub fn assistant_step(reply: &str) -> (r: AssistantStep)
    ensures
        step_view(r) == assistant_step_of(reply@),
{
    if let Some(block) = fenced_block(reply, "```result") {
        if let Some(Some(fields)) = parse_json_object(block.as_str()) {
            if let Some(result) = result_field(&fields) {
                return AssistantStep::Finish(result);
            }
        }
    }
    if let Some(block) = fenced_block(reply, "```tool") {
        if let Some(Some(fields)) = parse_json_object(block.as_str()) {
            if let Some(q) = tool_request(&fields) {
                return AssistantStep::Call(q);
            }
        }
    }
    AssistantStep::Answer
}

// ─────────────────────────────── Ollama actions ────────────────────────────

/// The JSON a cleaned reply holds: the whole text when it parses, otherwise
/// its braced object.
pub open spec fn reply_value_of(s: Seq<char>) -> Option<Option<Seq<(Seq<char>, Option<Seq<char>>, Seq<char>)>>> {
    match json_object_of(s) {
        Some(v) => Some(v),
        None => match braced_object(s) {
            Some(o) => json_object_of(o),
            None => None,
        },
    }
}

/// A field that is a tool parameter: anything but `action` and `justification`.
pub open spec fn is_param(f: (Seq<char>, Option<Seq<char>>, Seq<char>)) -> bool {
    f.0 != "action"@ && f.0 != "justification"@
}

/// The fields of an action object that are tool parameters, in order.
pub open spec fn params_of(fs: Seq<(Seq<char>, Option<Seq<char>>, Seq<char>)>) -> Seq<(Seq<char>, Option<Seq<char>>, Seq<char>)>
    decreases fs.len(),
{
    if fs.len() == 0 {
        seq![]
    } else {
        let p = params_of(fs.drop_last());
        if is_param(fs.last()) {
            p.push(fs.last())
        } else {
            p
        }
    }
}

/// What the Ollama agent's model asked for.
pub enum AgentAction {
    /// `{"action": "result", "result": ...}`: the task's result (JSON).
    Result(String),
    /// Any other action names a tool; the object's other fields are its
    /// parameters.
    ToolCall { tool: String, parameters: Vec<JsonField>, justification: Option<String> },
}

pub enum ActionView {
    Result(Seq<char>),
    ToolCall(Seq<char>, Seq<(Seq<char>, Option<Seq<char>>, Seq<char>)>, Option<Seq<char>>),
}

pub open spec fn action_view(a: AgentAction) -> ActionView {
    match a {
        AgentAction::Result(j) => ActionView::Result(j@),
        AgentAction::ToolCall { tool, parameters, justification } => ActionView::ToolCall(
            tool@,
            field_views(parameters@),
            opt_view(justification),
        ),
    }
}

pub open spec fn action_opt_view(a: Option<AgentAction>) -> Option<ActionView> {
    match a {
        Some(x) => Some(action_view(x)),
        None => None,
    }
}

/// The action of an object: a string `action` field is required; `result`
/// ends the task with the `result` field (JSON `null` when there is none).
pub open spec fn action_of(fs: Seq<(Seq<char>, Option<Seq<char>>, Seq<char>)>) -> Option<ActionView> {
    match text_of(fs, "action"@) {
        Some(a) => if a == "result"@ {
            Some(ActionView::Result(
                match field_get(fs, "result"@) {
                    Some(f) => f.2,
                    None => "null"@,
                },
            ))
        } else {
            Some(ActionView::ToolCall(a, params_of(fs), text_of(fs, "justification"@)))
        },
        None => None,
    }
}

/// The action of a reply: its code fences stripped, then its JSON object.
pub open spec fn reply_action_of(reply: Seq<char>) -> Option<ActionView> {
    match reply_value_of(unfenced(reply)) {
        Some(Some(fs)) => action_of(fs),
        _ => None,
    }
}

/// The tool parameters of an action object.
fn params_from(fields: &Vec<JsonField>) -> (r: Vec<JsonField>)
    ensures
        field_views(r@) == params_of(field_views(fields@)),
{
    let ghost fs = field_views(fields@);
    let mut r: Vec<JsonField> = Vec::new();
    let mut i: usize = 0;
    assert(fs.take(0) =~= Seq::<(Seq<char>, Option<Seq<char>>, Seq<char>)>::empty());
    while i < fields.len()
        invariant
            i <= fields.len(),
            fs == field_views(fields@),
            field_views(r@) == params_of(fs.take(i as int)),
        decreases fields.len() - i,
    {
        let ghost before = r@;
        proof {
            assert(fs.take(i + 1).drop_last() =~= fs.take(i as int));
            assert(fs.take(i + 1).last() == fs[i as int]);
        }
        let f = &fields[i];
        if !str_eq(f.key.as_str(), "action") && !str_eq(f.key.as_str(), "justification") {
            r.push(copy_field(f));
            assert(field_views(r@) =~= field_views(before).push(field_view(*f)));
        }
        i += 1;
    }
    assert(fs.take(fields.len() as int) =~= fs);
    r
}

/// The action of a parsed object.
pub fn action_from_fields(fields: &Vec<JsonField>) -> (r: Option<AgentAction>)
    ensures
        action_opt_view(r) == action_of(field_views(fields@)),
{
    let action = match field_text(fields, "action") {
        Some(a) => a,
        None => return None,
    };
    if str_eq(action.as_str(), "result") {
        let result = match find_field(fields, "result") {
            Some(i) => copy_string(&fields[i].json),
            None => {
                proof {
                    reveal_strlit("null");
                }
                owned("null")
            },
        };
        Some(AgentAction::Result(result))
    } else {
        let justification = field_text(fields, "justification");
        Some(AgentAction::ToolCall { tool: action, parameters: params_from(fields), justification })
    }
}

/// What the Ollama agent makes of a model reply (see [`reply_action_of`]).
pub fn reply_action(reply: &str) -> (r: Option<AgentAction>)
    ensures
        action_opt_view(r) == reply_action_of(reply@),
{
    let cleaned = strip_fences(reply);
    let parsed = match parse_json_object(cleaned.as_str()) {
        Some(v) => v,
        None => match extract_braced_object(cleaned.as_str()) {
            Some(o) => match parse_json_object(o.as_str()) {
                Some(v) => v,
                None => return None,
            },
            None => return None,
        },
    };
    match parsed {
        Some(fields) => action_from_fields(&fields),
        None => None,
    }
}

// ─────────────────────────────── the task loop ─────────────────────────────

/// The Ollama agent's progress through a task: how many replies it has
/// handled, how many it may handle, and the campaign files it has written.
pub struct TaskLoop {
    pub max_iterations: usize,
    pub iteration: usize,
    pub written: Vec<String>,
}

/// What the task loop does after a reply.
pub enum LoopDecision {
    /// The model reported its result (JSON): the task is complete.
    Finish(String),
    /// Run the tool, then show the model its output.
    Execute { tool: String, parameters: Vec<JsonField>, justification: Option<String> },
    /// The model rewrote a file it had written already, a loop: the task is
    /// complete with the files written so far.
    Stop(Vec<String>),
    /// The reply held no action: it is the answer.
    Respond,
}

pub enum DecisionView {
    Finish(Seq<char>),
    Execute(Seq<char>, Seq<(Seq<char>, Option<Seq<char>>, Seq<char>)>, Option<Seq<char>>),
    Stop(Seq<Seq<char>>),
    Respond,
}

pub open spec fn decision_view(d: LoopDecision) -> DecisionView {
    match d {
        LoopDecision::Finish(j) => DecisionView::Finish(j@),
        LoopDecision::Execute { tool, parameters, justification } => DecisionView::Execute(
            tool@,
            field_views(parameters@),
            opt_view(justification),
        ),
        LoopDecision::Stop(files) => DecisionView::Stop(views(files@)),
        LoopDecision::Respond => DecisionView::Respond,
    }
}

/// The file a `campaign.write` call writes, when its `filename` is a string.
pub open spec fn write_target(tool: Seq<char>, params: Seq<(Seq<char>, Option<Seq<char>>, Seq<char>)>) -> Option<Seq<char>> {
    if tool == "campaign.write"@ {
        text_of(params, "filename"@)
    } else {
        None
    }
}

/// The decision on an action, given the files written so far.
pub open spec fn decision_of(written: Seq<Seq<char>>, action: Option<ActionView>) -> DecisionView {
    match action {
        None => DecisionView::Respond,
        Some(ActionView::Result(j)) => DecisionView::Finish(j),
        Some(ActionView::ToolCall(tool, params, why)) => match write_target(tool, params) {
            Some(f) => if written.contains(f) {
                DecisionView::Stop(written)
            } else {
                DecisionView::Execute(tool, params, why)
            },
            None => DecisionView::Execute(tool, params, why),
        },
    }
}

/// The files written after an action: a first write of a file adds it.
pub open spec fn written_after(written: Seq<Seq<char>>, action: Option<ActionView>) -> Seq<Seq<char>> {
    match action {
        Some(ActionView::ToolCall(tool, params, _)) => match write_target(tool, params) {
            Some(f) => if written.contains(f) { written } else { written.push(f) },
            None => written,
        },
        _ => written,
    }
}

impl TaskLoop {
    /// A task's loop: `max_iterations` replies, 20 when the task sets none.
    pub fn new(max_iterations: Option<u32>) -> (r: TaskLoop)
        ensures
            r.max_iterations == match max_iterations {
                Some(m) => m as usize,
                None => 20usize,
            },
            r.iteration == 0,
            r.written@.len() == 0,
    {
        let m: usize = match max_iterations {
            Some(m) => m as usize,
            None => 20,
        };
        TaskLoop { max_iterations: m, iteration: 0, written: Vec::new() }
    }

    /// Whether the model may be asked once more.
    pub fn has_turn(&self) -> (r: bool)
        ensures
            r == (self.iteration < self.max_iterations),
    {
        self.iteration < self.max_iterations
    }

    /// Takes the action of one reply. The files written stay distinct.
    pub fn on_reply(&mut self, action: Option<AgentAction>) -> (r: LoopDecision)
        requires
            old(self).iteration < old(self).max_iterations,
        ensures
            final(self).iteration == old(self).iteration + 1,
            final(self).max_iterations == old(self).max_iterations,
            decision_view(r) == decision_of(views(old(self).written@), action_opt_view(action)),
            views(final(self).written@) == written_after(views(old(self).written@), action_opt_view(action)),
            views(old(self).written@).no_duplicates() ==> views(final(self).written@).no_duplicates(),
    {
        self.iteration = self.iteration + 1;
        match action {
            None => LoopDecision::Respond,
            Some(AgentAction::Result(j)) => LoopDecision::Finish(j),
            Some(AgentAction::ToolCall { tool, parameters, justification }) => {
                let target = if str_eq(tool.as_str(), "campaign.write") {
                    field_text(&parameters, "filename")
                } else {
                    None
                };
                match target {
                    Some(f) => {
                        if is_rewrite(tool.as_str(), Some(f.as_str()), &self.written) {
                            return LoopDecision::Stop(copy_strings(&self.written));
                        }
                        let ghost before = self.written@;
                        self.written.push(f);
                        proof {
                            lemma_views_push(before, f);
                        }
                    },
                    None => {},
                }
                LoopDecision::Execute { tool, parameters, justification }
            },
        }
    }
}

// ─────────────────────────────── assistant prompts ─────────────────────────

/// The tool names as a list, one `- name` line each.
pub open spec fn bullet_list(tools: Seq<Seq<char>>) -> Seq<char> {
    join(tools.map_values(|t: Seq<char>| "- "@ + t), "\n"@)
}

fn bullet_list_text(tools: &Vec<String>) -> (r: String)
    ensures
        r@ == bullet_list(views(tools@)),
{
    let ghost ts = views(tools@);
    let ghost want = ts.map_values(|t: Seq<char>| "- "@ + t);
    let mut lines: Vec<String> = Vec::new();
    let mut i: usize = 0;
    while i < tools.len()
        invariant
            i <= tools.len(),
            ts == views(tools@),
            want == ts.map_values(|t: Seq<char>| "- "@ + t),
            views(lines@) == want.take(i as int),
        decreases tools.len() - i,
    {
        let mut l = owned("- ");
        push_str(&mut l, tools[i].as_str());
        proof {
            lemma_views_push(lines@, l);
        }
        lines.push(l);
        assert(want.take(i + 1) =~= want.take(i as int).push(want[i as int]));
        i += 1;
    }
    assert(want.take(tools.len() as int) =~= want);
    join_strings(&lines, "\n")
}

/// The DM assistant's system prompt: its duties, the campaign context it
/// preloaded, its tools, and the fenced reply contract.
pub open spec fn dm_prompt(campaign_context: Seq<char>, tools: Seq<Seq<char>>) -> Seq<char> {
    "You are an expert TTRPG Dungeon Master assistant helping a human DM run their campaign.\n\nYour responsibilities:\n- Answer rules questions accurately, using rulebook.search to find and cite the specific rule text\n- Help the DM track campaign details by reading and updating campaign files\n- Suggest narrative developments, NPC motivations, and encounter ideas\n- Help the DM improvise responses to unexpected player actions\n- When a player is being snooty about a ruling, find the exact rule text and cite it precisely\n\nGuidelines:\n- When answering a rules question, always use rulebook.search first — quote the returned text directly in your response with its citation (e.g. \"[PHB.txt, section 12]\")\n- For campaign updates (NPCs met, locations discovered, session events), use campaign.write with append:true on session_notes.md or the relevant file\n- For recalling campaign details, use campaign.read on the relevant file\n- Keep responses practical and DM-focused — the human is at the table and needs quick, actionable answers\n\nCurrent campaign context (preloaded):\n"@ + campaign_context + "\n\nAvailable tools:\n"@ + bullet_list(tools) + "\n\nTo use a tool, respond with a JSON block:\n```tool\n{\"tool\": \"<tool_name>\", \"parameters\": {...}, \"justification\": \"why\"}\n```\n\nWhen you have finished, respond with:\n```result\n{\"result\": \"your full response to the DM\"}\n```\n\nThink step by step. Cite rulebook sections directly. Be a great co-DM."@
}

pub fn dm_system_prompt(campaign_context: &str, tools: &Vec<String>) -> (r: String)
    ensures
        r@ == dm_prompt(campaign_context@, views(tools@)),
{
    let mut r = owned("You are an expert TTRPG Dungeon Master assistant helping a human DM run their campaign.\n\nYour responsibilities:\n- Answer rules questions accurately, using rulebook.search to find and cite the specific rule text\n- Help the DM track campaign details by reading and updating campaign files\n- Suggest narrative developments, NPC motivations, and encounter ideas\n- Help the DM improvise responses to unexpected player actions\n- When a player is being snooty about a ruling, find the exact rule text and cite it precisely\n\nGuidelines:\n- When answering a rules question, always use rulebook.search first — quote the returned text directly in your response with its citation (e.g. \"[PHB.txt, section 12]\")\n- For campaign updates (NPCs met, locations discovered, session events), use campaign.write with append:true on session_notes.md or the relevant file\n- For recalling campaign details, use campaign.read on the relevant file\n- Keep responses practical and DM-focused — the human is at the table and needs quick, actionable answers\n\nCurrent campaign context (preloaded):\n");
    push_str(&mut r, campaign_context);
    push_str(&mut r, "\n\nAvailable tools:\n");
    let list = bullet_list_text(tools);
    push_str(&mut r, list.as_str());
    push_str(&mut r, "\n\nTo use a tool, respond with a JSON block:\n```tool\n{\"tool\": \"<tool_name>\", \"parameters\": {...}, \"justification\": \"why\"}\n```\n\nWhen you have finished, respond with:\n```result\n{\"result\": \"your full response to the DM\"}\n```\n\nThink step by step. Cite rulebook sections directly. Be a great co-DM.");
    r
}

/// The media-server assistant's system prompt, naming its server.
pub open spec fn media_prompt(server_name: Seq<char>, tools: Seq<Seq<char>>) -> Seq<char> {
    "You are a helpful media server assistant for a Jellyfin instance called \""@ + server_name + "\".\n\nYou help users:\n- Find movies, TV shows, and other content in the library\n- Discover what's been recently added\n- Check what is currently being watched\n- Get library statistics and an overview of what's available\n- Make recommendations based on what's in the library\n\nGuidelines:\n- For search questions (\"do you have X?\", \"find me X\"), always use media.search first\n- For \"what's new?\" or \"recently added?\" questions, use media.recent\n- For \"what's playing?\" or \"who's watching?\", use media.sessions\n- For library overviews or counts, use media.library\n- Be concise and conversational — the user is likely on a couch\n- When listing results, keep it scannable (name, year, one-line overview)\n\nAvailable tools:\n"@ + bullet_list(tools) + "\n\nTo use a tool, respond with a JSON block:\n```tool\n{\"tool\": \"<tool_name>\", \"parameters\": {...}, \"justification\": \"why\"}\n```\n\nWhen you have finished, respond with:\n```result\n{\"result\": \"your response to the user\"}\n```\n\nThink step by step. Use tools to look up real data before answering."@
}

pub fn media_system_prompt(server_name: &str, tools: &Vec<String>) -> (r: String)
    ensures
        r@ == media_prompt(server_name@, views(tools@)),
{
    let mut r = owned("You are a helpful media server assistant for a Jellyfin instance called \"");
    push_str(&mut r, server_name);
    push_str(&mut r, "\".\n\nYou help users:\n- Find movies, TV shows, and other content in the library\n- Discover what's been recently added\n- Check what is currently being watched\n- Get library statistics and an overview of what's available\n- Make recommendations based on what's in the library\n\nGuidelines:\n- For search questions (\"do you have X?\", \"find me X\"), always use media.search first\n- For \"what's new?\" or \"recently added?\" questions, use media.recent\n- For \"what's playing?\" or \"who's watching?\", use media.sessions\n- For library overviews or counts, use media.library\n- Be concise and conversational — the user is likely on a couch\n- When listing results, keep it scannable (name, year, one-line overview)\n\nAvailable tools:\n");
    let list = bullet_list_text(tools);
    push_str(&mut r, list.as_str());
    push_str(&mut r, "\n\nTo use a tool, respond with a JSON block:\n```tool\n{\"tool\": \"<tool_name>\", \"parameters\": {...}, \"justification\": \"why\"}\n```\n\nWhen you have finished, respond with:\n```result\n{\"result\": \"your response to the user\"}\n```\n\nThink step by step. Use tools to look up real data before answering.");
    r
}

// ─────────────────────────────── assistant identity ────────────────────────

/// What an assistant agent announces: a specialist named after its role and
/// model, with its tools and domains, on a GPU with 4096 MB.
pub open spec fn assistant_manifest(
    agent_id: Seq<char>,
    role: Seq<char>,
    model: Seq<char>,
    host: Seq<char>,
    tools: Seq<Seq<char>>,
    domains: Seq<Seq<char>>,
) -> ManifestView {
    ManifestView {
        agent_id,
        name: role + " ("@ + model + ")"@,
        agent_type: AgentType::Specialist,
        tools_available: tools,
        model_backend: ModelBackendView::Ollama { model, host },
        domains,
        resource_requirements: ResourceRequirements { gpu_required: true, min_memory_mb: Some(4096), min_vram_mb: Some(4096) },
    }
}

fn assistant_capability(agent_id: &str, role: &str, model: &str, host: &str, tools: &Vec<String>, domains: &Vec<String>) -> (r: CapabilityManifest)
    ensures
        r@ == assistant_manifest(agent_id@, role@, model@, host@, views(tools@), views(domains@)),
{
    let mut name = owned(role);
    push_str(&mut name, " (");
    push_str(&mut name, model);
    push_str(&mut name, ")");
    ollama_capability(agent_id, name.as_str(), AgentType::Specialist, tools, model, host, domains)
}

fn two_strings(a: &str, b: &str) -> (r: Vec<String>)
    ensures
        views(r@) == seq![a@, b@],
{
    let r = vec![owned(a), owned(b)];
    assert(views(r@) =~= seq![a@, b@]);
    r
}

/// The DM assistant's manifest: `DM Assistant ({model})`, domains
/// `dm-assistant` and `ttrpg`.
pub fn dm_capability(agent_id: &str, model: &str, host: &str, tools: &Vec<String>) -> (r: CapabilityManifest)
    ensures
        r@ == assistant_manifest(agent_id@, "DM Assistant"@, model@, host@, views(tools@), seq!["dm-assistant"@, "ttrpg"@]),
{
    let domains = two_strings("dm-assistant", "ttrpg");
    assistant_capability(agent_id, "DM Assistant", model, host, tools, &domains)
}

/// The media-server assistant's manifest: `Media Server Assistant ({model})`,
/// domains `media` and `jellyfin`.
pub fn media_capability(agent_id: &str, model: &str, host: &str, tools: &Vec<String>) -> (r: CapabilityManifest)
    ensures
        r@ == assistant_manifest(agent_id@, "Media Server Assistant"@, model@, host@, views(tools@), seq!["media"@, "jellyfin"@]),
{
    let domains = two_strings("media", "jellyfin");
    assistant_capability(agent_id, "Media Server Assistant", model, host, tools, &domains)
}

// ─────────────────────────────── campaign context ──────────────────────────

/// The campaign files the DM assistant preloads, in order.
pub open spec fn dm_context_names() -> Seq<Seq<char>> {
    seq!["world.md"@, "players.md"@, "npcs.md"@, "locations.md"@]
}

pub fn dm_context_files() -> (r: Vec<String>)
    ensures
        views(r@) == dm_context_names(),
{
    let r = vec![owned("world.md"), owned("players.md"), owned("npcs.md"), owned("locations.md")];
    assert(views(r@) =~= dm_context_names());
    r
}

/// One section per file that is not blank: `=== name ===`, its contents, a
/// blank line.
pub open spec fn context_sections(files: Seq<(Seq<char>, Seq<char>)>) -> Seq<char>
    decreases files.len(),
{
    if files.len() == 0 {
        seq![]
    } else {
        let (name, contents) = files.last();
        context_sections(files.drop_last()) + if trim(contents).len() > 0 {
            "=== "@ + name + " ===\n"@ + contents + "\n\n"@
        } else {
            Seq::<char>::empty()
        }
    }
}

pub open spec fn campaign_context_of(files: Seq<(Seq<char>, Seq<char>)>) -> Seq<char> {
    let s = context_sections(files);
    if s.len() == 0 {
        "No campaign files found yet. Use campaign.write to start building them."@
    } else {
        s
    }
}

pub open spec fn file_views(v: Seq<(String, String)>) -> Seq<(Seq<char>, Seq<char>)> {
    v.map_values(|p: (String, String)| (p.0@, p.1@))
}

/// The campaign context of the files that could be read, each with its
/// contents.
pub fn campaign_context(files: &Vec<(String, String)>) -> (r: String)
    ensures
        r@ == campaign_context_of(file_views(files@)),
{
    let ghost fs = file_views(files@);
    let mut r = String::new();
    let mut i: usize = 0;
    assert(fs.take(0) =~= Seq::<(Seq<char>, Seq<char>)>::empty());
    while i < files.len()
        invariant
            i <= files.len(),
            fs == file_views(files@),
            r@ == context_sections(fs.take(i as int)),
        decreases files.len() - i,
    {
        proof {
            assert(fs.take(i + 1).drop_last() =~= fs.take(i as int));
            assert(fs.take(i + 1).last() == fs[i as int]);
        }
        let name = &files[i].0;
        let contents = &files[i].1;
        let t = trim_chars(&to_chars(contents.as_str()));
        if t.len() > 0 {
            push_str(&mut r, "=== ");
            push_str(&mut r, name.as_str());
            push_str(&mut r, " ===\n");
            push_str(&mut r, contents.as_str());
            push_str(&mut r, "\n\n");
        } else {
            assert(r@ =~= r@ + Seq::<char>::empty());
        }
        i += 1;
    }
    assert(fs.take(files.len() as int) =~= fs);
    if r.as_str().is_empty() {
        owned("No campaign files found yet. Use campaign.write to start building them.")
    } else {
        r
    }
}

// ─────────────────────────────── seeded context ────────────────────────────

/// Session endings and notes carry the most continuity.
pub open spec fn prioritised(name: Seq<char>) -> bool {
    contains(name, "ending"@) || contains(name, "notes"@)
}

/// The names for which `prioritised` is `keep`, in order.
pub open spec fn names_where(files: Seq<Seq<char>>, keep: bool) -> Seq<Seq<char>>
    decreases files.len(),
{
    if files.len() == 0 {
        seq![]
    } else {
        let p = names_where(files.drop_last(), keep);
        if prioritised(files.last()) == keep {
            p.push(files.last())
        } else {
            p
        }
    }
}

/// The order the Ollama agent reads campaign files in: endings and notes
/// first, each group in listing order (a stable sort).
pub open spec fn seed_order_of(files: Seq<Seq<char>>) -> Seq<Seq<char>> {
    names_where(files, true) + names_where(files, false)
}

fn names_where_exec(files: &Vec<String>, keep: bool) -> (r: Vec<String>)
    ensures
        views(r@) == names_where(views(files@), keep),
{
    let ghost fs = views(files@);
    let ending = to_chars("ending");
    let notes = to_chars("notes");
    let mut r: Vec<String> = Vec::new();
    let mut i: usize = 0;
    assert(fs.take(0) =~= Seq::<Seq<char>>::empty());
    while i < files.len()
        invariant
            i <= files.len(),
            fs == views(files@),
            ending@ == "ending"@,
            notes@ == "notes"@,
            views(r@) == names_where(fs.take(i as int), keep),
        decreases files.len() - i,
    {
        proof {
            assert(fs.take(i + 1).drop_last() =~= fs.take(i as int));
            assert(fs.take(i + 1).last() == fs[i as int]);
        }
        let name = to_chars(files[i].as_str());
        let p = contains_chars(&name, &ending) || contains_chars(&name, &notes);
        if p == keep {
            let ghost before = r@;
            let c = copy_string(&files[i]);
            r.push(c);
            proof {
                lemma_views_push(before, c);
            }
        }
        i += 1;
    }
    assert(fs.take(files.len() as int) =~= fs);
    r
}

/// The campaign files in the order they are read into the seeded context.
pub fn seed_order(files: &Vec<String>) -> (r: Vec<String>)
    ensures
        views(r@) == seed_order_of(views(files@)),
{
    let mut first = names_where_exec(files, true);
    let rest = names_where_exec(files, false);
    let ghost a = first@;
    let mut i: usize = 0;
    while i < rest.len()
        invariant
            i <= rest.len(),
            views(first@) == views(a) + views(rest@).take(i as int),
        decreases rest.len() - i,
    {
        let ghost before = first@;
        let c = copy_string(&rest[i]);
        first.push(c);
        proof {
            lemma_views_push(before, c);
            assert(views(rest@).take(i + 1) =~= views(rest@).take(i as int).push(rest@[i as int]@));
        }
        i += 1;
    }
    assert(views(rest@).take(rest.len() as int) =~= views(rest@));
    first
}

/// The seeded context holds at most this many bytes before it stops reading.
pub open spec fn seed_budget() -> nat {
    2000
}

/// Whether another file fits into the seeded context.
pub fn seed_has_room(total: usize) -> (r: bool)
    ensures
        r == (total < seed_budget()),
{
    total < 2000
}

/// How many bytes of a file the seeded context takes: all of it, or what is
/// left of the budget.
pub fn seed_take(total: usize, content_len: usize) -> (r: usize)
    requires
        total < seed_budget(),
    ensures
        r == if content_len <= seed_budget() - total { content_len as int } else { seed_budget() - total },
{
    let remaining = 2000 - total;
    if content_len > remaining {
        remaining
    } else {
        content_len
    }
}

/// The bytes an entry `### {name}\n{chunk}\n` adds to the seeded context.
pub fn seed_entry_len(name_len: usize, chunk_len: usize) -> (r: usize)
    requires
        name_len + chunk_len + 6 <= usize::MAX,
    ensures
        r == name_len + chunk_len + 6,
{
    name_len + chunk_len + 6
}

/// One file of the seeded context: `### {name}\n{chunk}\n`.
pub open spec fn seed_entry_text(name: Seq<char>, chunk: Seq<char>) -> Seq<char> {
    "### "@ + name + "\n"@ + chunk + "\n"@
}

pub fn seed_entry(name: &str, chunk: &str) -> (r: String)
    ensures
        r@ == seed_entry_text(name@, chunk@),
{
    let mut r = owned("### ");
    push_str(&mut r, name);
    push_str(&mut r, "\n");
    push_str(&mut r, chunk);
    push_str(&mut r, "\n");
    r
}

/// The seeded context: its heading, then the files' entries, one per line
/// break.
pub open spec fn seed_context_text(entries: Seq<Seq<char>>) -> Seq<char> {
    join(seq!["## Campaign Context (recent session files)\n"@] + entries, "\n"@)
}

pub fn seed_context(entries: &Vec<String>) -> (r: String)
    ensures
        r@ == seed_context_text(views(entries@)),
{
    let mut all: Vec<String> = Vec::new();
    let h = owned("## Campaign Context (recent session files)\n");
    proof {
        lemma_views_push(all@, h);
    }
    all.push(h);
    let ghost head = views(all@);
    let mut i: usize = 0;
    while i < entries.len()
        invariant
            i <= entries.len(),
            views(all@) == head + views(entries@).take(i as int),
            head.len() == 1,
        decreases entries.len() - i,
    {
        let e = copy_string(&entries[i]);
        proof {
            lemma_views_push(all@, e);
            assert(views(entries@).take(i + 1) =~= views(entries@).take(i as int).push(entries@[i as int]@));
        }
        all.push(e);
        i += 1;
    }
    proof {
        assert(views(entries@).take(entries.len() as int) =~= views(entries@));
        assert(head =~= seq!["## Campaign Context (recent session files)\n"@]);
    }
    join_strings(&all, "\n")
}

// ─────────────────────────────── tool results ──────────────────────────────

/// What the Ollama agent tells its model a tool returned:
/// `Tool result for {tool}: {output}`.
pub fn tool_result_line(tool: &str, output: &str) -> (r: String)
    ensures
        r@ == "Tool result for "@ + tool@ + ": "@ + output@,
{
    let mut r = owned("Tool result for ");
    push_str(&mut r, tool);
    push_str(&mut r, ": ");
    push_str(&mut r, output);
    r
}

/// What an assistant agent tells its model a tool returned, the output on
/// the lines below: `Tool result for {tool}:\n{output}`.
pub fn tool_result_block(tool: &str, output: &str) -> (r: String)
    ensures
        r@ == "Tool result for "@ + tool@ + ":\n"@ + output@,
{
    let mut r = owned("Tool result for ");
    push_str(&mut r, tool);
    push_str(&mut r, ":\n");
    push_str(&mut r, output);
    r
}

// ─────────────────────────────── models ────────────────────────────────────

/// The models a comma-separated list names: each piece trimmed, empty ones
/// dropped, in order.
pub open spec fn model_names(pieces: Seq<Seq<char>>) -> Seq<Seq<char>>
    decreases pieces.len(),
{
    if pieces.len() == 0 {
        seq![]
    } else {
        let p = model_names(pieces.drop_last());
        let t = trim(pieces.last());
        if t.len() > 0 {
            p.push(t)
        } else {
            p
        }
    }
}

/// The models to make sure of, from a comma-separated list.
pub fn model_list(models: &str) -> (r: Vec<String>)
    ensures
        views(r@) == model_names(split(models@, ',')),
{
    let pieces = split_chars(&to_chars(models), ',');
    let ghost d = deep(pieces@);
    let mut r: Vec<String> = Vec::new();
    let mut i: usize = 0;
    assert(d.take(0) =~= Seq::<Seq<char>>::empty());
    while i < pieces.len()
        invariant
            i <= pieces.len(),
            d == deep(pieces@),
            d == split(models@, ','),
            views(r@) == model_names(d.take(i as int)),
        decreases pieces.len() - i,
    {
        proof {
            assert(d.take(i + 1).drop_last() =~= d.take(i as int));
            assert(d.take(i + 1).last() == d[i as int]);
        }
        assert(d[i as int] == pieces@[i as int]@);
        let t = trim_chars(&pieces[i]);
        if t.len() > 0 {
            let ghost before = r@;
            let m = string_of(&t);
            r.push(m);
            proof {
                lemma_views_push(before, m);
            }
        }
        i += 1;
    }
    assert(d.take(pieces.len() as int) =~= d);
    r
}

/// Whether a model is available: one of the listed names starts with it.
pub fn model_available(models: &Vec<String>, model: &str) -> (r: bool)
    ensures
        r == exists|i: int| 0 <= i < models.len() && starts_with(#[trigger] models@[i]@, model@),
{
    let mv = to_chars(model);
    let mut i: usize = 0;
    while i < models.len()
        invariant
            i <= models.len(),
            mv@ == model@,
            forall|k: int| 0 <= k < i ==> !starts_with(#[trigger] models@[k]@, model@),
        decreases models.len() - i,
    {
        let v = to_chars(models[i].as_str());
        if mv.len() <= v.len() {
            let head = sub_chars(&v, 0, mv.len());
            if crate::text::chars_eq(&head, &mv) {
                assert(v@.subrange(0, mv@.len() as int) == head@);
                return true;
            }
            assert(!starts_with(models@[i as int]@, model@));
        }
        i += 1;
    }
    false
}


// ─────────────────────────────── the assistants ────────────────────────────

/// An assistant that helps a human DM run a campaign: its identity, model
/// and host, the tools it may call and the campaign directory it preloads
/// its context from.
pub struct DmAssistantAgent {
    pub agent_id: String,
    pub model: String,
    pub ollama_host: String,
    pub tool_executor: ToolExecutor,
    pub campaign_dir: String,
}

impl DmAssistantAgent {
    pub fn new(agent_id: &str, model: &str, ollama_host: &str, tool_executor: ToolExecutor, campaign_dir: &str) -> (r: DmAssistantAgent)
        ensures
            r.agent_id@ == agent_id@,
            r.model@ == model@,
            r.ollama_host@ == ollama_host@,
            r.tool_executor == tool_executor,
            r.campaign_dir@ == campaign_dir@,
    {
        DmAssistantAgent {
            agent_id: owned(agent_id),
            model: owned(model),
            ollama_host: owned(ollama_host),
            tool_executor,
            campaign_dir: owned(campaign_dir),
        }
    }

    /// The system prompt around the preloaded campaign context, listing the
    /// assistant's tools.
    pub fn system_prompt(&self, campaign_context: &str) -> (r: String)
        ensures
            r@ == dm_prompt(campaign_context@, self.tool_executor.registered().map_values(|t: ToolSpecView| t.name)),
    {
        let tools = self.tool_executor.available_tools();
        dm_system_prompt(campaign_context, &tools)
    }

    /// The manifest it announces (see [`dm_capability`]).
    pub fn capability(&self) -> (r: CapabilityManifest)
        ensures
            r@ == assistant_manifest(
                self.agent_id@,
                "DM Assistant"@,
                self.model@,
                self.ollama_host@,
                self.tool_executor.registered().map_values(|t: ToolSpecView| t.name),
                seq!["dm-assistant"@, "ttrpg"@],
            ),
    {
        let tools = self.tool_executor.available_tools();
        dm_capability(self.agent_id.as_str(), self.model.as_str(), self.ollama_host.as_str(), &tools)
    }
}

/// An assistant for a Jellyfin media server: its identity, model and host,
/// the tools it may call and the server's name.
pub struct MediaServerAgent {
    pub agent_id: String,
    pub model: String,
    pub ollama_host: String,
    pub tool_executor: ToolExecutor,
    pub server_name: String,
}

impl MediaServerAgent {
    pub fn new(agent_id: &str, model: &str, ollama_host: &str, tool_executor: ToolExecutor, server_name: &str) -> (r: MediaServerAgent)
        ensures
            r.agent_id@ == agent_id@,
            r.model@ == model@,
            r.ollama_host@ == ollama_host@,
            r.tool_executor == tool_executor,
            r.server_name@ == server_name@,
    {
        MediaServerAgent {
            agent_id: owned(agent_id),
            model: owned(model),
            ollama_host: owned(ollama_host),
            tool_executor,
            server_name: owned(server_name),
        }
    }

    /// The system prompt naming the server and listing the assistant's tools.
    pub fn system_prompt(&self) -> (r: String)
        ensures
            r@ == media_prompt(self.server_name@, self.tool_executor.registered().map_values(|t: ToolSpecView| t.name)),
    {
        let tools = self.tool_executor.available_tools();
        media_system_prompt(self.server_name.as_str(), &tools)
    }

    /// The manifest it announces (see [`media_capability`]).
    pub fn capability(&self) -> (r: CapabilityManifest)
        ensures
            r@ == assistant_manifest(
                self.agent_id@,
                "Media Server Assistant"@,
                self.model@,
                self.ollama_host@,
                self.tool_executor.registered().map_values(|t: ToolSpecView| t.name),
                seq!["media"@, "jellyfin"@],
            ),
    {
        let tools = self.tool_executor.available_tools();
        media_capability(self.agent_id.as_str(), self.model.as_str(), self.ollama_host.as_str(), &tools)
    }
}

} // verus!
