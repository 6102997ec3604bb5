//! The deterministic side of an LLM-backed agent: its system prompt, the
//! JSON object it looks for in a model reply, the bounded context window it
//! sends, and the capability manifest it announces.
use vstd::prelude::*;

use crate::schemas::{
    AgentType, CapabilityManifest, ContextRole, ManifestView, ModelBackend, ModelBackendView,
    ResourceRequirements, copy_strings,
};
use crate::text::{
    copy_string, join, join_strings, lemma_views_push, owned, push_str, starts_with, str_eq,
    string_of, strip_prefix_chars, sub_chars, to_chars, trim, trim_chars, views,
};
use crate::session::{strip_prefix_all, strip_suffix_all};
use crate::tools::{ToolExecutor, ToolSpecView};

verus! {

// ─────────────────────────────── system prompt ─────────────────────────────

/// The line describing how to call a tool, by tool name.
pub open spec fn schema_example(tool: Seq<char>) -> Seq<char> {
    if tool == "campaign.write"@ {
        "campaign.write  → {\"action\":\"campaign.write\",\"filename\":\"name.md\",\"content\":\"text\",\"append\":false,\"justification\":\"why\"}"@
    } else if tool == "campaign.read"@ {
        "campaign.read   → {\"action\":\"campaign.read\",\"filename\":\"name.md\",\"justification\":\"why\"}"@
    } else if tool == "campaign.list"@ {
        "campaign.list   → {\"action\":\"campaign.list\",\"justification\":\"why\"}"@
    } else if tool == "file.read"@ {
        "file.read       → {\"action\":\"file.read\",\"path\":\"/path/to/file\",\"justification\":\"why\"}"@
    } else if tool == "file.write"@ {
        "file.write      → {\"action\":\"file.write\",\"path\":\"/path/to/file\",\"content\":\"text\",\"justification\":\"why\"}"@
    } else if tool == "bash.exec"@ {
        "bash.exec       → {\"action\":\"bash.exec\",\"command\":\"shell command\",\"justification\":\"why\"}"@
    } else if tool == "search.grep"@ {
        "search.grep     → {\"action\":\"search.grep\",\"pattern\":\"regex\",\"path\":\".\",\"justification\":\"why\"}"@
    } else if tool == "rulebook.search"@ {
        "rulebook.search → {\"action\":\"rulebook.search\",\"query\":\"rules question\",\"justification\":\"why\"}"@
    } else if tool == "dice.roll"@ {
        "dice.roll       → {\"action\":\"dice.roll\",\"notation\":\"2d6+3\",\"justification\":\"why\"}"@
    } else if tool == "graph.query"@ {
        "graph.query     → {\"action\":\"graph.query\",\"query\":\"search terms\",\"justification\":\"why\"}"@
    } else if tool == "graph.node"@ {
        "graph.node      → {\"action\":\"graph.node\",\"node_id\":\"mission-example\",\"justification\":\"why\"}"@
    } else if tool == "graph.neighbors"@ {
        "graph.neighbors → {\"action\":\"graph.neighbors\",\"node_id\":\"mission-example\",\"hops\":1,\"justification\":\"why\"}"@
    } else if tool == "graph.add_node"@ {
        "graph.add_node  → {\"action\":\"graph.add_node\",\"node_id\":\"mission-deny-airspace\",\"type\":\"mission\",\"name\":\"Deny Airspace\",\"body\":\"Description here.\",\"justification\":\"why\"}"@
    } else if tool == "graph.add_edge"@ {
        "graph.add_edge  → {\"action\":\"graph.add_edge\",\"edge_id\":\"edge-mission-requires-cap\",\"from_id\":\"mission-deny-airspace\",\"to_id\":\"capability-electronic-warfare\",\"relationship\":\"requires\",\"justification\":\"why\"}"@
    } else if starts_with(tool, "agent."@) {
        "agent.<name>    → {\"action\":\"agent.<name>\",\"query\":\"question for sub-agent\",\"justification\":\"why\"}"@
    } else {
        "unknown         → {\"action\":\"<tool_name>\",\"justification\":\"why\"}"@
    }
}

/// How to call a tool, as shown to the model.
pub fn tool_schema_example(tool_name: &str) -> (r: &'static str)
    ensures
        r@ == schema_example(tool_name@),
{
    if str_eq(tool_name, "campaign.write") {
        "campaign.write  → {\"action\":\"campaign.write\",\"filename\":\"name.md\",\"content\":\"text\",\"append\":false,\"justification\":\"why\"}"
    } else if str_eq(tool_name, "campaign.read") {
        "campaign.read   → {\"action\":\"campaign.read\",\"filename\":\"name.md\",\"justification\":\"why\"}"
    } else if str_eq(tool_name, "campaign.list") {
        "campaign.list   → {\"action\":\"campaign.list\",\"justification\":\"why\"}"
    } else if str_eq(tool_name, "file.read") {
        "file.read       → {\"action\":\"file.read\",\"path\":\"/path/to/file\",\"justification\":\"why\"}"
    } else if str_eq(tool_name, "file.write") {
        "file.write      → {\"action\":\"file.write\",\"path\":\"/path/to/file\",\"content\":\"text\",\"justification\":\"why\"}"
    } else if str_eq(tool_name, "bash.exec") {
        "bash.exec       → {\"action\":\"bash.exec\",\"command\":\"shell command\",\"justification\":\"why\"}"
    } else if str_eq(tool_name, "search.grep") {
        "search.grep     → {\"action\":\"search.grep\",\"pattern\":\"regex\",\"path\":\".\",\"justification\":\"why\"}"
    } else if str_eq(tool_name, "rulebook.search") {
        "rulebook.search → {\"action\":\"rulebook.search\",\"query\":\"rules question\",\"justification\":\"why\"}"
    } else if str_eq(tool_name, "dice.roll") {
        "dice.roll       → {\"action\":\"dice.roll\",\"notation\":\"2d6+3\",\"justification\":\"why\"}"
    } else if str_eq(tool_name, "graph.query") {
        "graph.query     → {\"action\":\"graph.query\",\"query\":\"search terms\",\"justification\":\"why\"}"
    } else if str_eq(tool_name, "graph.node") {
        "graph.node      → {\"action\":\"graph.node\",\"node_id\":\"mission-example\",\"justification\":\"why\"}"
    } else if str_eq(tool_name, "graph.neighbors") {
        "graph.neighbors → {\"action\":\"graph.neighbors\",\"node_id\":\"mission-example\",\"hops\":1,\"justification\":\"why\"}"
    } else if str_eq(tool_name, "graph.add_node") {
        "graph.add_node  → {\"action\":\"graph.add_node\",\"node_id\":\"mission-deny-airspace\",\"type\":\"mission\",\"name\":\"Deny Airspace\",\"body\":\"Description here.\",\"justification\":\"why\"}"
    } else if str_eq(tool_name, "graph.add_edge") {
        "graph.add_edge  → {\"action\":\"graph.add_edge\",\"edge_id\":\"edge-mission-requires-cap\",\"from_id\":\"mission-deny-airspace\",\"to_id\":\"capability-electronic-warfare\",\"relationship\":\"requires\",\"justification\":\"why\"}"
    } else if strip_prefix_chars(&to_chars(tool_name), "agent.").is_some() {
        "agent.<name>    → {\"action\":\"agent.<name>\",\"query\":\"question for sub-agent\",\"justification\":\"why\"}"
    } else {
        "unknown         → {\"action\":\"<tool_name>\",\"justification\":\"why\"}"
    }
}

/// The tools section: one indented example per tool, or `  (none available)`.
pub open spec fn tools_section(tools: Seq<Seq<char>>) -> Seq<char> {
    if tools.len() == 0 {
        "  (none available)"@
    } else {
        join(tools.map_values(|t: Seq<char>| "  "@ + schema_example(t)), "\n"@)
    }
}

/// The agent's system prompt: its own prompt (or the framework's default
/// line), the JSON reply contract, and the examples of its tools.
pub open spec fn system_prompt(custom: Option<Seq<char>>, tools: Seq<Seq<char>>) -> Seq<char> {
    let base = match custom {
        Some(p) => p,
        None => "You are an AI agent in the Glorfindel framework."@,
    };
    base + "\n\nRespond ONLY with a raw JSON object each turn. Never include text outside the JSON.\nCall tools one at a time and wait for the result before the next call.\n\nTo call a tool:\n  {\"action\":\"<tool_name>\",\"param1\":\"value1\",\"justification\":\"<why>\"}\n\nTo return your final answer after all tool calls are complete:\n  {\"action\":\"result\",\"result\":\"<summary of what you did>\"}\n\nAvailable tools (use exact parameter names shown):\n"@
        + tools_section(tools)
}

pub fn build_system_prompt(custom: Option<&str>, tools: &Vec<String>) -> (r: String)
    ensures
        r@ == system_prompt(match custom { Some(p) => Some(p@), None => None }, views(tools@)),
{
    let ghost ts = views(tools@);
    let mut r = match custom {
        Some(p) => owned(p),
        None => owned("You are an AI agent in the Glorfindel framework."),
    };
    push_str(&mut r, "\n\nRespond ONLY with a raw JSON object each turn. Never include text outside the JSON.\nCall tools one at a time and wait for the result before the next call.\n\nTo call a tool:\n  {\"action\":\"<tool_name>\",\"param1\":\"value1\",\"justification\":\"<why>\"}\n\nTo return your final answer after all tool calls are complete:\n  {\"action\":\"result\",\"result\":\"<summary of what you did>\"}\n\nAvailable tools (use exact parameter names shown):\n");
    if tools.len() == 0 {
        push_str(&mut r, "  (none available)");
    } else {
        let ghost want = ts.map_values(|t: Seq<char>| "  "@ + schema_example(t));
        let mut lines: Vec<String> = Vec::new();
        let mut i: usize = 0;
        while i < tools.len()
            invariant
                i <= tools.len(),
                ts == views(tools@),
                want == ts.map_values(|t: Seq<char>| "  "@ + schema_example(t)),
                views(lines@) == want.take(i as int),
            decreases tools.len() - i,
        {
            let mut l = owned("  ");
            push_str(&mut l, tool_schema_example(tools[i].as_str()));
            proof { lemma_views_push(lines@, l); }
            lines.push(l);
            assert(want.take(i + 1) =~= want.take(i as int).push(want[i as int]));
            i += 1;
        }
        assert(want.take(tools.len() as int) =~= want);
        let section = join_strings(&lines, "\n");
        push_str(&mut r, section.as_str());
    }
    r
}

// ─────────────────────────────── model replies ─────────────────────────────

/// A reply without code fences: trimmed, every leading ```` ```json ```` and
/// ```` ``` ```` and every trailing ```` ``` ```` dropped, trimmed again.
pub open spec fn unfenced(text: Seq<char>) -> Seq<char> {
    trim(strip_suffix_all(strip_prefix_all(strip_prefix_all(trim(text), "```json"@), "```"@), "```"@))
}

pub(crate) fn strip_prefix_repeated(v: Vec<char>, p: &str) -> (r: Vec<char>)
    requires
        p@.len() > 0,
    ensures
        r@ == strip_prefix_all(v@, p@),
{
    let mut t = v;
    loop
        invariant
            p@.len() > 0,
            strip_prefix_all(t@, p@) == strip_prefix_all(v@, p@),
        ensures
            strip_prefix_all(t@, p@) == strip_prefix_all(v@, p@),
            !starts_with(t@, p@),
        decreases t.len(),
    {
        match strip_prefix_chars(&t, p) {
            Some(rest) => {
                t = rest;
            },
            None => {
                break;
            },
        }
    }
    t
}

pub(crate) fn strip_suffix_repeated(v: Vec<char>, p: &str) -> (r: Vec<char>)
    requires
        p@.len() > 0,
    ensures
        r@ == strip_suffix_all(v@, p@),
{
    let pv = to_chars(p);
    let mut t = v;
    loop
        invariant
            p@.len() > 0,
            pv@ == p@,
            strip_suffix_all(t@, p@) == strip_suffix_all(v@, p@),
        ensures
            strip_suffix_all(t@, p@) == strip_suffix_all(v@, p@),
            !crate::text::ends_with(t@, p@),
        decreases t.len(),
    {
        if pv.len() > t.len() {
            break;
        }
        let tail = sub_chars(&t, t.len() - pv.len(), t.len());
        if !crate::text::chars_eq(&tail, &pv) {
            break;
        }
        let n = t.len() - pv.len();
        t = sub_chars(&t, 0, n);
    }
    t
}

/// A reply with its code fences removed (see [`unfenced`]).
pub fn strip_fences(text: &str) -> (r: String)
    ensures
        r@ == unfenced(text@),
{
    proof {
        reveal_strlit("```json");
        reveal_strlit("```");
    }
    let v = trim_chars(&to_chars(text));
    let a = strip_prefix_repeated(v, "```json");
    let b = strip_prefix_repeated(a, "```");
    let c = strip_suffix_repeated(b, "```");
    string_of(&trim_chars(&c))
}

/// Brace depth after the first `k` characters.
pub open spec fn depth(s: Seq<char>, k: int) -> int
    decreases k,
{
    if k <= 0 {
        0
    } else {
        depth(s, k - 1) + if s[k - 1] == '{' { 1int } else if s[k - 1] == '}' { -1int } else { 0int }
    }
}

/// The shortest non-empty prefix of `s` that closes a `}` back to depth 0,
/// if any.
pub open spec fn balanced_end(s: Seq<char>) -> Option<int> {
    if exists|k: int| 1 <= k <= s.len() && s[k - 1] == '}' && depth(s, k) == 0 {
        Some(choose|k: int| 1 <= k <= s.len() && s[k - 1] == '}' && depth(s, k) == 0
            && forall|j: int| 1 <= j < k ==> !(s[j - 1] == '}' && depth(s, j) == 0))
    } else {
        None
    }
}

proof fn lemma_balanced_end_at(s: Seq<char>, k: int)
    requires
        1 <= k <= s.len(),
        s[k - 1] == '}',
        depth(s, k) == 0,
        forall|j: int| 1 <= j < k ==> !(s[j - 1] == '}' && depth(s, j) == 0),
    ensures
        balanced_end(s) == Some(k),
{
    let w = choose|w: int| 1 <= w <= s.len() && s[w - 1] == '}' && depth(s, w) == 0
        && forall|j: int| 1 <= j < w ==> !(s[j - 1] == '}' && depth(s, j) == 0);
    assert(1 <= w <= s.len() && s[w - 1] == '}' && depth(s, w) == 0
        && forall|j: int| 1 <= j < w ==> !(s[j - 1] == '}' && depth(s, j) == 0));
    if w < k {
        assert(!(s[w - 1] == '}' && depth(s, w) == 0));
    } else if w > k {
        assert(!(s[k - 1] == '}' && depth(s, k) == 0));
    }
}

/// The JSON object a reply most likely holds, for when the whole reply does
/// not parse: from the first `{` to the `}` that balances it.
pub open spec fn braced_object(s: Seq<char>) -> Option<Seq<char>> {
    match crate::text::find(s, '{') {
        None => None,
        Some(start) => {
            let slice = s.skip(start);
            match balanced_end(slice) {
                Some(end) => Some(slice.take(end)),
                None => None,
            }
        },
    }
}

/// The braced object of a reply (see [`braced_object`]).
pub fn extract_braced_object(s: &str) -> (r: Option<String>)
    ensures
        match r {
            Some(o) => braced_object(s@) == Some(o@),
            None => braced_object(s@) is None,
        },
{
    let v = to_chars(s);
    let start = match crate::text::find_char(&v, '{') {
        Some(p) => p,
        None => return None,
    };
    let slice = sub_chars(&v, start, v.len());
    assert(slice@ =~= v@.skip(start as int));
    let mut d: i128 = 0;
    let mut i: usize = 0;
    while i < slice.len()
        invariant
            i <= slice.len(),
            crate::text::find(v@, '{') == Some(start as int),
            slice@ == v@.skip(start as int),
            v@ == s@,
            d as int == depth(slice@, i as int),
            -(i as int) <= d <= i as int,
            forall|j: int| 1 <= j <= i ==> !(slice@[j - 1] == '}' && depth(slice@, j) == 0),
        decreases slice.len() - i,
    {
        let c = slice[i];
        if c == '{' {
            d = d + 1;
        } else if c == '}' {
            d = d - 1;
            if d == 0 {
                proof {
                    let k = (i + 1) as int;
                    assert(slice@[k - 1] == '}' && depth(slice@, k) == 0);
                    lemma_balanced_end_at(slice@, k);
                }
                let obj = sub_chars(&slice, 0, i + 1);
                assert(obj@ =~= slice@.take((i + 1) as int));
                return Some(string_of(&obj));
            }
        }
        i += 1;
    }
    None
}

// ─────────────────────────────── context window ────────────────────────────

/// A chat message.
pub struct ChatMessage {
    pub role: String,
    pub content: String,
}

pub open spec fn message_views(v: Seq<ChatMessage>) -> Seq<(Seq<char>, Seq<char>)> {
    v.map_values(|m: ChatMessage| (m.role@, m.content@))
}

/// What the model is sent, the task intent standing at position `intent`:
/// every message while there are at most seven, else the system prompt,
/// the intent (unless it is among the last four already) and the last
/// four messages.
pub open spec fn window(ms: Seq<(Seq<char>, Seq<char>)>, intent: int) -> Seq<(Seq<char>, Seq<char>)> {
    if ms.len() > 7 {
        if 0 < intent < ms.len() - 4 {
            seq![ms[0], ms[intent]] + ms.skip(ms.len() - 4)
        } else {
            seq![ms[0]] + ms.skip(ms.len() - 4)
        }
    } else {
        ms
    }
}

fn copy_message(m: &ChatMessage) -> (r: ChatMessage)
    ensures
        r.role@ == m.role@,
        r.content@ == m.content@,
{
    ChatMessage { role: copy_string(&m.role), content: copy_string(&m.content) }
}

/// The messages sent to the model, `intent` being the position of the
/// message that holds the task intent (see [`window`]).
pub fn context_window(messages: &Vec<ChatMessage>, intent: usize) -> (r: Vec<ChatMessage>)
    ensures
        message_views(r@) == window(message_views(messages@), intent as int),
{
    let ghost ms = message_views(messages@);
    let n = messages.len();
    if n <= 7 {
        let mut r: Vec<ChatMessage> = Vec::new();
        let mut i: usize = 0;
        while i < n
            invariant
                i <= n == messages.len(),
                ms == message_views(messages@),
                message_views(r@) == ms.take(i as int),
            decreases n - i,
        {
            let m = copy_message(&messages[i]);
            let ghost before = message_views(r@);
            r.push(m);
            assert(message_views(r@) =~= before.push((m.role@, m.content@)));
            assert(ms.take(i + 1) =~= ms.take(i as int).push(ms[i as int]));
            i += 1;
        }
        assert(ms.take(n as int) =~= ms);
        return r;
    }
    let k = intent;
    let keep = 0 < k && k < n - 4;
    let mut r: Vec<ChatMessage> = Vec::new();
    r.push(copy_message(&messages[0]));
    if keep {
        r.push(copy_message(&messages[k]));
    }
    let ghost head = message_views(r@);
    let first_tail = n - 4;
    let mut i: usize = first_tail;
    while i < n
        invariant
            first_tail <= i <= n == messages.len(),
            ms == message_views(messages@),
            message_views(r@) == head + ms.subrange(first_tail as int, i as int),
        decreases n - i,
    {
        let m = copy_message(&messages[i]);
        let ghost before = message_views(r@);
        r.push(m);
        assert(message_views(r@) =~= before.push((m.role@, m.content@)));
        assert(ms.subrange(first_tail as int, i + 1) =~= ms.subrange(first_tail as int, i as int).push(ms[i as int]));
        i += 1;
    }
    if keep {
        assert(head =~= seq![ms[0], ms[k as int]]);
    } else {
        assert(head =~= seq![ms[0]]);
    }
    assert(ms.subrange(first_tail as int, n as int) =~= ms.skip(ms.len() - 4));
    r
}

/// The window keeps the system prompt first, never drops the message that
/// holds the task intent, sends at most six messages once there are more
/// than seven, and always the latest one.
pub proof fn law_window_keeps_task(ms: Seq<(Seq<char>, Seq<char>)>, intent: int)
    requires
        0 <= intent < ms.len(),
    ensures
        window(ms, intent)[0] == ms[0],
        window(ms, intent).contains(ms[intent]),
        window(ms, intent).len() <= 7,
        ms.len() > 7 ==> window(ms, intent).len() <= 6 && window(ms, intent).last() == ms.last(),
        ms.len() <= 7 ==> window(ms, intent) == ms,
{
    let k = intent;
    let w = window(ms, k);
    if ms.len() > 7 {
        if 0 < k < ms.len() - 4 {
            assert(w[1] == ms[k]);
        } else if k == 0 {
            assert(w[0] == ms[k]);
        } else {
            let i = k - (ms.len() - 4) + 1;
            assert(w[i] == ms[k]);
        }
    } else {
        assert(w[k] == ms[k]);
    }
}

/// The chat role a context entry is sent with (tool output goes as `user`).
pub open spec fn role_name(r: ContextRole) -> Seq<char> {
    match r {
        ContextRole::System => "system"@,
        ContextRole::User => "user"@,
        ContextRole::Assistant => "assistant"@,
        ContextRole::ToolOutput => "user"@,
    }
}

pub fn context_role_name(r: ContextRole) -> (s: &'static str)
    ensures
        s@ == role_name(r),
{
    match r {
        ContextRole::System => "system",
        ContextRole::User => "user",
        ContextRole::Assistant => "assistant",
        ContextRole::ToolOutput => "user",
    }
}

/// Whether a `campaign.write` of `filename` rewrites a file the task
/// already wrote (the sign of a loop, which ends the task).
pub fn is_rewrite(tool_name: &str, filename: Option<&str>, written: &Vec<String>) -> (r: bool)
    ensures
        r == (tool_name@ == "campaign.write"@ && match filename {
            Some(f) => views(written@).contains(f@),
            None => false,
        }),
{
    if !str_eq(tool_name, "campaign.write") {
        return false;
    }
    match filename {
        None => false,
        Some(f) => {
            let mut i: usize = 0;
            while i < written.len()
                invariant
                    i <= written.len(),
                    tool_name@ == "campaign.write"@,
                    filename == Some(f),
                    forall|k: int| 0 <= k < i ==> written@[k]@ != f@,
                decreases written.len() - i,
            {
                if str_eq(written[i].as_str(), f) {
                    assert(views(written@)[i as int] == f@);
                    assert(views(written@).contains(f@));
                    return true;
                }
                i += 1;
            }
            proof {
                if views(written@).contains(f@) {
                    let k = choose|k: int| 0 <= k < views(written@).len() && views(written@)[k] == f@;
                    assert(written@[k]@ == f@);
                }
            }
            false
        },
    }
}

// ─────────────────────────────── capability ────────────────────────────────

/// `Ollama Agent ({model})`, an agent's default name.
pub fn default_agent_name(model: &str) -> (r: String)
    ensures
        r@ == "Ollama Agent ("@ + model@ + ")"@,
{
    let mut r = owned("Ollama Agent (");
    push_str(&mut r, model);
    push_str(&mut r, ")");
    r
}

/// The manifest an Ollama-backed agent announces: its identity, its tools,
/// its model and host, its domains, and a GPU with 4096 MB of memory and of
/// video memory.
pub fn ollama_capability(
    agent_id: &str,
    name: &str,
    agent_type: AgentType,
    tools: &Vec<String>,
    model: &str,
    host: &str,
    domains: &Vec<String>,
) -> (r: CapabilityManifest)
    ensures
        r@ == (ManifestView {
            agent_id: agent_id@,
            name: name@,
            agent_type,
            tools_available: views(tools@),
            model_backend: ModelBackendView::Ollama { model: model@, host: host@ },
            domains: views(domains@),
            resource_requirements: ResourceRequirements { gpu_required: true, min_memory_mb: Some(4096), min_vram_mb: Some(4096) },
        }),
{
    CapabilityManifest {
        agent_id: owned(agent_id),
        name: owned(name),
        agent_type,
        tools_available: copy_strings(tools),
        model_backend: ModelBackend::Ollama { model: owned(model), host: owned(host) },
        domains: copy_strings(domains),
        resource_requirements: ResourceRequirements { gpu_required: true, min_memory_mb: Some(4096), min_vram_mb: Some(4096) },
    }
}


// ─────────────────────────────── the agent ─────────────────────────────────

/// An agent backed by an Ollama model: who it is, the role it plays, the
/// model and host it asks, the tools it may call, its domains and its own
/// system prompt, if any.
pub struct OllamaAgent {
    pub agent_id: String,
    pub name: String,
    pub agent_type: AgentType,
    pub model: String,
    pub ollama_host: String,
    pub tool_executor: ToolExecutor,
    pub domains: Vec<String>,
    pub custom_system_prompt: Option<String>,
}

impl OllamaAgent {
    /// An executor agent named after its model, with the framework's system
    /// prompt.
    pub fn new(agent_id: &str, model: &str, ollama_host: &str, tool_executor: ToolExecutor, domains: Vec<String>) -> (r: OllamaAgent)
        ensures
            r.agent_id@ == agent_id@,
            r.name@ == "Ollama Agent ("@ + model@ + ")"@,
            r.agent_type == AgentType::Executor,
            r.model@ == model@,
            r.ollama_host@ == ollama_host@,
            r.tool_executor == tool_executor,
            r.domains == domains,
            r.custom_system_prompt is None,
    {
        OllamaAgent {
            agent_id: owned(agent_id),
            name: default_agent_name(model),
            agent_type: AgentType::Executor,
            model: owned(model),
            ollama_host: owned(ollama_host),
            tool_executor,
            domains,
            custom_system_prompt: None,
        }
    }

    /// The same agent under another name.
    pub fn with_name(self, name: &str) -> (r: OllamaAgent)
        ensures
            r.name@ == name@,
            r == (OllamaAgent { name: r.name, ..self }),
    {
        OllamaAgent { name: owned(name), ..self }
    }

    /// The same agent in another role.
    pub fn with_agent_type(self, agent_type: AgentType) -> (r: OllamaAgent)
        ensures
            r == (OllamaAgent { agent_type, ..self }),
    {
        OllamaAgent { agent_type, ..self }
    }

    /// The same agent with its own system prompt.
    pub fn with_system_prompt(self, prompt: &str) -> (r: OllamaAgent)
        ensures
            r.custom_system_prompt matches Some(p) && p@ == prompt@,
            r == (OllamaAgent { custom_system_prompt: r.custom_system_prompt, ..self }),
    {
        OllamaAgent { custom_system_prompt: Some(owned(prompt)), ..self }
    }

    /// The system prompt the agent opens each task with: its own prompt or
    /// the framework's, the reply contract and its tools' examples.
    pub fn system_prompt(&self) -> (r: String)
        ensures
            r@ == system_prompt(
                match self.custom_system_prompt {
                    Some(p) => Some(p@),
                    None => None,
                },
                self.tool_executor.registered().map_values(|t: ToolSpecView| t.name),
            ),
    {
        let tools = self.tool_executor.available_tools();
        let custom: Option<&str> = match &self.custom_system_prompt {
            Some(p) => Some(p.as_str()),
            None => None,
        };
        build_system_prompt(custom, &tools)
    }

    /// The manifest the agent announces: its identity and role, its tools,
    /// its model and host, its domains and its resource needs.
    pub fn capability(&self) -> (r: CapabilityManifest)
        ensures
            r@ == (ManifestView {
                agent_id: self.agent_id@,
                name: self.name@,
                agent_type: self.agent_type,
                tools_available: self.tool_executor.registered().map_values(|t: ToolSpecView| t.name),
                model_backend: ModelBackendView::Ollama { model: self.model@, host: self.ollama_host@ },
                domains: views(self.domains@),
                resource_requirements: ResourceRequirements {
                    gpu_required: true,
                    min_memory_mb: Some(4096),
                    min_vram_mb: Some(4096),
                },
            }),
    {
        let tools = self.tool_executor.available_tools();
        ollama_capability(
            self.agent_id.as_str(),
            self.name.as_str(),
            self.agent_type,
            &tools,
            self.model.as_str(),
            self.ollama_host.as_str(),
            &self.domains,
        )
    }
}

} // verus!
