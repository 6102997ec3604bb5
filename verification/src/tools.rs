//! The built-in tools' identities (name, description, required
//! permissions), the tool catalog, campaign file paths, and the executor's
//! deny-by-default permission check.
use vstd::prelude::*;

use crate::dice::DiceRollTool;
use crate::error::ToolError;
use crate::schemas::{permission_debug, permission_debug_text, permission_views, Permission, PermissionView};
use crate::text::{
    contains, copy_string, decimal, deep, ends_with, first_index, int_text, lemma_views_push, lines,
    lines_chars, owned, push_int, push_str, push_u64, starts_with, str_eq, string_of, to_chars, utf8_len,
    views,
};

verus! {

// ─────────────────────────────── tool identities ───────────────────────────

/// Executes shell commands with a time limit.
pub struct BashTool {
    /// Maximum execution time in seconds.
    pub timeout_secs: u64,
}

impl BashTool {
    pub fn new(timeout_secs: u64) -> (r: BashTool)
        ensures
            r.timeout_secs == timeout_secs,
    {
        BashTool { timeout_secs }
    }

    pub fn name(&self) -> (r: &'static str)
        ensures
            r@ == "bash.exec"@,
    {
        "bash.exec"
    }

    pub fn description(&self) -> (r: &'static str)
        ensures
            r@ == "Execute a shell command and return its output"@,
    {
        "Execute a shell command and return its output"
    }

    pub fn required_permissions(&self) -> (r: Vec<Permission>)
        ensures
            permission_views(r@) == seq![PermissionView::BashExec],
    {
        let r = vec![Permission::BashExec];
        assert(permission_views(r@) =~= seq![PermissionView::BashExec]);
        r
    }
}

impl Default for BashTool {
    /// A thirty-second limit.
    fn default() -> (r: Self)
        ensures
            r.timeout_secs == 30,
    {
        BashTool::new(30)
    }
}

/// Reads file contents from disk.
pub struct FileReadTool;

impl FileReadTool {
    pub fn name(&self) -> (r: &'static str)
        ensures
            r@ == "file.read"@,
    {
        "file.read"
    }

    pub fn description(&self) -> (r: &'static str)
        ensures
            r@ == "Read the contents of a file at a given path"@,
    {
        "Read the contents of a file at a given path"
    }

    pub fn required_permissions(&self) -> (r: Vec<Permission>)
        ensures
            permission_views(r@) == seq![PermissionView::FileRead],
    {
        let r = vec![Permission::FileRead];
        assert(permission_views(r@) =~= seq![PermissionView::FileRead]);
        r
    }
}

/// Writes content to a file on disk.
pub struct FileWriteTool;

impl FileWriteTool {
    pub fn name(&self) -> (r: &'static str)
        ensures
            r@ == "file.write"@,
    {
        "file.write"
    }

    pub fn description(&self) -> (r: &'static str)
        ensures
            r@ == "Write content to a file at a given path"@,
    {
        "Write content to a file at a given path"
    }

    pub fn required_permissions(&self) -> (r: Vec<Permission>)
        ensures
            permission_views(r@) == seq![PermissionView::FileWrite],
    {
        let r = vec![Permission::FileWrite];
        assert(permission_views(r@) =~= seq![PermissionView::FileWrite]);
        r
    }
}

/// Searches file contents for a pattern.
pub struct SearchTool;

impl SearchTool {
    pub fn name(&self) -> (r: &'static str)
        ensures
            r@ == "search.grep"@,
    {
        "search.grep"
    }

    pub fn description(&self) -> (r: &'static str)
        ensures
            r@ == "Search for a pattern in files within a directory"@,
    {
        "Search for a pattern in files within a directory"
    }

    pub fn required_permissions(&self) -> (r: Vec<Permission>)
        ensures
            permission_views(r@) == seq![PermissionView::FileRead],
    {
        let r = vec![Permission::FileRead];
        assert(permission_views(r@) =~= seq![PermissionView::FileRead]);
        r
    }
}

pub(crate) fn custom_permission(name: &str) -> (r: Vec<Permission>)
    ensures
        permission_views(r@) == seq![PermissionView::Custom(name@)],
{
    let r = vec![Permission::Custom(owned(name))];
    assert(permission_views(r@) =~= seq![PermissionView::Custom(name@)]);
    r
}

/// Reads a file of the campaign directory by relative name.
pub struct CampaignReadTool {
    pub campaign_dir: String,
}

impl CampaignReadTool {
    pub fn new(campaign_dir: &str) -> (r: CampaignReadTool)
        ensures
            r.campaign_dir@ == campaign_dir@,
    {
        CampaignReadTool { campaign_dir: owned(campaign_dir) }
    }

    pub fn name(&self) -> (r: &'static str)
        ensures
            r@ == "campaign.read"@,
    {
        "campaign.read"
    }

    pub fn description(&self) -> (r: &'static str)
        ensures
            r@ == "Read a campaign file by filename (e.g. 'npcs.md', 'session_notes.md'). Returns the full contents."@,
    {
        "Read a campaign file by filename (e.g. 'npcs.md', 'session_notes.md'). Returns the full contents."
    }

    pub fn required_permissions(&self) -> (r: Vec<Permission>)
        ensures
            permission_views(r@) == seq![PermissionView::Custom("campaign.read"@)],
    {
        custom_permission("campaign.read")
    }
}

/// Writes (or appends to) a file of the campaign directory.
pub struct CampaignWriteTool {
    pub campaign_dir: String,
}

impl CampaignWriteTool {
    pub fn new(campaign_dir: &str) -> (r: CampaignWriteTool)
        ensures
            r.campaign_dir@ == campaign_dir@,
    {
        CampaignWriteTool { campaign_dir: owned(campaign_dir) }
    }

    pub fn name(&self) -> (r: &'static str)
        ensures
            r@ == "campaign.write"@,
    {
        "campaign.write"
    }

    pub fn description(&self) -> (r: &'static str)
        ensures
            r@ == "Write content to a campaign file. Set 'append' to true to add to the end (useful for session notes). Omit or set false to overwrite."@,
    {
        "Write content to a campaign file. Set 'append' to true to add to the end (useful for session notes). Omit or set false to overwrite."
    }

    pub fn required_permissions(&self) -> (r: Vec<Permission>)
        ensures
            permission_views(r@) == seq![PermissionView::Custom("campaign.write"@)],
    {
        custom_permission("campaign.write")
    }
}

/// Lists every file of the campaign directory.
pub struct CampaignListTool {
    pub campaign_dir: String,
}

impl CampaignListTool {
    pub fn new(campaign_dir: &str) -> (r: CampaignListTool)
        ensures
            r.campaign_dir@ == campaign_dir@,
    {
        CampaignListTool { campaign_dir: owned(campaign_dir) }
    }

    pub fn name(&self) -> (r: &'static str)
        ensures
            r@ == "campaign.list"@,
    {
        "campaign.list"
    }

    pub fn description(&self) -> (r: &'static str)
        ensures
            r@ == "List all files in the campaign directory."@,
    {
        "List all files in the campaign directory."
    }

    pub fn required_permissions(&self) -> (r: Vec<Permission>)
        ensures
            permission_views(r@) == seq![PermissionView::Custom("campaign.read"@)],
    {
        custom_permission("campaign.read")
    }
}

impl DiceRollTool {
    pub fn name(&self) -> (r: &'static str)
        ensures
            r@ == "dice.roll"@,
    {
        "dice.roll"
    }

    pub fn description(&self) -> (r: &'static str)
        ensures
            r@ == "Roll dice using standard notation. Parameter: 'notation' (string, e.g. 'd20', '2d6+3', 'd20-1'). Returns each die result and the total."@,
    {
        "Roll dice using standard notation. Parameter: 'notation' (string, e.g. 'd20', '2d6+3', 'd20-1'). Returns each die result and the total."
    }

    /// Dice need no permission.
    pub fn required_permissions(&self) -> (r: Vec<Permission>)
        ensures
            r@.len() == 0,
    {
        Vec::new()
    }
}

// ─────────────────────────────── campaign paths ────────────────────────────

/// A relative file name is accepted under the campaign directory when it
/// has no `..`, no backslash and does not start with `/`.
pub open spec fn campaign_name_ok(filename: Seq<char>) -> bool {
    !contains(filename, ".."@) && !filename.contains('\\') && !starts_with(filename, "/"@)
}

/// A relative path joined under a directory, as `Path::join` writes it: a
/// `/` between them unless the directory is empty or already ends with one.
pub open spec fn path_join(base: Seq<char>, rel: Seq<char>) -> Seq<char> {
    if base.len() == 0 {
        rel
    } else if base.last() == '/' {
        base + rel
    } else {
        base + "/"@ + rel
    }
}

fn has_backslash(v: &Vec<char>) -> (r: bool)
    ensures
        r == v@.contains('\\'),
{
    let mut i: usize = 0;
    while i < v.len()
        invariant
            i <= v.len(),
            forall|k: int| 0 <= k < i ==> v@[k] != '\\',
        decreases v.len() - i,
    {
        if v[i] == '\\' {
            return true;
        }
        i += 1;
    }
    false
}

/// The path of a campaign file, or the `invalid filename: {name}` error for
/// a name that could leave the directory.
pub fn campaign_file_path(campaign_dir: &str, filename: &str) -> (r: Result<String, ToolError>)
    ensures
        campaign_name_ok(filename@) ==> (r matches Ok(p) && p@ == path_join(campaign_dir@, filename@)),
        !campaign_name_ok(filename@) ==> (r matches Err(ToolError::InvalidParameter(m)) && m@ == "invalid filename: "@ + filename@),
{
    let v = to_chars(filename);
    let dots = to_chars("..");
    let bad = crate::text::contains_chars(&v, &dots) || has_backslash(&v) || (v.len() > 0 && v[0] == '/');
    proof {
        reveal_strlit("/");
        if v@.len() > 0 && v@[0] == '/' {
            assert(v@.subrange(0, 1) =~= "/"@);
        }
        if starts_with(v@, "/"@) {
            assert(v@.subrange(0, 1)[0] == v@[0]);
        }
    }
    if bad {
        let mut m = owned("invalid filename: ");
        push_str(&mut m, filename);
        return Err(ToolError::InvalidParameter(m));
    }
    let base = to_chars(campaign_dir);
    let mut p = owned(campaign_dir);
    if base.len() == 0 {
        p = owned(filename);
    } else if base[base.len() - 1] == '/' {
        push_str(&mut p, filename);
    } else {
        push_str(&mut p, "/");
        push_str(&mut p, filename);
    }
    Ok(p)
}

/// `{Appended|Wrote} {bytes} bytes to campaign file {filename}`.
pub open spec fn campaign_write_effect(append: bool, bytes: nat, filename: Seq<char>) -> Seq<char> {
    (if append { "Appended"@ } else { "Wrote"@ }) + " "@ + decimal(bytes) + " bytes to campaign file "@
        + filename
}

/// The side effect a campaign write reports; the size is the content's
/// length in bytes.
pub fn campaign_write_effect_text(append: bool, content: &str, filename: &str) -> (r: String)
    ensures
        r@ == campaign_write_effect(append, content.len() as nat, filename@),
{
    let mut r = owned(if append { "Appended" } else { "Wrote" });
    push_str(&mut r, " ");
    push_u64(&mut r, content.len() as u64);
    push_str(&mut r, " bytes to campaign file ");
    push_str(&mut r, filename);
    r
}

/// The side effect a file write reports: `Wrote {bytes} bytes to {path}`,
/// the size being the content's length in bytes.
pub fn file_write_effect_text(content: &str, path: &str) -> (r: String)
    ensures
        r@ == "Wrote "@ + decimal(content.len() as nat) + " bytes to "@ + path@,
{
    let mut r = owned("Wrote ");
    push_u64(&mut r, content.len() as u64);
    push_str(&mut r, " bytes to ");
    push_str(&mut r, path);
    r
}

// ─────────────────────────────────── catalog ───────────────────────────────

/// One tool offered to agent definitions.
pub struct ToolCatalogEntry {
    pub name: String,
    pub description: String,
    pub permissions: Vec<Permission>,
    pub requires_campaign_dir: bool,
}

pub struct CatalogView {
    pub name: Seq<char>,
    pub description: Seq<char>,
    pub permissions: Seq<PermissionView>,
    pub requires_campaign_dir: bool,
}

impl View for ToolCatalogEntry {
    type V = CatalogView;

    open spec fn view(&self) -> CatalogView {
        CatalogView {
            name: self.name@,
            description: self.description@,
            permissions: permission_views(self.permissions@),
            requires_campaign_dir: self.requires_campaign_dir,
        }
    }
}

pub open spec fn entry_of(name: Seq<char>, description: Seq<char>, permissions: Seq<PermissionView>, campaign: bool) -> CatalogView {
    CatalogView { name, description, permissions, requires_campaign_dir: campaign }
}

/// The catalog: the standard tools (file read and write, shell, search),
/// then the campaign tools (which need a campaign directory), then the
/// rulebook search and the dice.
pub open spec fn catalog_spec() -> Seq<CatalogView> {
    seq![
        entry_of("file.read"@, "Read the contents of a file at a given path"@, seq![PermissionView::FileRead], false),
        entry_of("file.write"@, "Write content to a file at a given path"@, seq![PermissionView::FileWrite], false),
        entry_of("bash.exec"@, "Execute a shell command and return its output"@, seq![PermissionView::BashExec], false),
        entry_of("search.grep"@, "Search for a pattern in files within a directory"@, seq![PermissionView::FileRead], false),
        entry_of("campaign.read"@,
            "Read a campaign file by filename (e.g. 'npcs.md', 'session_notes.md'). Returns the full contents."@,
            seq![PermissionView::Custom("campaign.read"@)], true),
        entry_of("campaign.write"@,
            "Write content to a campaign file. Set 'append' to true to add to the end (useful for session notes). Omit or set false to overwrite."@,
            seq![PermissionView::Custom("campaign.write"@)], true),
        entry_of("campaign.list"@, "List all files in the campaign directory."@,
            seq![PermissionView::Custom("campaign.read"@)], true),
        entry_of("rulebook.search"@,
            "Semantic search over indexed rulebook files. Requires rulebook_dir in deployed_context."@,
            seq![PermissionView::Custom("rulebook.search"@)], false),
        entry_of("dice.roll"@, "Roll dice using standard notation (d20, 2d6+3). No permissions needed."@,
            Seq::empty(), false),
    ]
}

pub open spec fn catalog_views(v: Seq<ToolCatalogEntry>) -> Seq<CatalogView> {
    v.map_values(|e: ToolCatalogEntry| e@)
}

fn catalog_entry(name: &str, description: &str, permissions: Vec<Permission>, campaign: bool) -> (r: ToolCatalogEntry)
    ensures
        r@ == entry_of(name@, description@, permission_views(permissions@), campaign),
{
    ToolCatalogEntry { name: owned(name), description: owned(description), permissions, requires_campaign_dir: campaign }
}

/// The tools an agent definition can name, with their permissions.
pub fn catalog() -> (r: Vec<ToolCatalogEntry>)
    ensures
        catalog_views(r@) == catalog_spec(),
{
    let file_read = FileReadTool;
    let file_write = FileWriteTool;
    let bash = BashTool::default();
    let search = SearchTool;
    let mut r: Vec<ToolCatalogEntry> = Vec::new();
    r.push(catalog_entry(file_read.name(), file_read.description(), file_read.required_permissions(), false));
    r.push(catalog_entry(file_write.name(), file_write.description(), file_write.required_permissions(), false));
    r.push(catalog_entry(bash.name(), bash.description(), bash.required_permissions(), false));
    r.push(catalog_entry(search.name(), search.description(), search.required_permissions(), false));
    let cr = CampaignReadTool::new(".");
    let cw = CampaignWriteTool::new(".");
    let cl = CampaignListTool::new(".");
    r.push(catalog_entry(cr.name(), cr.description(), cr.required_permissions(), true));
    r.push(catalog_entry(cw.name(), cw.description(), cw.required_permissions(), true));
    r.push(catalog_entry(cl.name(), cl.description(), cl.required_permissions(), true));
    r.push(catalog_entry(
        "rulebook.search",
        "Semantic search over indexed rulebook files. Requires rulebook_dir in deployed_context.",
        custom_permission("rulebook.search"),
        false,
    ));
    let none: Vec<Permission> = Vec::new();
    assert(permission_views(none@) =~= Seq::<PermissionView>::empty());
    r.push(catalog_entry("dice.roll", "Roll dice using standard notation (d20, 2d6+3). No permissions needed.", none, false));
    assert(catalog_views(r@) =~= catalog_spec());
    r
}

// ─────────────────────────────────── executor ──────────────────────────────

/// A registered tool, as the executor sees it: its name and the permissions
/// it requires.
pub struct ToolSpec {
    pub name: String,
    pub permissions: Vec<Permission>,
}

pub struct ToolSpecView {
    pub name: Seq<char>,
    pub permissions: Seq<PermissionView>,
}

impl View for ToolSpec {
    type V = ToolSpecView;

    open spec fn view(&self) -> ToolSpecView {
        ToolSpecView { name: self.name@, permissions: permission_views(self.permissions@) }
    }
}

pub open spec fn spec_views(v: Seq<ToolSpec>) -> Seq<ToolSpecView> {
    v.map_values(|t: ToolSpec| t@)
}

pub open spec fn tool_named(name: Seq<char>) -> spec_fn(ToolSpecView) -> bool {
    |t: ToolSpecView| t.name == name
}

pub open spec fn not_granted(granted: Seq<PermissionView>) -> spec_fn(PermissionView) -> bool {
    |p: PermissionView| !granted.contains(p)
}

/// What the executor decides for a call.
pub enum ToolAccess {
    /// The tool may run.
    Allowed,
    /// The tool lacks a permission: `requires permission: {p:?}`.
    Denied(String),
    /// No such tool.
    Unknown(ToolError),
}

/// The executor's decision: an unknown tool fails with `unknown tool: {name}`;
/// a tool whose required permissions are not all granted is denied, naming
/// the first missing one; otherwise it runs.
pub open spec fn access(tools: Seq<ToolSpecView>, name: Seq<char>, granted: Seq<PermissionView>) -> Option<Option<PermissionView>> {
    match first_index(tools, tool_named(name)) {
        None => None,
        Some(i) => match first_index(tools[i].permissions, not_granted(granted)) {
            Some(k) => Some(Some(tools[i].permissions[k])),
            None => Some(None),
        },
    }
}

/// The tool registry through which every tool call passes.
pub struct ToolExecutor {
    tools: Vec<ToolSpec>,
}

impl ToolExecutor {
    /// The registered tools, in registration order.
    pub closed spec fn registered(&self) -> Seq<ToolSpecView> {
        spec_views(self.tools@)
    }

    #[verifier::type_invariant]
    closed spec fn wf(self) -> bool {
        names_distinct(spec_views(self.tools@))
    }

    pub fn new() -> (r: ToolExecutor)
        ensures
            r.registered() == Seq::<ToolSpecView>::empty(),
    {
        let r = ToolExecutor { tools: Vec::new() };
        assert(r.registered() =~= Seq::<ToolSpecView>::empty());
        r
    }

    fn position(&self, name: &str) -> (r: Option<usize>)
        ensures
            match r {
                Some(i) => first_index(self.registered(), tool_named(name@)) == Some(i as int) && i < self.tools.len(),
                None => first_index(self.registered(), tool_named(name@)) is None,
            },
    {
        let ghost s = self.registered();
        let mut i: usize = 0;
        assert(s.take(0) =~= Seq::<ToolSpecView>::empty());
        while i < self.tools.len()
            invariant
                i <= self.tools.len(),
                s == self.registered(),
                s.len() == self.tools.len(),
                first_index(s.take(i as int), tool_named(name@)) is None,
            decreases self.tools.len() - i,
        {
            proof {
                crate::text::lemma_first_index_step(s, tool_named(name@), i as int);
                assert(s[i as int] == self.tools@[i as int]@);
            }
            if str_eq(self.tools[i].name.as_str(), name) {
                return Some(i);
            }
            i += 1;
        }
        proof {
            crate::text::lemma_first_index_all(s, tool_named(name@));
        }
        None
    }

    /// Registers a tool, replacing any tool of the same name; no two
    /// registered tools ever share a name.
    pub fn register(&mut self, tool: ToolSpec)
        ensures
            final(self).registered() == registered_after(old(self).registered(), tool@),
            names_distinct(final(self).registered()),
    {
        proof {
            use_type_invariant(&*self);
        }
        let ghost s0 = self.registered();
        let ghost t = tool@;
        proof {
            law_register_keeps_names_unique(s0, t);
        }
        let mut tools: Vec<ToolSpec> = Vec::new();
        match self.position(tool.name.as_str()) {
            Some(i) => {
                std::mem::swap(&mut tools, &mut self.tools);
                tools.set(i, tool);
                assert(spec_views(tools@) =~= s0.update(i as int, t));
            },
            None => {
                std::mem::swap(&mut tools, &mut self.tools);
                tools.push(tool);
                assert(spec_views(tools@) =~= s0.push(t));
            },
        }
        self.tools = tools;
    }

    /// The names of the registered tools.
    pub fn available_tools(&self) -> (r: Vec<String>)
        ensures
            views(r@) == self.registered().map_values(|t: ToolSpecView| t.name),
            names_distinct(self.registered()),
    {
        proof {
            use_type_invariant(self);
        }
        let ghost want = self.registered().map_values(|t: ToolSpecView| t.name);
        let mut r: Vec<String> = Vec::new();
        let mut i: usize = 0;
        while i < self.tools.len()
            invariant
                i <= self.tools.len(),
                want == self.registered().map_values(|t: ToolSpecView| t.name),
                want.len() == self.tools.len(),
                views(r@) == want.take(i as int),
            decreases self.tools.len() - i,
        {
            let n = copy_string(&self.tools[i].name);
            proof { crate::text::lemma_views_push(r@, n); }
            r.push(n);
            assert(want[i as int] == self.tools@[i as int].name@);
            assert(views(r@) =~= want.take(i + 1));
            i += 1;
        }
        assert(want.take(self.tools.len() as int) =~= want);
        r
    }

    /// Runs a tool call through the permission check: an unknown tool fails,
    /// a tool missing a granted permission is answered with a denied result
    /// naming the first missing one and `run` is not called; otherwise the
    /// result is what `run` (the tool itself) returns, called once.
    pub fn execute<F: Fn(u128) -> Result<crate::messages::ToolResult, ToolError>>(
        &self,
        tool_name: &str,
        task_id: u128,
        granted: &Vec<Permission>,
        run: F,
    ) -> (r: Result<crate::messages::ToolResult, ToolError>)
        requires
            call_requires(run, (task_id,)),
        ensures
            match access(self.registered(), tool_name@, permission_views(granted@)) {
                None => r matches Err(ToolError::ExecutionFailed(m)) && m@ == "unknown tool: "@ + tool_name@,
                Some(Some(p)) => r matches Ok(res) && {
                    &&& res.task_id == task_id
                    &&& res.tool_name@ == tool_name@
                    &&& res.status == crate::schemas::Status::Denied
                    &&& res.side_effects@.len() == 0
                    &&& res.error matches Some(e) && e@ == "requires permission: "@ + permission_debug(p)
                },
                Some(None) => call_ensures(run, (task_id,), r),
            },
    {
        match self.authorize(tool_name, granted) {
            ToolAccess::Unknown(e) => Err(e),
            ToolAccess::Denied(reason) => Ok(crate::messages::ToolResult::denied(task_id, tool_name, reason.as_str())),
            ToolAccess::Allowed => run(task_id),
        }
    }

    /// Whether a call of `tool_name` may run with the granted permissions
    /// (see [`access`]).
    pub fn authorize(&self, tool_name: &str, granted: &Vec<Permission>) -> (r: ToolAccess)
        ensures
            match access(self.registered(), tool_name@, permission_views(granted@)) {
                None => r matches ToolAccess::Unknown(ToolError::ExecutionFailed(m)) && m@ == "unknown tool: "@ + tool_name@,
                Some(Some(p)) => r matches ToolAccess::Denied(m) && m@ == "requires permission: "@ + permission_debug(p),
                Some(None) => r is Allowed,
            },
    {
        let ghost g = permission_views(granted@);
        let i = match self.position(tool_name) {
            Some(i) => i,
            None => {
                let mut m = owned("unknown tool: ");
                push_str(&mut m, tool_name);
                return ToolAccess::Unknown(ToolError::ExecutionFailed(m));
            },
        };
        let tool = &self.tools[i];
        let ghost ps = tool@.permissions;
        assert(self.registered()[i as int] == tool@);
        let mut k: usize = 0;
        assert(ps.take(0) =~= Seq::<PermissionView>::empty());
        while k < tool.permissions.len()
            invariant
                k <= tool.permissions.len(),
                ps == tool@.permissions,
                ps.len() == tool.permissions.len(),
                g == permission_views(granted@),
                first_index(ps.take(k as int), not_granted(g)) is None,
                first_index(self.registered(), tool_named(tool_name@)) == Some(i as int),
                i < self.tools.len(),
                self.registered()[i as int] == tool@,
            decreases tool.permissions.len() - k,
        {
            proof {
                crate::text::lemma_first_index_step(ps, not_granted(g), k as int);
            }
            let required = &tool.permissions[k];
            assert(ps[k as int] == required@);
            let mut found = false;
            let mut j: usize = 0;
            while j < granted.len()
                invariant
                    j <= granted.len(),
                    g == permission_views(granted@),
                    found <==> exists|x: int| 0 <= x < j && g[x] == required@,
                decreases granted.len() - j,
            {
                if granted[j].same_as(required) {
                    found = true;
                }
                assert(g[j as int] == granted@[j as int]@);
                j += 1;
            }
            if !found {
                proof {
                    assert forall|x: int| 0 <= x < g.len() implies g[x] != required@ by {}
                    assert(!g.contains(required@));
                }
                let mut m = owned("requires permission: ");
                let d = permission_debug_text(required);
                push_str(&mut m, d.as_str());
                proof {
                    assert(not_granted(g)(ps[k as int]));
                    assert(first_index(ps, not_granted(g)) == Some(k as int));
                    assert(first_index(self.registered(), tool_named(tool_name@)) == Some(i as int));
                    assert(self.registered()[i as int].permissions == ps);
                    assert(access(self.registered(), tool_name@, g) == Some(Some(required@)));
                }
                return ToolAccess::Denied(m);
            }
            proof {
                let x = choose|x: int| 0 <= x < j && g[x] == required@;
                assert(g.contains(required@));
            }
            k += 1;
        }
        proof {
            crate::text::lemma_first_index_all(ps, not_granted(g));
        }
        ToolAccess::Allowed
    }
}

/// Deny by default: a call runs only when its tool is registered and every
/// permission the tool requires is granted.
pub proof fn law_runs_only_when_permitted(tools: Seq<ToolSpecView>, name: Seq<char>, granted: Seq<PermissionView>)
    ensures
        access(tools, name, granted) == Some(None::<PermissionView>) <==> exists|i: int| 0 <= i < tools.len() && tools[i].name == name
            && first_index(tools, tool_named(name)) == Some(i)
            && forall|k: int| 0 <= k < tools[i].permissions.len() ==> granted.contains(#[trigger] tools[i].permissions[k]),
{
    crate::text::lemma_first_index(tools, tool_named(name));
    match first_index(tools, tool_named(name)) {
        None => {},
        Some(i) => {
            crate::text::lemma_first_index(tools[i].permissions, not_granted(granted));
            match first_index(tools[i].permissions, not_granted(granted)) {
                Some(k) => {},
                None => {
                    assert forall|k: int| 0 <= k < tools[i].permissions.len() implies granted.contains(#[trigger] tools[i].permissions[k]) by {
                        assert(!not_granted(granted)(tools[i].permissions[k]));
                    }
                },
            }
        },
    }
}

// ─────────────────────────────── command outcomes ──────────────────────────

/// The side effect a shell command records: `Executed: {command}`.
pub fn command_effect_text(command: &str) -> (r: String)
    ensures
        r@ == "Executed: "@ + command@,
{
    let mut r = owned("Executed: ");
    push_str(&mut r, command);
    r
}

/// The error of a shell command that exited with a non-zero code:
/// `exit code {code}: {stderr}`; none for code 0.
pub fn command_error(exit_code: i32, stderr: &str) -> (r: Option<String>)
    ensures
        match r {
            Some(m) => exit_code != 0 && m@ == "exit code "@ + int_text(exit_code as int) + ": "@ + stderr@,
            None => exit_code == 0,
        },
{
    if exit_code == 0 {
        None
    } else {
        let mut m = owned("exit code ");
        push_int(&mut m, exit_code as i64);
        push_str(&mut m, ": ");
        push_str(&mut m, stderr);
        Some(m)
    }
}

/// The failure of a command that ran out of time.
pub fn command_timeout_text(timeout_secs: u64) -> (r: String)
    ensures
        r@ == "command timed out after "@ + decimal(timeout_secs as nat) + "s"@,
{
    let mut r = owned("command timed out after ");
    push_u64(&mut r, timeout_secs);
    push_str(&mut r, "s");
    r
}

/// What a search reports of grep's output: its first 100 lines, and
/// whether there were more.
pub fn grep_matches(stdout: &str) -> (r: (Vec<String>, bool))
    ensures
        views(r.0@) == if lines(stdout@).len() <= 100 { lines(stdout@) } else { lines(stdout@).take(100) },
        r.1 == (lines(stdout@).len() > 100),
{
    let ls = lines_chars(&to_chars(stdout));
    let ghost d = deep(ls@);
    let n: usize = if ls.len() > 100 { 100 } else { ls.len() };
    let mut out: Vec<String> = Vec::new();
    let mut i: usize = 0;
    while i < n
        invariant
            i <= n,
            n <= ls.len(),
            d == deep(ls@),
            views(out@) == d.take(i as int),
        decreases n - i,
    {
        let ghost before = out@;
        let l = string_of(&ls[i]);
        out.push(l);
        proof {
            lemma_views_push(before, l);
            assert(d.take(i + 1) =~= d.take(i as int).push(d[i as int]));
        }
        i += 1;
    }
    proof {
        if ls.len() <= 100 {
            assert(d.take(n as int) =~= d);
        }
    }
    (out, ls.len() > 100)
}


/// The registered tools after registering `t` (see `ToolExecutor::register`).
pub open spec fn registered_after(s: Seq<ToolSpecView>, t: ToolSpecView) -> Seq<ToolSpecView> {
    match first_index(s, tool_named(t.name)) {
        Some(i) => s.update(i, t),
        None => s.push(t),
    }
}

/// No two registered tools share a name.
pub open spec fn names_distinct(s: Seq<ToolSpecView>) -> bool {
    forall|i: int, j: int| 0 <= i < j < s.len() ==> #[trigger] s[i].name != #[trigger] s[j].name
}

pub open spec fn has_tool_named(s: Seq<ToolSpecView>, n: Seq<char>) -> bool {
    exists|k: int| 0 <= k < s.len() && #[trigger] s[k].name == n
}

/// Registering keeps tool names unique (an executor starts with none): the
/// names after a registration are the names before plus the new tool's, and
/// the tool registered under that name is the new one.
pub proof fn law_register_keeps_names_unique(s: Seq<ToolSpecView>, t: ToolSpecView)
    requires
        names_distinct(s),
    ensures
        names_distinct(registered_after(s, t)),
        forall|n: Seq<char>| #[trigger] has_tool_named(registered_after(s, t), n) <==> (has_tool_named(s, n) || n == t.name),
        first_index(registered_after(s, t), tool_named(t.name)) matches Some(k) && registered_after(s, t)[k] == t,
{
    crate::text::lemma_first_index(s, tool_named(t.name));
    let a = registered_after(s, t);
    match first_index(s, tool_named(t.name)) {
        Some(i) => {
            assert(s[i].name == t.name);
            assert forall|x: int, y: int| 0 <= x < y < a.len() implies #[trigger] a[x].name != #[trigger] a[y].name by {
                assert(s[x].name != s[y].name);
            }
            assert forall|n: Seq<char>| #[trigger] has_tool_named(a, n) <==> (has_tool_named(s, n) || n == t.name) by {
                if has_tool_named(a, n) {
                    let k = choose|k: int| 0 <= k < a.len() && #[trigger] a[k].name == n;
                    assert(s[k].name == n);
                }
                if has_tool_named(s, n) {
                    let k = choose|k: int| 0 <= k < s.len() && #[trigger] s[k].name == n;
                    assert(a[k].name == n);
                }
                if n == t.name {
                    assert(a[i].name == n);
                }
            }
            crate::text::lemma_first_index_update_hit(s, tool_named(t.name), i, t);
        },
        None => {
            assert forall|x: int, y: int| 0 <= x < y < a.len() implies #[trigger] a[x].name != #[trigger] a[y].name by {
                if y == s.len() {
                    assert(!tool_named(t.name)(s[x]));
                } else {
                    assert(s[x].name != s[y].name);
                }
            }
            assert forall|n: Seq<char>| #[trigger] has_tool_named(a, n) <==> (has_tool_named(s, n) || n == t.name) by {
                if has_tool_named(a, n) {
                    let k = choose|k: int| 0 <= k < a.len() && #[trigger] a[k].name == n;
                    if k < s.len() {
                        assert(s[k].name == n);
                    }
                }
                if has_tool_named(s, n) {
                    let k = choose|k: int| 0 <= k < s.len() && #[trigger] s[k].name == n;
                    assert(a[k].name == n);
                }
                if n == t.name {
                    assert(a[s.len() as int].name == n);
                }
            }
            crate::text::lemma_first_index_push(s, tool_named(t.name), t);
        },
    }
}

} // verus!
