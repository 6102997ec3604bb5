//! The media-server tools: which Jellyfin requests they make, how they sign
//! them, and what they report of the replies. The HTTP round trip itself is
//! the caller's; the records here hold, as plain values, the fields of the
//! replies that the reports read.
use vstd::prelude::*;

use crate::error::ToolError;
use crate::schemas::{permission_views, Permission, PermissionView};
use crate::text::{decimal, lemma_views_push, owned, push_str, push_u64, views};
use crate::tools::custom_permission;

verus! {

// ─────────────────────────────── the client ────────────────────────────────

/// Where a Jellyfin server is and the credentials its requests carry.
pub struct JellyfinClient {
    pub base_url: String,
    pub api_key: String,
    pub user_id: String,
}

/// The `Authorization` header of every request.
pub open spec fn auth_header_text(api_key: Seq<char>) -> Seq<char> {
    "MediaBrowser Client=\"Glorfindel\", Device=\"glorfindel-agent\", DeviceId=\"glorfindel\", Version=\"0.1\", Token=\""@
        + api_key + "\""@
}

impl JellyfinClient {
    pub fn new(base_url: &str, api_key: &str, user_id: &str) -> (r: JellyfinClient)
        ensures
            r.base_url@ == base_url@,
            r.api_key@ == api_key@,
            r.user_id@ == user_id@,
    {
        JellyfinClient { base_url: owned(base_url), api_key: owned(api_key), user_id: owned(user_id) }
    }

    /// The `Authorization` header value, carrying the API key as token.
    pub fn auth_header(&self) -> (r: String)
        ensures
            r@ == auth_header_text(self.api_key@),
    {
        let mut r = owned(
            "MediaBrowser Client=\"Glorfindel\", Device=\"glorfindel-agent\", DeviceId=\"glorfindel\", Version=\"0.1\", Token=\"",
        );
        push_str(&mut r, self.api_key.as_str());
        push_str(&mut r, "\"");
        r
    }

    /// The full URL of a request path: the base URL followed by the path.
    pub fn url(&self, path: &str) -> (r: String)
        ensures
            r@ == self.base_url@ + path@,
    {
        let mut r = owned(self.base_url.as_str());
        push_str(&mut r, path);
        r
    }
}

// ─────────────────────────────── URL encoding ──────────────────────────────

/// The characters `urlencoding::encode` leaves as they are.
pub open spec fn unreserved(c: char) -> bool {
    ('0' <= c && c <= '9') || ('A' <= c && c <= 'Z') || ('a' <= c && c <= 'z') || c == '-' || c == '.'
        || c == '_' || c == '~'
}

/// The percent-encoding of a string, as `urlencoding::encode` computes it.
pub uninterp spec fn url_encoded_of(s: Seq<char>) -> Seq<char>;

/// `urlencoding::encode`: percent-encodes every byte of the UTF-8 text
/// except ASCII alphanumerics and `-`, `_`, `.`, `~`. Stated: the result is
/// the named encoding of the argument, and a text made only of those
/// characters comes back unchanged. The escapes of other characters are left
/// unstated.
#[verifier::external_body]
fn url_encode(s: &str) -> (r: String)
    ensures
        r@ == url_encoded_of(s@),
        (forall|i: int| 0 <= i < s@.len() ==> #[trigger] unreserved(s@[i])) ==> r@ == s@,
{
    urlencoding::encode(s).into_owned()
}

// ─────────────────────────────── request paths ─────────────────────────────

/// The item-type filter appended to listing requests, when one is given.
pub open spec fn type_filter(item_types: Seq<char>) -> Seq<char> {
    if item_types.len() == 0 {
        Seq::empty()
    } else {
        "&IncludeItemTypes="@ + item_types
    }
}

fn push_type_filter(r: &mut String, item_types: &str)
    ensures
        final(r)@ == old(r)@ + type_filter(item_types@),
{
    if item_types.is_empty() {
        assert(old(r)@ + type_filter(item_types@) =~= old(r)@);
    } else {
        push_str(r, "&IncludeItemTypes=");
        push_str(r, item_types);
        assert(final(r)@ =~= old(r)@ + type_filter(item_types@));
    }
}

/// The title search: the user's items matching the (encoded) search term,
/// at most `limit`, recursively, sorted by name, with overview, year and run
/// time.
pub open spec fn search_path_text(user_id: Seq<char>, encoded_query: Seq<char>, limit: u64, item_types: Seq<char>) -> Seq<char> {
    "/Users/"@ + user_id + "/Items?SearchTerm="@ + encoded_query + "&Limit="@ + decimal(limit as nat)
        + "&Recursive=true&Fields=Overview,ProductionYear,RunTimeTicks&SortBy=SortName&SortOrder=Ascending"@
        + type_filter(item_types)
}

/// The path of a title search whose term is already encoded.
pub fn search_path(user_id: &str, encoded_query: &str, limit: u64, item_types: &str) -> (r: String)
    ensures
        r@ == search_path_text(user_id@, encoded_query@, limit, item_types@),
{
    let mut r = owned("/Users/");
    push_str(&mut r, user_id);
    push_str(&mut r, "/Items?SearchTerm=");
    push_str(&mut r, encoded_query);
    push_str(&mut r, "&Limit=");
    push_u64(&mut r, limit);
    push_str(
        &mut r,
        "&Recursive=true&Fields=Overview,ProductionYear,RunTimeTicks&SortBy=SortName&SortOrder=Ascending",
    );
    push_type_filter(&mut r, item_types);
    r
}

/// The latest additions of the user's library, at most `limit`.
pub open spec fn recent_path_text(user_id: Seq<char>, limit: u64, item_types: Seq<char>) -> Seq<char> {
    "/Users/"@ + user_id + "/Items/Latest?Limit="@ + decimal(limit as nat)
        + "&Fields=Overview,ProductionYear,DateCreated"@ + type_filter(item_types)
}

pub fn recent_path(user_id: &str, limit: u64, item_types: &str) -> (r: String)
    ensures
        r@ == recent_path_text(user_id@, limit, item_types@),
{
    let mut r = owned("/Users/");
    push_str(&mut r, user_id);
    push_str(&mut r, "/Items/Latest?Limit=");
    push_u64(&mut r, limit);
    push_str(&mut r, "&Fields=Overview,ProductionYear,DateCreated");
    push_type_filter(&mut r, item_types);
    r
}

/// One item of the user's library with its full metadata.
pub open spec fn item_path_text(user_id: Seq<char>, item_id: Seq<char>) -> Seq<char> {
    "/Users/"@ + user_id + "/Items/"@ + item_id
        + "?Fields=Genres,Studios,People,MediaSources,Overview,CriticRating,CommunityRating"@
}

pub fn item_path(user_id: &str, item_id: &str) -> (r: String)
    ensures
        r@ == item_path_text(user_id@, item_id@),
{
    let mut r = owned("/Users/");
    push_str(&mut r, user_id);
    push_str(&mut r, "/Items/");
    push_str(&mut r, item_id);
    push_str(&mut r, "?Fields=Genres,Studios,People,MediaSources,Overview,CriticRating,CommunityRating");
    r
}

/// A metadata refresh of one item, keeping what is there.
pub open spec fn refresh_path_text(item_id: Seq<char>) -> Seq<char> {
    "/Items/"@ + item_id + "/Refresh?ReplaceAllMetadata=false"@
}

pub fn refresh_path(item_id: &str) -> (r: String)
    ensures
        r@ == refresh_path_text(item_id@),
{
    let mut r = owned("/Items/");
    push_str(&mut r, item_id);
    push_str(&mut r, "/Refresh?ReplaceAllMetadata=false");
    r
}


// ─────────────────────────────── reports ───────────────────────────────────

/// Jellyfin's run-time ticks (100 ns each) as whole minutes, truncated
/// toward zero as Rust's integer division does.
pub open spec fn minutes_of_ticks(ticks: int) -> int {
    if ticks >= 0 {
        ticks / 600_000_000
    } else {
        -((-ticks) / 600_000_000)
    }
}

/// The run time in minutes, when the reply gave one in ticks.
pub fn runtime_minutes(ticks: Option<i64>) -> (r: Option<i64>)
    ensures
        match ticks {
            Some(t) => r == Some(minutes_of_ticks(t as int) as i64),
            None => r is None,
        },
{
    match ticks {
        None => None,
        Some(t) => {
            let u: i128 = t as i128;
            if u >= 0 {
                Some((u / 600_000_000) as i64)
            } else {
                let q: i128 = (0 - u) / 600_000_000;
                Some((0 - q) as i64)
            }
        }
    }
}

/// A text field of a reply, or the default when the reply has none.
pub open spec fn text_or(o: Option<String>, default: Seq<char>) -> Seq<char> {
    match o {
        Some(s) => s@,
        None => default,
    }
}

fn text_or_default(o: &Option<String>, default: &str) -> (r: String)
    ensures
        r@ == text_or(*o, default@),
{
    match o {
        Some(s) => owned(s.as_str()),
        None => owned(default),
    }
}


// ─────────────────────────────── the tools ─────────────────────────────────

/// Searches the library by title.
pub struct MediaSearchTool {
    pub jellyfin: JellyfinClient,
}

impl MediaSearchTool {
    pub fn new(jellyfin: JellyfinClient) -> (r: MediaSearchTool)
        ensures
            r.jellyfin == jellyfin,
    {
        MediaSearchTool { jellyfin }
    }

    pub fn name(&self) -> (r: &'static str)
        ensures
            r@ == "media.search"@,
    {
        "media.search"
    }

    pub fn description(&self) -> (r: &'static str)
        ensures
            r@ == "Search the media library by title. Parameters: 'query' (string, required), 'limit' (number, optional, default 10), 'type' (string, optional: 'Movie', 'Series', 'Episode', default all). Returns matching items with name, year, type, and overview."@,
    {
        "Search the media library by title. Parameters: 'query' (string, required), 'limit' (number, optional, default 10), 'type' (string, optional: 'Movie', 'Series', 'Episode', default all). Returns matching items with name, year, type, and overview."
    }

    /// The custom permission `media.read`.
    pub fn required_permissions(&self) -> (r: Vec<Permission>)
        ensures
            permission_views(r@) == seq![PermissionView::Custom("media.read"@)],
    {
        custom_permission("media.read")
    }
}

/// Reports the library's folders and item counts.
pub struct MediaLibraryTool {
    pub jellyfin: JellyfinClient,
}

impl MediaLibraryTool {
    pub fn new(jellyfin: JellyfinClient) -> (r: MediaLibraryTool)
        ensures
            r.jellyfin == jellyfin,
    {
        MediaLibraryTool { jellyfin }
    }

    pub fn name(&self) -> (r: &'static str)
        ensures
            r@ == "media.library"@,
    {
        "media.library"
    }

    pub fn description(&self) -> (r: &'static str)
        ensures
            r@ == "Get an overview of the media library: virtual folder names and item counts (movies, series, episodes). No parameters required."@,
    {
        "Get an overview of the media library: virtual folder names and item counts (movies, series, episodes). No parameters required."
    }

    /// The custom permission `media.read`.
    pub fn required_permissions(&self) -> (r: Vec<Permission>)
        ensures
            permission_views(r@) == seq![PermissionView::Custom("media.read"@)],
    {
        custom_permission("media.read")
    }
}

/// Lists the latest additions to the library.
pub struct MediaRecentTool {
    pub jellyfin: JellyfinClient,
}

impl MediaRecentTool {
    pub fn new(jellyfin: JellyfinClient) -> (r: MediaRecentTool)
        ensures
            r.jellyfin == jellyfin,
    {
        MediaRecentTool { jellyfin }
    }

    pub fn name(&self) -> (r: &'static str)
        ensures
            r@ == "media.recent"@,
    {
        "media.recent"
    }

    pub fn description(&self) -> (r: &'static str)
        ensures
            r@ == "Get recently added media items. Parameters: 'limit' (number, optional, default 10), 'type' (string, optional: 'Movie', 'Series', 'Episode'). Returns name, type, year, and date added."@,
    {
        "Get recently added media items. Parameters: 'limit' (number, optional, default 10), 'type' (string, optional: 'Movie', 'Series', 'Episode'). Returns name, type, year, and date added."
    }

    /// The custom permission `media.read`.
    pub fn required_permissions(&self) -> (r: Vec<Permission>)
        ensures
            permission_views(r@) == seq![PermissionView::Custom("media.read"@)],
    {
        custom_permission("media.read")
    }
}

/// Reports who is playing what.
pub struct MediaSessionsTool {
    pub jellyfin: JellyfinClient,
}

impl MediaSessionsTool {
    pub fn new(jellyfin: JellyfinClient) -> (r: MediaSessionsTool)
        ensures
            r.jellyfin == jellyfin,
    {
        MediaSessionsTool { jellyfin }
    }

    pub fn name(&self) -> (r: &'static str)
        ensures
            r@ == "media.sessions"@,
    {
        "media.sessions"
    }

    pub fn description(&self) -> (r: &'static str)
        ensures
            r@ == "Get currently active playback sessions. No parameters required. Returns who is watching what, playback position, and client info."@,
    {
        "Get currently active playback sessions. No parameters required. Returns who is watching what, playback position, and client info."
    }

    /// The custom permission `media.read`.
    pub fn required_permissions(&self) -> (r: Vec<Permission>)
        ensures
            permission_views(r@) == seq![PermissionView::Custom("media.read"@)],
    {
        custom_permission("media.read")
    }
}

/// Starts a scan of every library.
pub struct MediaScanTool {
    pub jellyfin: JellyfinClient,
}

impl MediaScanTool {
    pub fn new(jellyfin: JellyfinClient) -> (r: MediaScanTool)
        ensures
            r.jellyfin == jellyfin,
    {
        MediaScanTool { jellyfin }
    }

    pub fn name(&self) -> (r: &'static str)
        ensures
            r@ == "media.scan"@,
    {
        "media.scan"
    }

    pub fn description(&self) -> (r: &'static str)
        ensures
            r@ == "Trigger a library scan to pick up new or changed files. No parameters required. Jellyfin will scan all libraries in the background."@,
    {
        "Trigger a library scan to pick up new or changed files. No parameters required. Jellyfin will scan all libraries in the background."
    }

    /// The custom permission `media.write`.
    pub fn required_permissions(&self) -> (r: Vec<Permission>)
        ensures
            permission_views(r@) == seq![PermissionView::Custom("media.write"@)],
    {
        custom_permission("media.write")
    }
}

/// Starts a metadata refresh of one item.
pub struct MediaRefreshTool {
    pub jellyfin: JellyfinClient,
}

impl MediaRefreshTool {
    pub fn new(jellyfin: JellyfinClient) -> (r: MediaRefreshTool)
        ensures
            r.jellyfin == jellyfin,
    {
        MediaRefreshTool { jellyfin }
    }

    pub fn name(&self) -> (r: &'static str)
        ensures
            r@ == "media.refresh"@,
    {
        "media.refresh"
    }

    pub fn description(&self) -> (r: &'static str)
        ensures
            r@ == "Refresh metadata for a specific media item. Parameter: 'item_id' (string, required). Get item_id from media.search results."@,
    {
        "Refresh metadata for a specific media item. Parameter: 'item_id' (string, required). Get item_id from media.search results."
    }

    /// The custom permission `media.write`.
    pub fn required_permissions(&self) -> (r: Vec<Permission>)
        ensures
            permission_views(r@) == seq![PermissionView::Custom("media.write"@)],
    {
        custom_permission("media.write")
    }
}

/// Reports one item's full metadata.
pub struct MediaItemTool {
    pub jellyfin: JellyfinClient,
}

impl MediaItemTool {
    pub fn new(jellyfin: JellyfinClient) -> (r: MediaItemTool)
        ensures
            r.jellyfin == jellyfin,
    {
        MediaItemTool { jellyfin }
    }

    pub fn name(&self) -> (r: &'static str)
        ensures
            r@ == "media.item"@,
    {
        "media.item"
    }

    pub fn description(&self) -> (r: &'static str)
        ensures
            r@ == "Get detailed info about a media item by ID. Parameter: 'item_id' (string, required). Returns full metadata including genres, studios, cast, ratings, and file info."@,
    {
        "Get detailed info about a media item by ID. Parameter: 'item_id' (string, required). Returns full metadata including genres, studios, cast, ratings, and file info."
    }

    /// The custom permission `media.read`.
    pub fn required_permissions(&self) -> (r: Vec<Permission>)
        ensures
            permission_views(r@) == seq![PermissionView::Custom("media.read"@)],
    {
        custom_permission("media.read")
    }
}

/// Lists the server's users.
pub struct MediaUsersTool {
    pub jellyfin: JellyfinClient,
}

impl MediaUsersTool {
    pub fn new(jellyfin: JellyfinClient) -> (r: MediaUsersTool)
        ensures
            r.jellyfin == jellyfin,
    {
        MediaUsersTool { jellyfin }
    }

    pub fn name(&self) -> (r: &'static str)
        ensures
            r@ == "media.users"@,
    {
        "media.users"
    }

    pub fn description(&self) -> (r: &'static str)
        ensures
            r@ == "List all Jellyfin users. No parameters required. Returns username, last activity, and whether the account is disabled."@,
    {
        "List all Jellyfin users. No parameters required. Returns username, last activity, and whether the account is disabled."
    }

    /// The custom permission `media.read`.
    pub fn required_permissions(&self) -> (r: Vec<Permission>)
        ensures
            permission_views(r@) == seq![PermissionView::Custom("media.read"@)],
    {
        custom_permission("media.read")
    }
}


// ─────────────────────────────── requests ──────────────────────────────────

/// An optional text parameter, empty when absent.
pub open spec fn param_or_empty(o: Option<&str>) -> Seq<char> {
    match o {
        Some(x) => x@,
        None => Seq::empty(),
    }
}

/// A count parameter, 10 when absent.
pub open spec fn limit_or_default(o: Option<u64>) -> u64 {
    match o {
        Some(l) => l,
        None => 10u64,
    }
}

fn str_or_empty(o: Option<&str>) -> (r: &str)
    ensures
        r@ == param_or_empty(o),
{
    match o {
        Some(x) => x,
        None => {
            proof {
                reveal_strlit("");
            }
            ""
        },
    }
}

fn missing(p: &str) -> (r: ToolError)
    ensures
        r matches ToolError::MissingParameter(q) && q@ == p@,
{
    ToolError::MissingParameter(owned(p))
}

impl MediaSearchTool {
    /// The search request: `query` is required, and its absence is a
    /// missing-parameter error; the term goes in percent-encoded, `limit`
    /// defaults to 10 and `type` to every type.
    pub fn request_path(&self, query: Option<&str>, limit: Option<u64>, item_type: Option<&str>) -> (r: Result<String, ToolError>)
        ensures
            match query {
                None => r matches Err(ToolError::MissingParameter(p)) && p@ == "query"@,
                Some(q) => r matches Ok(path) && path@ == search_path_text(
                    self.jellyfin.user_id@,
                    url_encoded_of(q@),
                    limit_or_default(limit),
                    param_or_empty(item_type),
                ),
            },
    {
        match query {
            None => Err(missing("query")),
            Some(q) => {
                let encoded = url_encode(q);
                let l: u64 = match limit {
                    Some(l) => l,
                    None => 10,
                };
                Ok(search_path(self.jellyfin.user_id.as_str(), encoded.as_str(), l, str_or_empty(item_type)))
            },
        }
    }
}

impl MediaLibraryTool {
    /// The library's virtual folders.
    pub fn folders_path(&self) -> (r: &'static str)
        ensures
            r@ == "/Library/VirtualFolders"@,
    {
        "/Library/VirtualFolders"
    }

    /// The item counts of the library.
    pub fn counts_path(&self) -> (r: &'static str)
        ensures
            r@ == "/Items/Counts"@,
    {
        "/Items/Counts"
    }
}

impl MediaRecentTool {
    /// The latest additions: `limit` defaults to 10 and `type` to every type.
    pub fn request_path(&self, limit: Option<u64>, item_type: Option<&str>) -> (r: String)
        ensures
            r@ == recent_path_text(self.jellyfin.user_id@, limit_or_default(limit), param_or_empty(item_type)),
    {
        let l: u64 = match limit {
            Some(l) => l,
            None => 10,
        };
        recent_path(self.jellyfin.user_id.as_str(), l, str_or_empty(item_type))
    }
}

impl MediaSessionsTool {
    /// Sessions active within the last five minutes.
    pub fn request_path(&self) -> (r: &'static str)
        ensures
            r@ == "/Sessions?ActiveWithinSeconds=300"@,
    {
        "/Sessions?ActiveWithinSeconds=300"
    }
}

impl MediaScanTool {
    /// The scan of every library (a `POST` without body).
    pub fn request_path(&self) -> (r: &'static str)
        ensures
            r@ == "/Library/Refresh"@,
    {
        "/Library/Refresh"
    }

    /// The status reported once the server accepted the scan.
    pub fn started_status(&self) -> (r: &'static str)
        ensures
            r@ == "scan started"@,
    {
        "scan started"
    }
}

impl MediaRefreshTool {
    /// The refresh of one item (a `POST` without body): `item_id` is
    /// required.
    pub fn request_path(&self, item_id: Option<&str>) -> (r: Result<String, ToolError>)
        ensures
            match item_id {
                None => r matches Err(ToolError::MissingParameter(p)) && p@ == "item_id"@,
                Some(id) => r matches Ok(path) && path@ == refresh_path_text(id@),
            },
    {
        match item_id {
            None => Err(missing("item_id")),
            Some(id) => Ok(refresh_path(id)),
        }
    }

    /// The status reported once the server accepted the refresh.
    pub fn started_status(&self) -> (r: &'static str)
        ensures
            r@ == "refresh started"@,
    {
        "refresh started"
    }
}

impl MediaItemTool {
    /// The detail request of one item: `item_id` is required.
    pub fn request_path(&self, item_id: Option<&str>) -> (r: Result<String, ToolError>)
        ensures
            match item_id {
                None => r matches Err(ToolError::MissingParameter(p)) && p@ == "item_id"@,
                Some(id) => r matches Ok(path) && path@ == item_path_text(self.jellyfin.user_id@, id@),
            },
    {
        match item_id {
            None => Err(missing("item_id")),
            Some(id) => Ok(item_path(self.jellyfin.user_id.as_str(), id)),
        }
    }
}

impl MediaUsersTool {
    /// Every user of the server.
    pub fn request_path(&self) -> (r: &'static str)
        ensures
            r@ == "/Users"@,
    {
        "/Users"
    }
}


// ─────────────────────────────── replies ───────────────────────────────────

/// The fields of an item as the server lists or details it, each one when
/// the reply has it as the expected type.
pub struct ItemFields {
    pub id: Option<String>,
    pub name: Option<String>,
    pub kind: Option<String>,
    pub overview: Option<String>,
    pub date_created: Option<String>,
    pub runtime_ticks: Option<i64>,
}

/// What `media.search` reports of an item (the production year goes along
/// as the server gave it).
pub struct SearchEntry {
    pub id: String,
    pub name: String,
    pub kind: String,
    pub overview: String,
    pub runtime_minutes: Option<i64>,
}

/// A search entry reports an item: its texts, empty where the item has
/// none, and its run time in minutes.
pub open spec fn reports_search(e: SearchEntry, f: ItemFields) -> bool {
    &&& e.id@ == text_or(f.id, Seq::empty())
    &&& e.name@ == text_or(f.name, Seq::empty())
    &&& e.kind@ == text_or(f.kind, Seq::empty())
    &&& e.overview@ == text_or(f.overview, Seq::empty())
    &&& e.runtime_minutes == match f.runtime_ticks {
        Some(t) => Some(minutes_of_ticks(t as int) as i64),
        None => None,
    }
}

fn empty_text() -> (r: &'static str)
    ensures
        r@ == Seq::<char>::empty(),
{
    proof {
        reveal_strlit("");
    }
    ""
}

/// The entries of a search reply, one per item, in the reply's order.
pub fn search_entries(items: &Vec<ItemFields>) -> (r: Vec<SearchEntry>)
    ensures
        r@.len() == items@.len(),
        forall|i: int| 0 <= i < items@.len() ==> reports_search(#[trigger] r@[i], items@[i]),
{
    let mut r: Vec<SearchEntry> = Vec::new();
    let mut i: usize = 0;
    while i < items.len()
        invariant
            i <= items@.len(),
            r@.len() == i,
            forall|j: int| 0 <= j < i ==> reports_search(#[trigger] r@[j], items@[j]),
        decreases items@.len() - i,
    {
        let f = &items[i];
        let e = SearchEntry {
            id: text_or_default(&f.id, empty_text()),
            name: text_or_default(&f.name, empty_text()),
            kind: text_or_default(&f.kind, empty_text()),
            overview: text_or_default(&f.overview, empty_text()),
            runtime_minutes: runtime_minutes(f.runtime_ticks),
        };
        r.push(e);
        i += 1;
    }
    r
}

/// What `media.recent` reports of an item (the production year goes along
/// as the server gave it).
pub struct RecentEntry {
    pub name: String,
    pub kind: String,
    pub added: String,
    pub overview: String,
}

/// A recent entry reports an item's name, type, creation date and overview,
/// empty where the item has none.
pub open spec fn reports_recent(e: RecentEntry, f: ItemFields) -> bool {
    &&& e.name@ == text_or(f.name, Seq::empty())
    &&& e.kind@ == text_or(f.kind, Seq::empty())
    &&& e.added@ == text_or(f.date_created, Seq::empty())
    &&& e.overview@ == text_or(f.overview, Seq::empty())
}

/// The entries of a latest-additions reply, one per item, in order.
pub fn recent_entries(items: &Vec<ItemFields>) -> (r: Vec<RecentEntry>)
    ensures
        r@.len() == items@.len(),
        forall|i: int| 0 <= i < items@.len() ==> reports_recent(#[trigger] r@[i], items@[i]),
{
    let mut r: Vec<RecentEntry> = Vec::new();
    let mut i: usize = 0;
    while i < items.len()
        invariant
            i <= items@.len(),
            r@.len() == i,
            forall|j: int| 0 <= j < i ==> reports_recent(#[trigger] r@[j], items@[j]),
        decreases items@.len() - i,
    {
        let f = &items[i];
        let e = RecentEntry {
            name: text_or_default(&f.name, empty_text()),
            kind: text_or_default(&f.kind, empty_text()),
            added: text_or_default(&f.date_created, empty_text()),
            overview: text_or_default(&f.overview, empty_text()),
        };
        r.push(e);
        i += 1;
    }
    r
}


/// The texts that are present, in order.
pub open spec fn present_texts(s: Seq<Option<String>>) -> Seq<Seq<char>>
    decreases s.len(),
{
    if s.len() == 0 {
        Seq::empty()
    } else {
        let p = present_texts(s.drop_last());
        match s.last() {
            Some(x) => p.push(x@),
            None => p,
        }
    }
}

/// The path of the first media source, empty when there is none or it has
/// no path.
pub open spec fn first_path(paths: Seq<Option<String>>) -> Seq<char> {
    if paths.len() == 0 {
        Seq::empty()
    } else {
        text_or(paths[0], Seq::empty())
    }
}

/// What `media.item` reports of one item (year, genres and ratings go along
/// as the server gave them).
pub struct ItemDetail {
    pub id: String,
    pub name: String,
    pub kind: String,
    pub overview: String,
    pub runtime_minutes: Option<i64>,
    pub studios: Option<Vec<String>>,
    pub path: String,
}

fn present_strings(s: &Vec<Option<String>>) -> (r: Vec<String>)
    ensures
        views(r@) == present_texts(s@),
{
    let mut r: Vec<String> = Vec::new();
    let mut i: usize = 0;
    while i < s.len()
        invariant
            i <= s@.len(),
            views(r@) == present_texts(s@.take(i as int)),
        decreases s@.len() - i,
    {
        proof {
            assert(s@.take(i + 1).drop_last() =~= s@.take(i as int));
        }
        match &s[i] {
            Some(x) => {
                let c = owned(x.as_str());
                proof {
                    lemma_views_push(r@, c);
                }
                r.push(c);
            },
            None => {},
        }
        i += 1;
    }
    proof {
        assert(s@.take(s@.len() as int) =~= s@);
    }
    r
}

/// The detail of an item: its texts, empty where it has none, its run time
/// in minutes, the names of its studios that have one (when the reply lists
/// studios), and the path of its first media source.
pub fn item_detail(fields: &ItemFields, studios: &Option<Vec<Option<String>>>, source_paths: &Vec<Option<String>>) -> (r: ItemDetail)
    ensures
        r.id@ == text_or(fields.id, Seq::empty()),
        r.name@ == text_or(fields.name, Seq::empty()),
        r.kind@ == text_or(fields.kind, Seq::empty()),
        r.overview@ == text_or(fields.overview, Seq::empty()),
        r.runtime_minutes == match fields.runtime_ticks {
            Some(t) => Some(minutes_of_ticks(t as int) as i64),
            None => None,
        },
        match studios {
            Some(v) => r.studios matches Some(w) && views(w@) == present_texts(v@),
            None => r.studios is None,
        },
        r.path@ == first_path(source_paths@),
{
    let names = match studios {
        Some(v) => Some(present_strings(v)),
        None => None,
    };
    let path = if source_paths.len() == 0 {
        owned(empty_text())
    } else {
        text_or_default(&source_paths[0], empty_text())
    };
    ItemDetail {
        id: text_or_default(&fields.id, empty_text()),
        name: text_or_default(&fields.name, empty_text()),
        kind: text_or_default(&fields.kind, empty_text()),
        overview: text_or_default(&fields.overview, empty_text()),
        runtime_minutes: runtime_minutes(fields.runtime_ticks),
        studios: names,
        path,
    }
}

/// A flag of a reply, `false` when the reply has none.
pub open spec fn flag_or_false(o: Option<bool>) -> bool {
    match o {
        Some(b) => b,
        None => false,
    }
}

fn flag(o: Option<bool>) -> (r: bool)
    ensures
        r == flag_or_false(o),
{
    match o {
        Some(b) => b,
        None => false,
    }
}

/// The fields of a user as the server lists it.
pub struct UserFields {
    pub id: Option<String>,
    pub name: Option<String>,
    pub last_login: Option<String>,
    pub last_activity: Option<String>,
    pub is_admin: Option<bool>,
    pub is_disabled: Option<bool>,
}

/// What `media.users` reports of a user.
pub struct UserEntry {
    pub id: String,
    pub name: String,
    pub last_login: String,
    pub last_activity: String,
    pub is_admin: bool,
    pub is_disabled: bool,
}

/// A user entry reports the user's texts, empty where missing, and its
/// policy flags, `false` where missing.
pub open spec fn reports_user(e: UserEntry, u: UserFields) -> bool {
    &&& e.id@ == text_or(u.id, Seq::empty())
    &&& e.name@ == text_or(u.name, Seq::empty())
    &&& e.last_login@ == text_or(u.last_login, Seq::empty())
    &&& e.last_activity@ == text_or(u.last_activity, Seq::empty())
    &&& e.is_admin == flag_or_false(u.is_admin)
    &&& e.is_disabled == flag_or_false(u.is_disabled)
}

/// The entries of a users reply, one per user, in order.
pub fn user_entries(users: &Vec<UserFields>) -> (r: Vec<UserEntry>)
    ensures
        r@.len() == users@.len(),
        forall|i: int| 0 <= i < users@.len() ==> reports_user(#[trigger] r@[i], users@[i]),
{
    let mut r: Vec<UserEntry> = Vec::new();
    let mut i: usize = 0;
    while i < users.len()
        invariant
            i <= users@.len(),
            r@.len() == i,
            forall|j: int| 0 <= j < i ==> reports_user(#[trigger] r@[j], users@[j]),
        decreases users@.len() - i,
    {
        let u = &users[i];
        let e = UserEntry {
            id: text_or_default(&u.id, empty_text()),
            name: text_or_default(&u.name, empty_text()),
            last_login: text_or_default(&u.last_login, empty_text()),
            last_activity: text_or_default(&u.last_activity, empty_text()),
            is_admin: flag(u.is_admin),
            is_disabled: flag(u.is_disabled),
        };
        r.push(e);
        i += 1;
    }
    r
}

/// The fields of a virtual folder of the library.
pub struct FolderFields {
    pub name: Option<String>,
    pub collection_type: Option<String>,
}

/// What `media.library` reports of a folder.
pub struct LibraryEntry {
    pub name: String,
    pub kind: String,
}

/// A library entry reports the folder's name, empty when missing, and its
/// collection type, `mixed` when missing.
pub open spec fn reports_folder(e: LibraryEntry, f: FolderFields) -> bool {
    &&& e.name@ == text_or(f.name, Seq::empty())
    &&& e.kind@ == text_or(f.collection_type, "mixed"@)
}

/// The entries of a virtual-folders reply, one per folder, in order.
pub fn library_entries(folders: &Vec<FolderFields>) -> (r: Vec<LibraryEntry>)
    ensures
        r@.len() == folders@.len(),
        forall|i: int| 0 <= i < folders@.len() ==> reports_folder(#[trigger] r@[i], folders@[i]),
{
    let mut r: Vec<LibraryEntry> = Vec::new();
    let mut i: usize = 0;
    while i < folders.len()
        invariant
            i <= folders@.len(),
            r@.len() == i,
            forall|j: int| 0 <= j < i ==> reports_folder(#[trigger] r@[j], folders@[j]),
        decreases folders@.len() - i,
    {
        let f = &folders[i];
        let e = LibraryEntry {
            name: text_or_default(&f.name, empty_text()),
            kind: text_or_default(&f.collection_type, "mixed"),
        };
        r.push(e);
        i += 1;
    }
    r
}


/// What is playing in a session.
pub struct NowPlaying {
    pub name: Option<String>,
    pub kind: Option<String>,
}

/// The fields of a session as the server lists it.
pub struct SessionFields {
    pub user: Option<String>,
    pub client: Option<String>,
    pub device: Option<String>,
    pub now_playing: Option<NowPlaying>,
    pub position_ticks: Option<i64>,
    pub paused: Option<bool>,
}

/// What `media.sessions` reports of a session that is playing something.
pub struct ActiveSession {
    pub user: String,
    pub client: String,
    pub device: String,
    pub playing: String,
    pub kind: String,
    pub position_minutes: Option<i64>,
    pub paused: bool,
}

/// The positions, among the first `n` sessions, of those playing something.
pub open spec fn playing_indices(s: Seq<SessionFields>, n: int) -> Seq<int>
    decreases n,
{
    if n <= 0 {
        Seq::empty()
    } else {
        let p = playing_indices(s, n - 1);
        if s[n - 1].now_playing is Some {
            p.push(n - 1)
        } else {
            p
        }
    }
}

/// An active-session entry reports a playing session: the user (`Unknown`
/// when missing), client and device, the title and type playing, the
/// position in minutes and whether playback is paused.
pub open spec fn reports_session(a: ActiveSession, s: SessionFields) -> bool {
    &&& s.now_playing matches Some(np)
    &&& a.user@ == text_or(s.user, "Unknown"@)
    &&& a.client@ == text_or(s.client, Seq::empty())
    &&& a.device@ == text_or(s.device, Seq::empty())
    &&& a.playing@ == text_or(np.name, Seq::empty())
    &&& a.kind@ == text_or(np.kind, Seq::empty())
    &&& a.position_minutes == match s.position_ticks {
        Some(t) => Some(minutes_of_ticks(t as int) as i64),
        None => None,
    }
    &&& a.paused == flag_or_false(s.paused)
}

/// The sessions that are playing something, in the reply's order; the
/// others are left out.
pub fn active_sessions(sessions: &Vec<SessionFields>) -> (r: Vec<ActiveSession>)
    ensures
        r@.len() == playing_indices(sessions@, sessions@.len() as int).len(),
        forall|j: int|
            0 <= j < r@.len() ==> reports_session(
                #[trigger] r@[j],
                sessions@[playing_indices(sessions@, sessions@.len() as int)[j]],
            ),
{
    let mut r: Vec<ActiveSession> = Vec::new();
    let mut i: usize = 0;
    while i < sessions.len()
        invariant
            i <= sessions@.len(),
            r@.len() == playing_indices(sessions@, i as int).len(),
            forall|j: int|
                0 <= j < r@.len() ==> reports_session(
                    #[trigger] r@[j],
                    sessions@[playing_indices(sessions@, i as int)[j]],
                ),
        decreases sessions@.len() - i,
    {
        let s = &sessions[i];
        match &s.now_playing {
            Some(np) => {
                let a = ActiveSession {
                    user: text_or_default(&s.user, "Unknown"),
                    client: text_or_default(&s.client, empty_text()),
                    device: text_or_default(&s.device, empty_text()),
                    playing: text_or_default(&np.name, empty_text()),
                    kind: text_or_default(&np.kind, empty_text()),
                    position_minutes: runtime_minutes(s.position_ticks),
                    paused: flag(s.paused),
                };
                r.push(a);
            },
            None => {},
        }
        i += 1;
    }
    r
}

} // verus!
