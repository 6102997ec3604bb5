use glorfindel::error::ToolError;
use glorfindel::media::{
    active_sessions, item_detail, library_entries, recent_entries, recent_path, runtime_minutes, search_entries,
    search_path, user_entries, FolderFields, ItemFields, JellyfinClient, MediaItemTool, MediaLibraryTool,
    MediaRecentTool, MediaRefreshTool, MediaScanTool, MediaSearchTool, MediaSessionsTool, MediaUsersTool, NowPlaying,
    SessionFields, UserFields,
};
use glorfindel::schemas::Permission;

fn client() -> JellyfinClient {
    JellyfinClient::new("http://jf:8096", "KEY", "u1")
}

fn item(name: Option<&str>, ticks: Option<i64>) -> ItemFields {
    ItemFields {
        id: Some("i1".to_string()),
        name: name.map(|s| s.to_string()),
        kind: Some("Movie".to_string()),
        overview: None,
        date_created: Some("2024-01-02".to_string()),
        runtime_ticks: ticks,
    }
}

fn custom(p: &[Permission]) -> Vec<String> {
    p.iter()
        .map(|x| match x {
            Permission::Custom(s) => s.clone(),
            _ => "other".to_string(),
        })
        .collect()
}

#[test]
fn auth_header_carries_the_token() {
    assert_eq!(
        client().auth_header(),
        "MediaBrowser Client=\"Glorfindel\", Device=\"glorfindel-agent\", DeviceId=\"glorfindel\", Version=\"0.1\", Token=\"KEY\""
    );
    assert_eq!(client().url("/Users"), "http://jf:8096/Users");
}

#[test]
fn search_request_encodes_the_term_and_defaults_the_limit() {
    let t = MediaSearchTool::new(client());
    assert_eq!(
        t.request_path(Some("the thing"), None, None).unwrap(),
        "/Users/u1/Items?SearchTerm=the%20thing&Limit=10&Recursive=true&Fields=Overview,ProductionYear,RunTimeTicks&SortBy=SortName&SortOrder=Ascending"
    );
    assert_eq!(
        t.request_path(Some("alien"), Some(3), Some("Movie")).unwrap(),
        "/Users/u1/Items?SearchTerm=alien&Limit=3&Recursive=true&Fields=Overview,ProductionYear,RunTimeTicks&SortBy=SortName&SortOrder=Ascending&IncludeItemTypes=Movie"
    );
    assert_eq!(t.request_path(None, None, None), Err(ToolError::MissingParameter("query".to_string())));
    assert_eq!(search_path("u", "x", 5, ""), "/Users/u/Items?SearchTerm=x&Limit=5&Recursive=true&Fields=Overview,ProductionYear,RunTimeTicks&SortBy=SortName&SortOrder=Ascending");
}

#[test]
fn recent_item_and_refresh_requests() {
    assert_eq!(
        MediaRecentTool::new(client()).request_path(None, Some("Series")),
        "/Users/u1/Items/Latest?Limit=10&Fields=Overview,ProductionYear,DateCreated&IncludeItemTypes=Series"
    );
    assert_eq!(recent_path("u", 2, ""), "/Users/u/Items/Latest?Limit=2&Fields=Overview,ProductionYear,DateCreated");
    assert_eq!(
        MediaItemTool::new(client()).request_path(Some("abc")).unwrap(),
        "/Users/u1/Items/abc?Fields=Genres,Studios,People,MediaSources,Overview,CriticRating,CommunityRating"
    );
    assert_eq!(
        MediaItemTool::new(client()).request_path(None),
        Err(ToolError::MissingParameter("item_id".to_string()))
    );
    let r = MediaRefreshTool::new(client());
    assert_eq!(r.request_path(Some("abc")).unwrap(), "/Items/abc/Refresh?ReplaceAllMetadata=false");
    assert_eq!(r.request_path(None), Err(ToolError::MissingParameter("item_id".to_string())));
    assert_eq!(r.started_status(), "refresh started");
    let s = MediaScanTool::new(client());
    assert_eq!(s.request_path(), "/Library/Refresh");
    assert_eq!(s.started_status(), "scan started");
    assert_eq!(MediaSessionsTool::new(client()).request_path(), "/Sessions?ActiveWithinSeconds=300");
    assert_eq!(MediaUsersTool::new(client()).request_path(), "/Users");
    let l = MediaLibraryTool::new(client());
    assert_eq!(l.folders_path(), "/Library/VirtualFolders");
    assert_eq!(l.counts_path(), "/Items/Counts");
}

#[test]
fn media_tool_names_and_permissions() {
    assert_eq!(MediaSearchTool::new(client()).name(), "media.search");
    assert_eq!(custom(&MediaSearchTool::new(client()).required_permissions()), vec!["media.read"]);
    assert_eq!(custom(&MediaScanTool::new(client()).required_permissions()), vec!["media.write"]);
    assert_eq!(custom(&MediaRefreshTool::new(client()).required_permissions()), vec!["media.write"]);
    assert_eq!(custom(&MediaUsersTool::new(client()).required_permissions()), vec!["media.read"]);
    assert!(MediaLibraryTool::new(client()).description().starts_with("Get an overview of the media library"));
    assert_eq!(MediaItemTool::new(client()).name(), "media.item");
}

#[test]
fn runtime_is_whole_minutes_truncated() {
    assert_eq!(runtime_minutes(Some(6_000_000_000)), Some(10));
    assert_eq!(runtime_minutes(Some(6_599_999_999)), Some(10));
    assert_eq!(runtime_minutes(Some(-700_000_000)), Some(-1));
    assert_eq!(runtime_minutes(Some(-1)), Some(0));
    assert_eq!(runtime_minutes(None), None);
}

#[test]
fn search_and_recent_entries_default_missing_texts() {
    let items = vec![item(Some("Alien"), Some(70_200_000_000)), item(None, None)];
    let s = search_entries(&items);
    assert_eq!(s.len(), 2);
    assert_eq!(s[0].name, "Alien");
    assert_eq!(s[0].runtime_minutes, Some(117));
    assert_eq!(s[0].overview, "");
    assert_eq!(s[1].name, "");
    assert_eq!(s[1].runtime_minutes, None);
    let r = recent_entries(&items);
    assert_eq!(r[0].added, "2024-01-02");
    assert_eq!(r[1].kind, "Movie");
}

#[test]
fn sessions_without_playback_are_left_out() {
    let sessions = vec![
        SessionFields { user: Some("ann".into()), client: None, device: None, now_playing: None, position_ticks: None, paused: None },
        SessionFields {
            user: None,
            client: Some("web".into()),
            device: Some("tv".into()),
            now_playing: Some(NowPlaying { name: Some("Alien".into()), kind: None }),
            position_ticks: Some(1_200_000_000),
            paused: Some(true),
        },
    ];
    let a = active_sessions(&sessions);
    assert_eq!(a.len(), 1);
    assert_eq!(a[0].user, "Unknown");
    assert_eq!(a[0].client, "web");
    assert_eq!(a[0].playing, "Alien");
    assert_eq!(a[0].kind, "");
    assert_eq!(a[0].position_minutes, Some(2));
    assert!(a[0].paused);
}

#[test]
fn library_users_and_item_detail() {
    let folders = vec![
        FolderFields { name: Some("Films".into()), collection_type: Some("movies".into()) },
        FolderFields { name: None, collection_type: None },
    ];
    let l = library_entries(&folders);
    assert_eq!(l[0].kind, "movies");
    assert_eq!(l[1].kind, "mixed");
    assert_eq!(l[1].name, "");

    let users = vec![UserFields {
        id: Some("1".into()),
        name: Some("ann".into()),
        last_login: None,
        last_activity: None,
        is_admin: Some(true),
        is_disabled: None,
    }];
    let u = user_entries(&users);
    assert!(u[0].is_admin);
    assert!(!u[0].is_disabled);
    assert_eq!(u[0].last_login, "");

    let studios = Some(vec![Some("A24".to_string()), None, Some("Fox".to_string())]);
    let d = item_detail(&item(Some("Alien"), Some(600_000_000)), &studios, &vec![Some("/m/alien.mkv".to_string())]);
    assert_eq!(d.studios, Some(vec!["A24".to_string(), "Fox".to_string()]));
    assert_eq!(d.path, "/m/alien.mkv");
    assert_eq!(d.runtime_minutes, Some(1));
    let none = item_detail(&item(None, None), &None, &vec![]);
    assert_eq!(none.studios, None);
    assert_eq!(none.path, "");
}
