use livedown::{
    asset_path, change_notification, is_markdown_extension, is_markdown_path, server_url, title_of,
    AppState, ChangeKind, LivedownServer, PushEvent,
};

fn html_of(e: &PushEvent) -> String {
    match e {
        PushEvent::Content { html } => html.clone(),
        _ => panic!("not a content event"),
    }
}

#[test]
fn test_server_creation() {
    let server = LivedownServer::new(8080).unwrap();
    assert_eq!(server.port, 8080);
}

#[test]
fn change_broadcasts_new_content_once() {
    let mut state = AppState::new();
    state.set_current_file("/tmp/doc.md".to_string());
    state.register(1);
    let first = state.snapshot(1, Some("# A".to_string())).unwrap();
    assert!(html_of(&first.event).contains("A</h1>"));

    let paths = vec!["/tmp/doc.md".to_string(), "/tmp/other.md".to_string()];
    let changed = change_notification(ChangeKind::Modify, &paths).unwrap();
    assert_eq!(changed, "/tmp/doc.md");
    let deliveries = state.on_change(&changed, Some("# B".to_string()));
    assert_eq!(deliveries.len(), 1);
    assert_eq!(deliveries[0].viewer, 1);
    assert_eq!(deliveries[0].event.name(), "content");
    let html = html_of(&deliveries[0].event);
    assert!(html.contains("<h1"));
    assert!(html.contains(">B</h1>"));
    assert!(!html.contains('A'));
}

#[test]
fn sequential_viewers_get_the_same_snapshot() {
    let mut state = AppState::new();
    state.set_current_file("/notes/readme.md".to_string());
    let t1 = state.register(7).unwrap();
    let s1 = state.snapshot(7, Some("# Doc\n\ntext".to_string())).unwrap();
    let t2 = state.register(8).unwrap();
    let s2 = state.snapshot(8, Some("# Doc\n\ntext".to_string())).unwrap();
    assert_eq!((t1.viewer, s1.viewer, t2.viewer, s2.viewer), (7, 7, 8, 8));
    assert!(matches!(t1.event, PushEvent::Title { ref title } if title == "readme.md"));
    assert_eq!(t2.event.name(), "title");
    assert_eq!(html_of(&s1.event), html_of(&s2.event));
    assert!(html_of(&s1.event).contains("<h1"));
}

#[test]
fn shutdown_kills_every_viewer() {
    let mut state = AppState::new();
    state.register(1);
    state.register(2);
    let kills = state.kill_all();
    assert_eq!(kills.len(), 2);
    assert_eq!((kills[0].viewer, kills[1].viewer), (1, 2));
    assert!(kills.iter().all(|d| matches!(d.event, PushEvent::Kill)));
    assert_eq!(kills[0].event.name(), "kill");
}

#[test]
fn disconnected_viewer_gets_nothing() {
    let mut state = AppState::new();
    state.set_current_file("/d/x.md".to_string());
    state.register(1);
    state.register(2);
    state.register(2);
    assert_eq!(state.viewer_list(), vec![1, 2]);
    state.unregister(1);
    state.unregister(9);
    assert!(!state.is_registered(1));
    let out = state.on_change("/d/x.md", Some("hi".to_string()));
    assert_eq!(out.len(), 1);
    assert_eq!(out[0].viewer, 2);
    assert_eq!(state.kill_all().len(), 1);
}

#[test]
fn unrelated_change_or_failed_read_sends_nothing() {
    let mut state = AppState::new();
    state.register(1);
    assert!(state.on_change("/d/x.md", Some("hi".to_string())).is_empty());
    state.set_current_file("/d/x.md".to_string());
    assert!(state.should_reload("/d/x.md"));
    assert!(!state.should_reload("/d/y.md"));
    assert!(state.on_change("/d/y.md", Some("hi".to_string())).is_empty());
    assert!(state.on_change("/d/x.md", None).is_empty());
    assert!(state.snapshot(1, None).is_none());
    assert_eq!(state.current_file(), Some("/d/x.md".to_string()));
}

#[test]
fn register_without_document_sends_no_title() {
    let mut state = AppState::new();
    assert!(state.register(3).is_none());
    assert!(state.is_registered(3));
}

#[test]
fn titles_from_paths() {
    assert_eq!(title_of("/home/u/notes/todo.md"), "todo.md");
    assert_eq!(title_of("/"), "Untitled");
    assert_eq!(title_of("a/.."), "Untitled");
}

#[test]
fn urls_and_asset_paths() {
    assert_eq!(server_url(1337), "http://localhost:1337");
    assert_eq!(server_url(0), "http://localhost:0");
    assert_eq!(asset_path("//assets/app.js"), "assets/app.js");
    assert_eq!(asset_path("/"), "");
    assert_eq!(asset_path("favicon.ico"), "favicon.ico");
}

#[test]
fn coalescing_keeps_first_markdown_path() {
    let paths = vec!["/a/x.txt".to_string(), "/a/one.markdown".to_string(), "/a/two.md".to_string()];
    assert_eq!(change_notification(ChangeKind::Create, &paths), Some("/a/one.markdown".to_string()));
    assert_eq!(change_notification(ChangeKind::Remove, &paths), Some("/a/one.markdown".to_string()));
    assert_eq!(change_notification(ChangeKind::Other, &paths), None);
    let none = vec!["/a/x.MD".to_string(), "/a/.md".to_string(), "/a/md".to_string()];
    assert_eq!(change_notification(ChangeKind::Modify, &none), None);
    assert_eq!(change_notification(ChangeKind::Modify, &Vec::new()), None);
}

#[test]
fn markdown_extensions() {
    assert!(is_markdown_extension("md"));
    assert!(is_markdown_extension("markdown"));
    assert!(!is_markdown_extension("MD"));
    assert!(is_markdown_path("/x/y.z.md"));
    assert!(!is_markdown_path("/x/y.md.txt"));
    assert!(!is_markdown_path("/x/.markdown"));
}
