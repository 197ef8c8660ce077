use easywind::server::broadcast::Broadcaster;
use easywind::server::reload::{
    extension_of_exec, handle_reload, should_reload, Debouncer, WatchEvent, WatchKind,
};

fn event(path: &str, is_dir: bool) -> WatchEvent {
    WatchEvent { path: path.to_string(), is_dir, kind: WatchKind::Modify }
}

#[test]
fn extension_extraction() {
    assert_eq!(extension_of_exec("a/b/style.css").as_deref(), Some("css"));
    assert_eq!(extension_of_exec("archive.tar.gz").as_deref(), Some("gz"));
    assert_eq!(extension_of_exec("README"), None);
    assert_eq!(extension_of_exec("dir/.bashrc"), None);
    assert_eq!(extension_of_exec(""), None);
}

#[test]
fn extension_filtering() {
    // An unwatched extension never triggers a reload; a watched one does.
    assert!(!should_reload("site/file.png", false));
    assert!(should_reload("site/file.css", false));
    assert!(should_reload("index.html", false));
    assert!(should_reload("src/app.ts", false));
    // Directories and extensionless paths never trigger.
    assert!(!should_reload("site/sub", true));
    assert!(!should_reload("site/README", false));
}

#[test]
fn handle_reload_keeps_only_qualifying_events() {
    let kept = handle_reload(vec![
        event("a.png", false),
        event("b.css", false),
        event("sub", true),
        event("c.html", false),
    ]);
    let paths: Vec<String> = kept.iter().map(|e| e.path.clone()).collect();
    assert_eq!(paths, vec!["b.css".to_string(), "c.html".to_string()]);
}

#[test]
fn debounce_coalesces_bursts() {
    let mut d = Debouncer::new(80);
    // Three writes to the same file within the quiet window.
    d.on_event(0, event("style.css", false));
    d.on_event(30, event("style.css", false));
    d.on_event(60, event("style.css", false));
    // No flush while the window is open.
    assert!(d.poll(100).is_none());
    assert!(d.poll(139).is_none());
    // One flush with all three events once it expires.
    let flushed = d.poll(140).unwrap();
    assert_eq!(flushed.len(), 3);
    // A later event starts a second, separate flush.
    d.on_event(300, event("style.css", false));
    assert!(d.poll(379).is_none());
    let second = d.poll(380).unwrap();
    assert_eq!(second.len(), 1);
    assert!(d.poll(500).is_none());
}

#[test]
fn one_reload_signal_per_open_channel() {
    let mut b = Broadcaster::new();
    let first = b.subscribe();
    let second = b.subscribe();
    assert_eq!((first, second), (0, 1));
    // One flush signals each connected tab exactly once.
    assert_eq!(b.reload(), vec![0, 1]);
    // A disconnected tab is skipped, and pruning removes it.
    b.disconnect(first);
    assert_eq!(b.reload(), vec![1]);
    b.prune();
    assert_eq!(b.channels.len(), 1);
    let third = b.subscribe();
    assert_eq!(third, 2);
    assert_eq!(b.reload(), vec![1, 2]);
}

#[test]
fn reload_after_css_change_end_to_end() {
    // The in-memory path of one saved stylesheet: watcher events debounce
    // into one flush, the filter keeps the stylesheet, the broadcaster
    // signals the one connected tab exactly once.
    let mut b = Broadcaster::new();
    let tab = b.subscribe();
    let mut d = Debouncer::new(80);
    d.on_event(1000, event("proj/styles.css", false));
    d.on_event(1010, event("proj/styles.css", false));
    assert!(d.poll(1080).is_none());
    let flushed = d.poll(1090).unwrap();
    let qualifying = handle_reload(flushed);
    assert_eq!(qualifying.len(), 2);
    // Reload is idempotent browser-side; one signal per flush suffices.
    let signalled = b.reload();
    assert_eq!(signalled, vec![tab]);
}

#[test]
fn poll_without_events_never_flushes() {
    let mut d = Debouncer::new(80);
    assert!(d.poll(0).is_none());
    assert!(d.poll(1_000_000).is_none());
}

#[test]
fn empty_flush_filters_to_nothing() {
    assert!(handle_reload(vec![]).is_empty());
}
