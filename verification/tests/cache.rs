use quarkdrive_webdav::cache::{Cache, Trigger, SIGHUP};
use quarkdrive_webdav::drive::model::QuarkFile;
use std::time::{Duration, Instant};

fn file(fid: &str, name: &str) -> QuarkFile {
    QuarkFile {
        fid: fid.to_string(),
        file_name: name.to_string(),
        pdir_fid: "0".to_string(),
        size: 7,
        format_type: "text/plain".to_string(),
        status: 1,
        created_at: 1,
        updated_at: 2,
        dir: false,
        file: true,
        download_url: Some("https://example.com/f".to_string()),
    }
}

fn filled() -> Cache {
    let mut cache = Cache::new(1000, 600);
    cache.insert("/docs", vec![file("a", "reports")]);
    cache.insert("/docs/reports", vec![file("b", "q1.csv"), file("c", "other")]);
    cache.insert("/docs/reports/other", vec![file("d", "old.csv")]);
    cache
}

#[test]
fn get_gives_what_was_inserted() {
    let cache = filled();
    let list = cache.get("/docs/reports").unwrap();
    assert_eq!(list.len(), 2);
    assert_eq!(list[0].fid, "b");
    assert_eq!(list[0].file_name, "q1.csv");
    assert_eq!(list[0].size, 7);
    assert_eq!(list[0].download_url.as_deref(), Some("https://example.com/f"));
    assert_eq!(list[1].fid, "c");
    assert!(cache.get("/photos").is_none());
}

#[test]
fn paths_are_stored_under_their_canonical_spelling() {
    let mut cache = Cache::new(1000, 600);
    cache.insert("/docs//reports/", vec![file("b", "q1.csv")]);
    assert_eq!(cache.get("/docs/reports").unwrap()[0].fid, "b");
    assert_eq!(cache.get("docs/reports").unwrap()[0].fid, "b");
    cache.invalidate("/docs/reports/");
    assert!(cache.get("/docs/reports").is_none());
}

#[test]
fn insert_replaces_the_listing() {
    let mut cache = filled();
    cache.insert("/docs", vec![file("x", "new"), file("y", "newer")]);
    let list = cache.get("/docs").unwrap();
    assert_eq!(list.len(), 2);
    assert_eq!(list[1].fid, "y");
}

#[test]
fn invalidate_removes_one_listing() {
    let mut cache = filled();
    cache.invalidate("/docs/reports");
    assert!(cache.get("/docs/reports").is_none());
    assert!(cache.get("/docs").is_some());
    assert!(cache.get("/docs/reports/other").is_some());
}

#[test]
fn invalidate_parent_removes_the_parent_only() {
    let mut cache = filled();
    cache.invalidate_parent("/docs/reports/q1.csv");
    assert!(cache.get("/docs/reports").is_none());
    assert!(cache.get("/docs").is_some());
    assert!(cache.get("/docs/reports/other").is_some());
}

#[test]
fn invalidate_parent_of_the_root_does_nothing() {
    let mut cache = filled();
    cache.insert("/", vec![file("r", "docs")]);
    cache.invalidate_parent("/");
    assert!(cache.get("/").is_some());
    assert!(cache.get("/docs").is_some());
    assert!(cache.get("/docs/reports").is_some());
    assert!(cache.get("/docs/reports/other").is_some());
}

#[test]
fn invalidate_parent_of_a_top_level_path_removes_the_root() {
    let mut cache = filled();
    cache.insert("/", vec![file("r", "docs")]);
    cache.invalidate_parent("/docs");
    assert!(cache.get("/").is_none());
    assert!(cache.get("/docs").is_some());
}

#[test]
fn invalidate_all_removes_every_listing() {
    let mut cache = filled();
    cache.invalidate_all();
    assert!(cache.get("/docs").is_none());
    assert!(cache.get("/docs/reports").is_none());
    assert!(cache.get("/docs/reports/other").is_none());
}

#[test]
fn a_listing_stored_after_invalidate_all_is_there() {
    let mut cache = filled();
    cache.invalidate_all();
    cache.insert("/docs", vec![file("n", "new")]);
    assert_eq!(cache.get("/docs").unwrap()[0].fid, "n");
    assert!(cache.get("/docs/reports").is_none());
}

#[test]
fn invalidate_all_keeps_the_time_limit() {
    let mut cache = Cache::new(1000, 1);
    cache.invalidate_all();
    let stored = Instant::now();
    cache.insert("/docs", vec![file("a", "reports")]);
    while stored.elapsed() < Duration::from_millis(1300) {
        std::hint::spin_loop();
    }
    assert!(cache.get("/docs").is_none());
}

#[test]
fn invalidate_all_keeps_the_capacity() {
    let mut cache = Cache::new(0, 600);
    cache.invalidate_all();
    cache.insert("/docs", vec![file("a", "reports")]);
    assert!(cache.get("/docs").is_none());
}

#[test]
fn a_listing_is_gone_once_its_time_is_up() {
    let mut cache = Cache::new(1000, 1);
    cache.insert("/docs", vec![file("a", "reports")]);
    assert!(cache.get("/docs").is_some());
    let stored = Instant::now();
    cache.insert("/docs/reports", vec![file("b", "q1.csv")]);
    while stored.elapsed() < Duration::from_millis(1300) {
        std::hint::spin_loop();
    }
    assert!(cache.get("/docs/reports").is_none());
}

#[test]
fn a_cache_without_room_keeps_nothing() {
    let mut cache = Cache::new(0, 600);
    cache.insert("/docs", vec![file("a", "reports")]);
    assert!(cache.get("/docs").is_none());
}

#[test]
fn the_timer_the_hangup_and_a_direct_call_drop_everything() {
    for trigger in [Trigger::Timer, Trigger::Signal(SIGHUP), Trigger::Direct] {
        let mut cache = filled();
        assert!(cache.on_trigger(trigger));
        assert!(cache.get("/docs").is_none());
        assert!(cache.get("/docs/reports").is_none());
    }
}

#[test]
fn another_signal_drops_nothing() {
    let mut cache = filled();
    assert!(!cache.on_trigger(Trigger::Signal(15)));
    assert!(cache.get("/docs").is_some());
    assert!(cache.get("/docs/reports").is_some());
}
