use assoc_guard::captures::get_latest_capture;
use assoc_guard::captures::list_capture_names;
use assoc_guard::captures::upsert_latest_capture;
use assoc_guard::captures::CaptureStore;
use assoc_guard::captures::LatestCapture;
use assoc_guard::rules::list_rules;
use assoc_guard::rules::remove_rule;
use assoc_guard::rules::upsert_rule;
use assoc_guard::rules::RuleStore;

#[test]
fn store_roundtrip_upsert_get_list() {
    let mut store = CaptureStore::new();

    let cap1 = LatestCapture {
        prog_id: "VLC.mp4".to_string(),
        hash: "abc=".to_string(),
        last_write_time_filetime: Some(123),
        prog_id_last_write_time_filetime: None,
    };
    upsert_latest_capture(&mut store, ".mp4", "vlc", cap1.clone());

    let cap2 = LatestCapture {
        prog_id: "PotPlayerMini64.mp4".to_string(),
        hash: "def=".to_string(),
        last_write_time_filetime: None,
        prog_id_last_write_time_filetime: Some(456),
    };
    upsert_latest_capture(&mut store, ".mp4", "potplayer", cap2.clone());

    assert_eq!(get_latest_capture(&store, ".mp4", "vlc"), Some(cap1));
    assert_eq!(get_latest_capture(&store, ".mp4", "potplayer"), Some(cap2));

    let names = list_capture_names(&store, ".mp4");
    assert_eq!(names, vec!["potplayer".to_string(), "vlc".to_string()]);
}

#[test]
fn capture_upsert_replaces_existing() {
    let mut store = CaptureStore::new();
    let cap1 = LatestCapture {
        prog_id: "VLC.mp4".to_string(),
        hash: "abc=".to_string(),
        last_write_time_filetime: None,
        prog_id_last_write_time_filetime: None,
    };
    let cap2 = LatestCapture {
        prog_id: "VLC.mp4".to_string(),
        hash: "xyz=".to_string(),
        last_write_time_filetime: Some(9),
        prog_id_last_write_time_filetime: None,
    };
    upsert_latest_capture(&mut store, ".mp4", "vlc", cap1);
    upsert_latest_capture(&mut store, ".mp4", "vlc", cap2.clone());
    assert_eq!(get_latest_capture(&store, ".mp4", "vlc"), Some(cap2));
    assert_eq!(list_capture_names(&store, ".mp4"), vec!["vlc".to_string()]);
}

#[test]
fn capture_lookup_misses_are_none() {
    let mut store = CaptureStore::new();
    assert_eq!(get_latest_capture(&store, ".mp4", "vlc"), None);
    let cap = LatestCapture {
        prog_id: "VLC.mp4".to_string(),
        hash: "abc=".to_string(),
        last_write_time_filetime: None,
        prog_id_last_write_time_filetime: None,
    };
    upsert_latest_capture(&mut store, ".mp4", "vlc", cap);
    assert_eq!(get_latest_capture(&store, ".mkv", "vlc"), None);
    assert_eq!(get_latest_capture(&store, ".mp4", "potplayer"), None);
    assert_eq!(list_capture_names(&store, ".mkv"), Vec::<String>::new());
}

#[test]
fn rules_roundtrip_upsert_remove_list() {
    let mut store = RuleStore::new();

    upsert_rule(&mut store, ".mp4", "vlc");
    upsert_rule(&mut store, ".mkv", "potplayer");

    let items = list_rules(&store);
    assert_eq!(
        items,
        vec![
            (".mkv".to_string(), "potplayer".to_string()),
            (".mp4".to_string(), "vlc".to_string())
        ]
    );

    assert_eq!(remove_rule(&mut store, ".mp4"), true);
    assert_eq!(remove_rule(&mut store, ".mp4"), false);
    assert_eq!(list_rules(&store), vec![(".mkv".to_string(), "potplayer".to_string())]);
}

#[test]
fn rule_upsert_replaces_label() {
    let mut store = RuleStore::new();
    upsert_rule(&mut store, ".mp4", "vlc");
    upsert_rule(&mut store, ".mp4", "potplayer");
    assert_eq!(list_rules(&store), vec![(".mp4".to_string(), "potplayer".to_string())]);
}
