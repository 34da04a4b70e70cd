//! String storage and server events.

use turbo_capture::events::{
    handle_events, kpm_message, revision_timestamp, send_strings_snapshot, stream_info,
    strings_message, EventsAction, EventsInput, StreamInfoBody,
};
use turbo_capture::names::NameMap;
use turbo_capture::patterns::PresetConfig;
use turbo_capture::presets::{default_config, SelectorConfig};
use turbo_capture::service::SocketInput;
use turbo_capture::strings::{
    is_multiline, is_valid_key, markdown_file, markdown_key, parse_table, table_text, DiskImage,
    StringReply, StringStore, StringStoreError,
};

/// Capture metadata of an active stream.
fn active_body() -> StreamInfoBody {
    StreamInfoBody {
        active: true,
        hwnd: "0x1234".to_owned(),
        title: "Editor".to_owned(),
        file_description: "Code".to_owned(),
        profile: Some("code".to_owned()),
        capture_mode: "main".to_owned(),
    }
}

#[test]
fn stored_strings_are_reloaded() {
    let mut disk = DiskImage::new();
    let mut store = StringStore::new(&disk);
    store.set(&mut disk, "title", "Live").unwrap();
    store.set(&mut disk, "notes", "one\ntwo").unwrap();
    assert_eq!(disk.json.get("title").unwrap(), "Live");
    assert_eq!(disk.files.get("notes").unwrap(), "one\ntwo");

    let other = StringStore::new(&disk);
    assert_eq!(other.get_one("title").as_deref(), Some("Live"));
    assert_eq!(other.get_one("notes").as_deref(), Some("one\ntwo"));

    store.set(&mut disk, "notes", "flat").unwrap();
    assert!(!disk.files.contains("notes"));
    assert_eq!(disk.json.get("notes").unwrap(), "flat");
    store.delete(&mut disk, "title").unwrap();
    assert_eq!(StringStore::new(&disk).get_one("title"), None);
}

#[test]
fn files_win_over_the_document() {
    let mut disk = DiskImage::new();
    disk.json.insert("a".to_owned(), "json".to_owned());
    disk.files.insert("a".to_owned(), "file".to_owned());
    disk.files.insert("bad key".to_owned(), "ignored".to_owned());
    let store = StringStore::new(&disk);
    assert_eq!(store.get_one("a").as_deref(), Some("file"));
    assert_eq!(store.get_one("bad key"), None);
}

#[test]
fn computed_strings_win_and_stay_in_memory() {
    let mut disk = DiskImage::new();
    let mut store = StringStore::new(&disk);
    let before = store.version();
    store.set_computed("$captureMode", "main".to_owned());
    assert_eq!(store.version(), before + 1);
    assert_eq!(store.get_one("$captureMode").as_deref(), Some("main"));
    assert_eq!(
        store.set(&mut disk, "$captureMode", "other"),
        Err(StringStoreError::ComputedReadonly)
    );
    store.reload(&disk);
    assert_eq!(store.get_all().get("$captureMode").unwrap(), "main");
    store.clear_computed("$captureMode");
    assert_eq!(store.get_one("$captureMode"), None);
}

#[test]
fn keys_are_checked() {
    assert!(is_valid_key("stream-title_2"));
    assert!(!is_valid_key(""));
    assert!(!is_valid_key("../x"));
    assert!(is_multiline("a\nb"));
    assert!(!is_multiline("ab"));

    let mut disk = DiskImage::new();
    let mut store = StringStore::new(&disk);
    assert_eq!(store.set(&mut disk, "a b", "x"), Err(StringStoreError::InvalidKey));
    assert_eq!(store.delete(&mut disk, "a b"), Err(StringStoreError::InvalidKey));
    assert_ne!(StringReply::of(Err(StringStoreError::InvalidKey)).error, None);
    assert_eq!(StringReply::of(Ok(())).error, None);
}

#[test]
fn computed_routes_need_the_computed_prefix() {
    let mut store = StringStore::new(&DiskImage::new());
    let refused = store.put_computed("title", "x".to_owned());
    assert_ne!(refused.error, None);
    let accepted = store.put_computed("$title", "x".to_owned());
    assert_eq!(accepted.error, None);
    assert_eq!(store.get_one("$title").as_deref(), Some("x"));
    assert_eq!(store.delete_computed("$title").error, None);
    assert_eq!(store.get_one("$title"), None);
}

#[test]
fn stream_metadata_becomes_computed_strings() {
    let mut store = StringStore::new(&DiskImage::new());
    stream_info(&mut store, active_body());
    assert_eq!(store.get_one("$captureMode").as_deref(), Some("main"));
    assert_eq!(store.get_one("$captureInfo").as_deref(), Some("Code"));
    assert_eq!(store.get_one("$liveProfile").as_deref(), Some("code"));

    stream_info(
        &mut store,
        StreamInfoBody { file_description: String::new(), profile: None, ..active_body() },
    );
    assert_eq!(store.get_one("$captureInfo").as_deref(), Some("Editor"));
    assert_eq!(store.get_one("$liveProfile"), None);
}

#[test]
fn inactive_metadata_clears_the_target() {
    let mut store = StringStore::new(&DiskImage::new());
    stream_info(&mut store, active_body());
    stream_info(&mut store, StreamInfoBody { active: false, ..active_body() });
    assert_eq!(store.get_one("$captureMode").as_deref(), Some("main"));
    assert_eq!(store.get_one("$captureInfo"), None);
    assert_eq!(store.get_one("$liveProfile"), None);
}

#[test]
fn keystroke_rates_are_tagged() {
    assert_eq!(kpm_message(Some(120)), "{\"type\":\"kpm\",\"kpm\":120}");
    assert_eq!(kpm_message(Some(i64::MIN)), "{\"type\":\"kpm\",\"kpm\":-9223372036854775808}");
    assert_eq!(kpm_message(None), "{\"type\":\"kpm\",\"kpm\":null}");
}

#[test]
fn revisions_are_trimmed() {
    assert_eq!(revision_timestamp(b"2026-01-02 03:04\n").as_deref(), Some("2026-01-02 03:04"));
    assert_eq!(revision_timestamp(b" \n"), None);
    assert_eq!(revision_timestamp(&[b'a', 0xFF]).as_deref(), Some("a\u{FFFD}"));
}

#[test]
fn presets_are_chosen_by_name() {
    let mut selector = SelectorConfig::load(None);
    assert_eq!(selector.config, default_config());
    assert_eq!(selector.config.preset, "main");
    assert_eq!(selector.config.active_patterns().unwrap().len(), 9);
    assert_eq!(selector.set_preset(b" \n", None), Err("preset name required".to_owned()));
    assert_eq!(
        selector.set_preset(b"night", None),
        Err("preset \"night\" not found".to_owned())
    );

    let mut presets = NameMap::new();
    presets.insert("night".to_owned(), vec!["Code.exe".to_owned()]);
    let stored = PresetConfig { preset: "day".to_owned(), presets };
    assert_eq!(selector.set_preset(b"night\n", Some(stored)), Ok(()));
    assert_eq!(selector.config.preset, "night");
    assert_eq!(selector.config.active_patterns().unwrap(), &["Code.exe".to_owned()]);
}

#[test]
fn events_viewers_are_multiplexed() {
    assert_eq!(
        handle_events(EventsInput::Kpm { closed: false, value: Some(3) }),
        EventsAction::SendText("{\"type\":\"kpm\",\"kpm\":3}".to_owned())
    );
    assert_eq!(handle_events(EventsInput::Kpm { closed: true, value: None }), EventsAction::Stop);
    assert_eq!(handle_events(EventsInput::Strings { closed: false }), EventsAction::SendStrings);
    assert_eq!(handle_events(EventsInput::Strings { closed: true }), EventsAction::Stop);
    assert_eq!(handle_events(EventsInput::Socket(SocketInput::Other)), EventsAction::Wait);
    assert_eq!(handle_events(EventsInput::Socket(SocketInput::Ended)), EventsAction::Stop);
}

#[test]
fn tables_are_written_as_json_and_read_back() {
    let mut table = NameMap::new();
    table.insert("b".to_owned(), "two \"quoted\" \\ words".to_owned());
    table.insert("a".to_owned(), "line\nnext\u{1}\u{e9}".to_owned());
    let text = table_text(&table);
    assert_eq!(
        text,
        "{\"a\":\"line\\nnext\\u0001\u{e9}\",\"b\":\"two \\\"quoted\\\" \\\\ words\"}"
    );
    assert_eq!(parse_table(&text), Some(table));
    assert_eq!(table_text(&NameMap::new()), "{}");
}

#[test]
fn only_objects_of_strings_are_tables() {
    let table = parse_table("{ \"z\": \"1\", \"a\": \"first\", \"a\": \"last\" }").unwrap();
    assert_eq!(table.len(), 2);
    assert_eq!(table.name_at(0), "a");
    assert_eq!(table.get("a"), Some(&"last".to_owned()));
    assert_eq!(table.get("z"), Some(&"1".to_owned()));
    assert_eq!(parse_table("{\"a\": 1}"), None);
    assert_eq!(parse_table("[]"), None);
    assert_eq!(parse_table("{\"a\": \"b\"} trailing"), None);
}

#[test]
fn corrupt_documents_fail_a_load_and_are_replaced_by_a_change() {
    assert_eq!(DiskImage::read(Some("not json"), NameMap::new()), None);
    assert_eq!(DiskImage::read(None, NameMap::new()), Some(DiskImage::new()));
    let mut disk = DiskImage::read_for_change(Some("not json"), NameMap::new());
    assert_eq!(disk, DiskImage::new());
    let mut store = StringStore::new(&disk);
    store.set(&mut disk, "greeting", "hello").unwrap();
    let text = table_text(&disk.json);
    assert_eq!(text, "{\"greeting\":\"hello\"}");
    let reread = DiskImage::read(Some(&text), NameMap::new()).unwrap();
    assert_eq!(StringStore::new(&reread).get_one("greeting"), Some("hello".to_owned()));
}

#[test]
fn markdown_files_are_named_after_their_keys() {
    assert_eq!(markdown_file("notes"), "notes.md");
    assert_eq!(markdown_key("notes.md"), Some("notes".to_owned()));
    assert_eq!(markdown_key("notes.txt"), None);
    assert_eq!(markdown_key(".md"), None);
    assert_eq!(markdown_key("md"), None);
    assert_eq!(markdown_key("no tes.md"), None);
}

#[test]
fn snapshots_are_tagged() {
    let mut disk = DiskImage::new();
    let mut store = StringStore::new(&disk);
    store.set(&mut disk, "a", "1").unwrap();
    store.set_computed("$b", "2".to_owned());
    assert_eq!(store.snapshot_text(), "{\"$b\":\"2\",\"a\":\"1\"}");
    assert_eq!(
        send_strings_snapshot(&store),
        "{\"type\":\"strings\",\"data\":{\"$b\":\"2\",\"a\":\"1\"}}"
    );
    assert_eq!(strings_message("{}"), "{\"type\":\"strings\",\"data\":{}}");
}
