use flowbit::api::client::ProjectData;
use flowbit::api::types::{ItemCount, ProjectListEntry};
use flowbit::cache::{CacheStore, CachedSnapshot};
use flowbit::logging::log_dir_from;
use flowbit::model::filter::Filter;
use flowbit::model::project_item::{ItemKind, ProjectItem, StatusColumn, Timestamp};
use flowbit::paths::{PathError, join_path};
use flowbit::startup::{apply_default_filter, open_projects, parse_selection, set_project_number};

fn item(number: u64, label: &str) -> ProjectItem {
    ProjectItem {
        id: format!("i{}", number),
        kind: ItemKind::Issue,
        repo: "acme/w".to_string(),
        number,
        title: format!("Title {}", number),
        url: String::new(),
        status: None,
        assignees: vec![],
        labels: vec![label.to_string()],
        created_at: Timestamp { secs: 1, nanos: 0 },
        updated_at: Timestamp { secs: 2, nanos: 0 },
    }
}

fn entry(number: u32, closed: bool) -> ProjectListEntry {
    ProjectListEntry {
        number,
        title: format!("P{}", number),
        short_description: None,
        closed,
        items: ItemCount { total_count: 3 },
    }
}

#[test]
fn default_filter_keeps_matching_items_in_order() {
    let items = vec![item(1, "bug"), item(2, "ui"), item(3, "Bug")];
    let kept = apply_default_filter(&Filter::parse("label:bug"), items);
    let numbers: Vec<u64> = kept.iter().map(|i| i.number).collect();
    assert_eq!(numbers, vec![1, 3]);
}

#[test]
fn empty_default_filter_keeps_all() {
    let kept = apply_default_filter(&Filter::default(), vec![item(1, "a"), item(2, "b")]);
    assert_eq!(kept.len(), 2);
}

#[test]
fn only_open_projects_are_offered() {
    let open = open_projects(&vec![entry(1, false), entry(2, true), entry(3, false)]);
    let numbers: Vec<u32> = open.iter().map(|p| p.number).collect();
    assert_eq!(numbers, vec![1, 3]);
}

#[test]
fn selection_input() {
    assert_eq!(parse_selection(" 2\n", 3), Some(1));
    assert_eq!(parse_selection("+1", 3), Some(0));
    assert_eq!(parse_selection("0", 3), None);
    assert_eq!(parse_selection("4", 3), None);
    assert_eq!(parse_selection("x", 3), None);
    assert_eq!(parse_selection("", 3), None);
    assert_eq!(parse_selection("99999999999999999999999", 3), None);
}

#[test]
fn project_number_is_inserted_after_owner() {
    let content = "[project]\nowner = \"acme\"\nstatus_field = \"Status\"\n";
    assert_eq!(
        set_project_number(content, 7).as_deref(),
        Some("[project]\nowner = \"acme\"\nnumber = 7\nstatus_field = \"Status\"\n")
    );
}

#[test]
fn project_number_replaces_existing_line() {
    let content = "[project]\r\nowner = \"acme\"\r\n  number = 1\r\n";
    assert_eq!(set_project_number(content, 42).as_deref(), Some("[project]\nowner = \"acme\"\nnumber = 42\n"));
}

#[test]
fn project_number_needs_owner_line() {
    assert_eq!(set_project_number("[project]\n# owner = x\nowner\n", 3), None);
    assert_eq!(set_project_number("", 3), None);
}

#[test]
fn snapshot_round_trip_through_project_data() {
    let data = ProjectData {
        project_id: "PVT".to_string(),
        project_title: "Board".to_string(),
        status_columns: vec![StatusColumn { id: "o1".to_string(), name: "Todo".to_string() }],
        items: vec![item(1, "x")],
    };
    let snap = CachedSnapshot::of_data(&data, Timestamp { secs: 9, nanos: 1 });
    assert_eq!(snap.fetched_at, Timestamp { secs: 9, nanos: 1 });
    assert_eq!(snap.project_title, "Board");
    let back = ProjectData::from_snapshot(snap);
    assert_eq!(back.project_id, "");
    assert_eq!(back.project_title, "Board");
    assert_eq!(back.status_columns[0].name, "Todo");
    assert_eq!(back.items[0].number, 1);
}

#[test]
fn cache_and_log_locations() {
    assert_eq!(CacheStore::in_dir(b"/home/u/.cache").path(), b"/home/u/.cache/flowbit/cache.json".to_vec());
    assert_eq!(log_dir_from(Some("/state".to_string()), None), Ok(b"/state/flowbit".to_vec()));
    assert_eq!(
        log_dir_from(None, Some(b"/home/u".to_vec())),
        Ok(b"/home/u/.local/state/flowbit".to_vec())
    );
    assert_eq!(log_dir_from(None, None), Err(PathError::NoHomeDirectory));
}

#[test]
fn path_joining() {
    assert_eq!(join_path(b"/a", b"b"), b"/a/b".to_vec());
    assert_eq!(join_path(b"/a/", b"b"), b"/a/b".to_vec());
    assert_eq!(join_path(b"", b"b"), b"b".to_vec());
    assert_eq!(join_path(b"/a", b"/b"), b"/b".to_vec());
}
