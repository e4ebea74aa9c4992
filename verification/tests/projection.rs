use everything_search::pathsplit::{extension_of_file_name, split_full_path};
use everything_search::query::{
    apply_result_limit, compact_items_from_hits, ProjectionError, RawHit, SearchQuery, SortOrder,
};
use everything_search::record::{
    convert_compact_item_array_to_item_array_at_offset, convert_compact_item_to_item,
    convert_compact_item_to_item_at_offset, convert_compat_item_array_to_item_array, CompactItem,
    ItemType,
};

const EPOCH_TICKS: u64 = 116444736000000000;

fn hit(path: &str, is_directory: bool, size: u64, created: u64, modified: u64) -> RawHit {
    RawHit {
        full_path: Some(path.to_string()),
        is_directory,
        size: Some(size),
        date_created: Some(created),
        date_modified: Some(modified),
    }
}

#[test]
fn path_decomposition_round_trip() {
    let (dir, name) = split_full_path("/a/b/c.txt");
    assert_eq!(dir, "/a/b");
    assert_eq!(name, "c.txt");
    assert_eq!(extension_of_file_name(&name), "txt");
    assert_eq!(format!("{}/{}", dir, name), "/a/b/c.txt");

    let (dir, name) = split_full_path("C:\\data\\app.log");
    assert_eq!(dir, "C:\\data");
    assert_eq!(name, "app.log");
    assert_eq!(extension_of_file_name(&name), "log");
}

#[test]
fn path_without_separator_is_all_file_name() {
    let (dir, name) = split_full_path("notes.md");
    assert_eq!(dir, "");
    assert_eq!(name, "notes.md");
}

#[test]
fn extension_edge_cases() {
    assert_eq!(extension_of_file_name("archive.tar.gz"), "gz");
    assert_eq!(extension_of_file_name("README"), "");
    assert_eq!(extension_of_file_name(".gitignore"), "");
    assert_eq!(extension_of_file_name("name."), "");
    assert_eq!(extension_of_file_name(""), "");
}

#[test]
fn directory_extension_is_folder_sentinel() {
    let c = CompactItem {
        item_type: ItemType::Dir,
        full_path: "/srv/releases/v1.2.3".to_string(),
        size: 0,
        date_created: EPOCH_TICKS,
        date_modified: EPOCH_TICKS,
    };
    let item = convert_compact_item_to_item_at_offset(&c, 0);
    assert_eq!(item.file_extension, "Folder");
    let item = convert_compact_item_to_item(&c);
    assert_eq!(item.file_extension, "Folder");
}

#[test]
fn item_type_labels() {
    assert_eq!(ItemType::Dir.label(), "Dir");
    assert_eq!(ItemType::File.label(), "File");
}

#[test]
fn conversion_fills_every_derived_field() {
    let c = CompactItem {
        item_type: ItemType::File,
        full_path: "/var/log/syslog.1".to_string(),
        size: 2048,
        date_created: EPOCH_TICKS,
        date_modified: EPOCH_TICKS + 10_000_000,
    };
    let item = convert_compact_item_to_item_at_offset(&c, 0);
    assert_eq!(item.item_type, ItemType::File);
    assert_eq!(item.full_path, "/var/log/syslog.1");
    assert_eq!(item.directory, "/var/log");
    assert_eq!(item.file_name, "syslog.1");
    assert_eq!(item.file_extension, "1");
    assert_eq!(item.size, 2048);
    assert_eq!(item.size_human, "2.00 KB");
    assert_eq!(item.date_created, EPOCH_TICKS);
    assert_eq!(item.date_created_human, "1970-01-01 00:00:00");
    assert_eq!(item.date_modified, EPOCH_TICKS + 10_000_000);
    assert_eq!(item.date_modified_human, "1970-01-01 00:00:01");
}

#[test]
fn local_conversion_pins_every_pure_field() {
    let c = CompactItem {
        item_type: ItemType::File,
        full_path: "/var/log/syslog.1".to_string(),
        size: 2048,
        date_created: 0,
        date_modified: EPOCH_TICKS,
    };
    let item = convert_compact_item_to_item(&c);
    assert_eq!(item.directory, "/var/log");
    assert_eq!(item.file_name, "syslog.1");
    assert_eq!(item.file_extension, "1");
    assert_eq!(item.size_human, "2.00 KB");
    assert_eq!(item.date_created_human, "Invalid date");
    assert!(item.date_modified_human == "Invalid date" || item.date_modified_human.len() == 19);
}

#[test]
fn projection_is_idempotent() {
    let c = CompactItem {
        item_type: ItemType::File,
        full_path: "C:\\data\\report.csv".to_string(),
        size: 123456789,
        date_created: EPOCH_TICKS + 10_000_000_000_000_000,
        date_modified: EPOCH_TICKS + 10_000_000_000_000_001,
    };
    let once = convert_compact_item_to_item_at_offset(&c, 7200);
    let twice = convert_compact_item_to_item_at_offset(&c, 7200);
    assert_eq!(once, twice);

    let batch = vec![c.clone(), c.clone()];
    let first = convert_compact_item_array_to_item_array_at_offset(&batch, 7200);
    let second = convert_compact_item_array_to_item_array_at_offset(&batch, 7200);
    assert_eq!(first, second);
}

#[test]
fn end_to_end_raw_hit_to_record() {
    let created = EPOCH_TICKS + 36_000_000_000;
    let hits = vec![hit("C:\\data\\app.log", false, 2048, created, created)];
    let compacts = compact_items_from_hits(&hits).unwrap();
    assert_eq!(compacts.len(), 1);
    let items = convert_compact_item_array_to_item_array_at_offset(&compacts, 0);
    let item = &items[0];
    assert_eq!(item.item_type, ItemType::File);
    assert_eq!(item.full_path, "C:\\data\\app.log");
    assert_eq!(item.directory, "C:\\data");
    assert_eq!(item.file_name, "app.log");
    assert_eq!(item.file_extension, "log");
    assert_eq!(item.size, 2048);
    assert_eq!(item.size_human, "2.00 KB");
    assert_eq!(item.date_created_human, "1970-01-01 01:00:00");
    assert_eq!(item.date_modified_human, "1970-01-01 01:00:00");
}

#[test]
fn empty_result_set_projects_to_empty() {
    let hits: Vec<RawHit> = Vec::new();
    let compacts = compact_items_from_hits(&hits).unwrap();
    assert!(compacts.is_empty());
    let items = convert_compat_item_array_to_item_array(compacts);
    assert!(items.is_empty());
}

#[test]
fn missing_path_aborts_with_first_index() {
    let mut hits = vec![
        hit("/a/one", false, 1, EPOCH_TICKS, EPOCH_TICKS),
        hit("/a/two", false, 2, EPOCH_TICKS, EPOCH_TICKS),
        hit("/a/three", false, 3, EPOCH_TICKS, EPOCH_TICKS),
    ];
    hits[1].full_path = None;
    let err = compact_items_from_hits(&hits).unwrap_err();
    assert_eq!(err, ProjectionError::MissingPath { index: 1 });
}

#[test]
fn incomplete_metadata_row_is_skipped() {
    let mut hits = vec![
        hit("/a/one", false, 1, EPOCH_TICKS, EPOCH_TICKS),
        hit("/a/two", false, 2, EPOCH_TICKS, EPOCH_TICKS),
        hit("/a/three", true, 3, EPOCH_TICKS, EPOCH_TICKS),
    ];
    hits[1].size = None;
    let compacts = compact_items_from_hits(&hits).unwrap();
    assert_eq!(compacts.len(), 2);
    assert_eq!(compacts[0].full_path, "/a/one");
    assert_eq!(compacts[0].item_type, ItemType::File);
    assert_eq!(compacts[1].full_path, "/a/three");
    assert_eq!(compacts[1].item_type, ItemType::Dir);
}

#[test]
fn result_limit_zero_keeps_nothing() {
    let hits = vec![
        hit("/a/one", false, 1, EPOCH_TICKS, EPOCH_TICKS),
        hit("/a/two", false, 2, EPOCH_TICKS, EPOCH_TICKS),
    ];
    let capped = apply_result_limit(hits, 0);
    assert!(capped.is_empty());
}

#[test]
fn result_limit_keeps_leading_hits() {
    let hits = vec![
        hit("/a/one", false, 1, EPOCH_TICKS, EPOCH_TICKS),
        hit("/a/two", false, 2, EPOCH_TICKS, EPOCH_TICKS),
        hit("/a/three", false, 3, EPOCH_TICKS, EPOCH_TICKS),
    ];
    let capped = apply_result_limit(hits, 2);
    assert_eq!(capped.len(), 2);
    assert_eq!(capped[0].full_path.as_deref(), Some("/a/one"));
    assert_eq!(capped[1].full_path.as_deref(), Some("/a/two"));

    let hits = vec![hit("/a/one", false, 1, EPOCH_TICKS, EPOCH_TICKS)];
    let capped = apply_result_limit(hits, 5);
    assert_eq!(capped.len(), 1);
}

#[test]
fn search_query_holds_its_parameters() {
    let q = SearchQuery::new("data c:\\ ext:log".to_string(), SortOrder::PathAscending, 6);
    assert_eq!(q.text, "data c:\\ ext:log");
    assert_eq!(q.sort, SortOrder::PathAscending);
    assert_eq!(q.max_results, 6);
}
