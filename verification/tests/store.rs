use code_open_server::json::empty_table_json;
use code_open_server::request::CodeOpenInfo;
use code_open_server::table::{
    resolve_host_name_to_local_configured_name, table_file_path, table_from_file_contents,
    NameTable,
};

#[test]
fn missing_file_gives_empty_table_and_asks_for_init() {
    let (table, needs_init) = table_from_file_contents(None);
    assert!(needs_init);
    assert!(table.entries().is_empty());
}

#[test]
fn malformed_file_behaves_like_missing_file() {
    let bad = b"not a table at all".to_vec();
    let (table, needs_init) = table_from_file_contents(Some(&bad));
    assert!(needs_init);
    assert!(table.entries().is_empty());
}

#[test]
fn initialization_is_idempotent() {
    // what a fresh run writes for a missing file ...
    let written = empty_table_json();
    // ... loads back as the same empty table, with no second write asked
    let (table, needs_init) = table_from_file_contents(Some(&written));
    assert!(!needs_init);
    assert!(table.entries().is_empty());
}

#[test]
fn valid_file_loads_its_mapping() {
    let contents = b"{\"actual-host.example.com\": \"my-alias\"}".to_vec();
    let (table, needs_init) = table_from_file_contents(Some(&contents));
    assert!(!needs_init);
    assert_eq!(
        table.get(&"actual-host.example.com".to_string()),
        Some(&"my-alias".to_string())
    );
    assert_eq!(table.get(&"other".to_string()), None);
}

#[test]
fn later_duplicate_key_wins() {
    let contents = b"{\"a\":\"first\",\"a\":\"second\"}".to_vec();
    let (table, _) = table_from_file_contents(Some(&contents));
    assert_eq!(table.get(&"a".to_string()), Some(&"second".to_string()));
}

#[test]
fn insert_adds_and_replaces() {
    let mut table = NameTable::new();
    assert_eq!(table.get(&"h".to_string()), None);
    table.insert("h".to_string(), "alias".to_string());
    assert_eq!(table.get(&"h".to_string()), Some(&"alias".to_string()));
    table.insert("h".to_string(), "newer".to_string());
    assert_eq!(table.get(&"h".to_string()), Some(&"newer".to_string()));
    assert_eq!(table.entries().len(), 1);
}

#[test]
fn resolve_substitutes_mapped_host_and_keeps_dir() {
    let mut table = NameTable::new();
    table.insert("actual-host.example.com".to_string(), "my-alias".to_string());
    let info = CodeOpenInfo::new(
        "actual-host.example.com".to_string(),
        "/home/user/project".to_string(),
    );
    let resolved = resolve_host_name_to_local_configured_name(info, &table);
    assert_eq!(resolved.remote_host_name, "my-alias");
    assert_eq!(resolved.remote_dir_full_path, "/home/user/project");
}

#[test]
fn resolve_keeps_unmapped_host_unchanged() {
    let table = NameTable::new();
    let info = CodeOpenInfo::new("unknown-host".to_string(), "/tmp".to_string());
    let resolved = resolve_host_name_to_local_configured_name(info, &table);
    assert_eq!(resolved.remote_host_name, "unknown-host");
    assert_eq!(resolved.remote_dir_full_path, "/tmp");
}

#[test]
fn resolution_remaps_an_alias_that_is_also_a_key() {
    let mut table = NameTable::new();
    table.insert("a".to_string(), "b".to_string());
    table.insert("b".to_string(), "c".to_string());
    // a client that already sends "b" is remapped again: the policy does not
    // distinguish raw from resolved input
    let info = CodeOpenInfo::new("b".to_string(), "/d".to_string());
    let resolved = resolve_host_name_to_local_configured_name(info, &table);
    assert_eq!(resolved.remote_host_name, "c");
}

#[test]
fn table_path_is_config_dir_app_dir_and_file() {
    assert_eq!(
        table_file_path("/home/u/.config", "/"),
        "/home/u/.config/code-open-server/table.json"
    );
    assert_eq!(
        table_file_path("C:\\Users\\u\\AppData\\Roaming", "\\"),
        "C:\\Users\\u\\AppData\\Roaming\\code-open-server\\table.json"
    );
}
