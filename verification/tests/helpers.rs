use chat_relay::fsview::DirEntry;
use chat_relay::fsview::drop_hidden;
use chat_relay::fsview::sort_listing;
use chat_relay::fsview::sort_tree_level;
use chat_relay::json::parse_json;
use chat_relay::sysops::bytes_to_gb;
use chat_relay::sysops::bytes_to_mb;
use chat_relay::sysops::clean_cache_message;
use chat_relay::sysops::container_action_args;
use chat_relay::sysops::container_action_message;
use chat_relay::sysops::container_list_args;
use chat_relay::sysops::disk_totals;
use chat_relay::sysops::optimize_memory_message;
use chat_relay::sysops::split_command;
use chat_relay::sysops::tokenize;
use chat_relay::textutil::hex_string;
use chat_relay::textutil::text_hash_exec;

fn entry(name: &str, is_dir: bool) -> DirEntry {
    DirEntry { name: name.to_string(), path: format!("/tmp/{}", name), is_dir }
}

fn names(v: &[DirEntry]) -> Vec<String> {
    v.iter().map(|e| e.name.clone()).collect()
}

#[test]
fn listing_sorts_directories_first_then_by_name() {
    let mut v = vec![
        entry("zeta.txt", false),
        entry("src", true),
        entry("Cargo.toml", false),
        entry("docs", true),
    ];
    sort_listing(&mut v);
    assert_eq!(names(&v), vec!["docs", "src", "Cargo.toml", "zeta.txt"]);
}

#[test]
fn listing_name_order_is_case_sensitive() {
    let mut v = vec![entry("apple", false), entry("Banana", false)];
    sort_listing(&mut v);
    // capital letters order before lower-case ones by code point
    assert_eq!(names(&v), vec!["Banana", "apple"]);
}

#[test]
fn tree_level_order_folds_case() {
    let mut v = vec![entry("banana", false), entry("Apple", false), entry("lib", true)];
    sort_tree_level(&mut v);
    assert_eq!(names(&v), vec!["lib", "Apple", "banana"]);
}

#[test]
fn hidden_entries_are_dropped() {
    let mut v = vec![entry(".git", true), entry("src", true), entry(".env", false)];
    drop_hidden(&mut v);
    assert_eq!(names(&v), vec!["src"]);
}

#[test]
fn command_lines_split_on_whitespace_without_quoting() {
    let (program, args) = split_command("cargo  build\t--release").unwrap();
    assert_eq!(program, "cargo");
    assert_eq!(args, vec!["build".to_string(), "--release".to_string()]);
    assert!(split_command("").is_none());
    assert!(split_command("   \t ").is_none());
    let (program, args) = split_command("ls").unwrap();
    assert_eq!(program, "ls");
    assert!(args.is_empty());
    // quotes are not understood: they stay part of the words
    let words = tokenize("echo \"a b\"");
    assert_eq!(words, vec!["echo".to_string(), "\"a".to_string(), "b\"".to_string()]);
    // any Unicode whitespace separates, a non-breaking space included
    let words = tokenize("a\u{a0}b\u{2003}c");
    assert_eq!(words, vec!["a".to_string(), "b".to_string(), "c".to_string()]);
}

#[test]
fn container_tool_arguments_and_message() {
    assert_eq!(
        container_list_args(),
        vec!["ps".to_string(), "-a".to_string(), "--format".to_string(), "json".to_string()]
    );
    assert_eq!(
        container_action_args("start", "abc123"),
        vec!["start".to_string(), "abc123".to_string()]
    );
    assert_eq!(
        container_action_message("abc123", "start"),
        "Container abc123 start successfully"
    );
}

#[test]
fn maintenance_messages() {
    assert_eq!(clean_cache_message(), "Cache cleaned successfully");
    assert_eq!(optimize_memory_message(), "Memory optimized successfully");
}

#[test]
fn stats_unit_arithmetic() {
    assert_eq!(bytes_to_mb(2 * 1024 * 1024), 2);
    assert_eq!(bytes_to_mb(1048575), 0);
    assert_eq!(bytes_to_gb(3 * 1024 * 1024 * 1024), 3);
    let disks = vec![(100u64, 40u64), (50u64, 10u64)];
    assert_eq!(disk_totals(&disks), (150, 100));
    let odd = vec![(10u64, 25u64)];
    // a disk reporting more available than its size counts zero used
    assert_eq!(disk_totals(&odd), (10, 0));
    let huge = vec![(u64::MAX, 0u64), (u64::MAX, 0u64)];
    assert_eq!(disk_totals(&huge), (u64::MAX, u64::MAX));
}

#[test]
fn hex_rendering_matches_the_usual_notation() {
    assert_eq!(hex_string(0), "0");
    assert_eq!(hex_string(255), "ff");
    assert_eq!(hex_string(4096), "1000");
    assert_eq!(hex_string(0xdeadbeef), "deadbeef");
}

#[test]
fn path_hash_is_deterministic_and_spreads() {
    let a = text_hash_exec("/home/dev/project");
    let b = text_hash_exec("/home/dev/project");
    let c = text_hash_exec("/home/dev/other");
    assert_eq!(a, b);
    assert_ne!(a, c);
}

#[test]
fn json_accessors_walk_parsed_documents() {
    let doc = parse_json("{\"a\":[{\"b\":\"deep\"},2],\"n\":1.5}").unwrap();
    let b = doc.get("a").unwrap().at(0).unwrap().get("b").unwrap();
    assert_eq!(b.as_text().unwrap(), "deep");
    assert!(doc.get("missing").is_none());
    assert!(doc.get("a").unwrap().at(5).is_none());
    assert!(doc.get("n").unwrap().as_text().is_none());
    assert!(parse_json("{broken").is_none());
}
