use chat_relay::json::parse_json;
use chat_relay::store::FileStore;
use chat_relay::store::PromptPreset;
use chat_relay::store::ScenarioError;
use chat_relay::store::api_key_file;
use chat_relay::store::delete_scenario;
use chat_relay::store::list_scenarios;
use chat_relay::store::load_api_key;
use chat_relay::store::load_system_prompt;
use chat_relay::store::load_workspace_prompt;
use chat_relay::store::presets_from_json;
use chat_relay::store::remove_preset;
use chat_relay::store::save_api_key;
use chat_relay::store::save_scenario;
use chat_relay::store::save_system_prompt;
use chat_relay::store::save_workspace_prompt;
use chat_relay::store::scenario_file_name;
use chat_relay::store::upsert_preset;
use chat_relay::store::workspace_path_file;
use chat_relay::store::workspace_prompt_file;

#[test]
fn credential_round_trip() {
    let mut store = FileStore::new();
    save_api_key(&mut store, "openai", "sk-123");
    assert_eq!(load_api_key(&store, "openai"), "sk-123");
    assert_eq!(load_api_key(&store, "unconfigured-provider"), "");
}

#[test]
fn credential_overwrite_and_isolation() {
    let mut store = FileStore::new();
    save_api_key(&mut store, "openai", "first");
    save_api_key(&mut store, "anthropic", "other");
    save_api_key(&mut store, "openai", "second");
    assert_eq!(load_api_key(&store, "openai"), "second");
    assert_eq!(load_api_key(&store, "anthropic"), "other");
    assert_eq!(api_key_file("openai"), "openai_api_key.txt");
}

#[test]
fn system_prompt_round_trip() {
    let mut store = FileStore::new();
    assert_eq!(load_system_prompt(&store), "");
    save_system_prompt(&mut store, "always answer briefly".to_string());
    assert_eq!(load_system_prompt(&store), "always answer briefly");
}

#[test]
fn workspace_prompt_round_trip() {
    let mut store = FileStore::new();
    assert_eq!(load_workspace_prompt(&store, "/home/dev/project"), "");
    save_workspace_prompt(&mut store, "/home/dev/project", "project rules");
    assert_eq!(load_workspace_prompt(&store, "/home/dev/project"), "project rules");
    assert_eq!(load_workspace_prompt(&store, "/home/dev/other"), "");
    // the recorded-path file holds the project path itself
    let path_file = workspace_path_file("/home/dev/project");
    assert_eq!(store.read_file(&path_file).unwrap(), "/home/dev/project");
    // the two derived files differ only in their leaf
    let prompt_file = workspace_prompt_file("/home/dev/project");
    assert!(prompt_file.ends_with("/prompt.txt"));
    assert!(prompt_file.starts_with("workspaces/"));
}

#[test]
fn preset_upsert_is_last_write_wins_on_the_name() {
    let mut presets: Vec<PromptPreset> = Vec::new();
    upsert_preset(&mut presets, "greet".to_string(), "say hi".to_string());
    upsert_preset(&mut presets, "close".to_string(), "say bye".to_string());
    upsert_preset(&mut presets, "greet".to_string(), "say hello".to_string());
    assert_eq!(presets.len(), 2);
    assert_eq!(presets[0].name, "close");
    assert_eq!(presets[1].name, "greet");
    assert_eq!(presets[1].prompt, "say hello");
}

#[test]
fn preset_removal_keeps_the_rest_in_order() {
    let mut presets = vec![
        PromptPreset { name: "a".to_string(), prompt: "1".to_string() },
        PromptPreset { name: "b".to_string(), prompt: "2".to_string() },
        PromptPreset { name: "c".to_string(), prompt: "3".to_string() },
    ];
    remove_preset(&mut presets, "b");
    assert_eq!(presets.len(), 2);
    assert_eq!(presets[0].name, "a");
    assert_eq!(presets[1].name, "c");
    remove_preset(&mut presets, "missing");
    assert_eq!(presets.len(), 2);
}

#[test]
fn presets_read_back_from_their_stored_document() {
    let doc = parse_json("[{\"name\":\"greet\",\"prompt\":\"say hi\"}]").unwrap();
    let presets = presets_from_json(&doc).unwrap();
    assert_eq!(presets.len(), 1);
    assert_eq!(presets[0].name, "greet");
    assert_eq!(presets[0].prompt, "say hi");
}

#[test]
fn a_broken_preset_document_is_refused() {
    let doc = parse_json("[{\"name\":\"greet\"}]").unwrap();
    assert!(presets_from_json(&doc).is_none());
    let doc = parse_json("{\"name\":\"greet\",\"prompt\":\"p\"}").unwrap();
    assert!(presets_from_json(&doc).is_none());
    let doc = parse_json("[{\"name\":7,\"prompt\":\"p\"}]").unwrap();
    assert!(presets_from_json(&doc).is_none());
}

#[test]
fn scenario_names_fold_to_one_file_and_the_second_save_overwrites() {
    assert_eq!(scenario_file_name("My Scenario"), "my_scenario.json");
    assert_eq!(scenario_file_name("my scenario"), "my_scenario.json");
    let mut store = FileStore::new();
    let first = "{\"name\":\"My Scenario\",\"layers\":1}".to_string();
    let second = "{\"name\":\"my scenario\",\"layers\":2}".to_string();
    save_scenario(&mut store, first).unwrap();
    save_scenario(&mut store, second.clone()).unwrap();
    let listed = list_scenarios(&store);
    assert_eq!(listed, vec![second.clone()]);
    assert_eq!(
        store.read_file("moa_scenarios/my_scenario.json").unwrap(),
        &second
    );
}

#[test]
fn scenario_names_fold_beyond_ascii() {
    // the folding is the full Unicode lower-case mapping, not an ASCII one
    assert_eq!(scenario_file_name("GRAND PLAN \u{c9}TAPE"), "grand_plan_\u{e9}tape.json");
}

#[test]
fn scenario_save_errors() {
    let mut store = FileStore::new();
    assert_eq!(
        save_scenario(&mut store, "not json".to_string()),
        Err(ScenarioError::InvalidJson)
    );
    assert_eq!(
        save_scenario(&mut store, "{\"title\":\"x\"}".to_string()),
        Err(ScenarioError::NameMissing)
    );
    assert_eq!(
        save_scenario(&mut store, "{\"name\":3}".to_string()),
        Err(ScenarioError::NameMissing)
    );
    assert_eq!(list_scenarios(&store).len(), 0);
}

#[test]
fn scenario_delete_is_quiet_on_a_missing_file() {
    let mut store = FileStore::new();
    save_scenario(&mut store, "{\"name\":\"Keep Me\"}".to_string()).unwrap();
    delete_scenario(&mut store, "never saved");
    assert_eq!(list_scenarios(&store).len(), 1);
    delete_scenario(&mut store, "keep me");
    assert_eq!(list_scenarios(&store).len(), 0);
}

#[test]
fn only_scenario_files_are_listed() {
    let mut store = FileStore::new();
    save_api_key(&mut store, "openai", "sk");
    save_system_prompt(&mut store, "p".to_string());
    save_scenario(&mut store, "{\"name\":\"One\"}".to_string()).unwrap();
    let listed = list_scenarios(&store);
    assert_eq!(listed, vec!["{\"name\":\"One\"}".to_string()]);
}
