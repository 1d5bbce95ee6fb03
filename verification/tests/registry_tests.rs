use workbench::catalog::{
    dialog_contract, generate_registry, generate_registry_validated, select_contract,
    tabs_contract,
};
use workbench::contracts::{ComponentState, Disposition};
use workbench::registry::{RegistryEntry, RegistryIndex};

// -- RegistryEntry tests --

#[test]
fn entry_from_dialog_contract() {
    let contract = dialog_contract();
    let entry = RegistryEntry::from_contract(&contract);

    assert_eq!(entry.name, "Dialog");
    assert_eq!(entry.version, "0.1.0");
    assert_eq!(entry.disposition, Disposition::Fork);
    assert!(!entry.props.is_empty());
    assert!(!entry.states.is_empty());
    assert!(!entry.token_dependencies.is_empty());
    assert!(!entry.required_files.is_empty());
}

#[test]
fn entry_from_select_contract() {
    let contract = select_contract();
    let entry = RegistryEntry::from_contract(&contract);

    assert_eq!(entry.name, "Select");
    assert_eq!(entry.disposition, Disposition::Fork);
    assert!(entry.states.contains(&ComponentState::Disabled));
    assert!(entry.states.contains(&ComponentState::Selected));
}

#[test]
fn entry_from_tabs_contract() {
    let contract = tabs_contract();
    let entry = RegistryEntry::from_contract(&contract);

    assert_eq!(entry.name, "Tabs");
    assert_eq!(entry.disposition, Disposition::Fork);
    assert!(entry.states.contains(&ComponentState::Disabled));
}

#[test]
fn entry_summary_format() {
    let contract = dialog_contract();
    let entry = RegistryEntry::from_contract(&contract);
    let summary = entry.summary();

    assert!(summary.contains("Dialog"));
    assert!(summary.contains("v0.1.0"));
    assert!(summary.contains("Fork"));
}

// -- RegistryIndex tests --

#[test]
fn empty_registry() {
    let index = RegistryIndex::new();
    assert!(index.is_empty());
    assert_eq!(index.len(), 0);
    assert!(index.list().is_empty());
    assert!(index.names().is_empty());
}

#[test]
fn register_and_lookup() {
    let mut index = RegistryIndex::new();
    index.register(&dialog_contract());

    assert_eq!(index.len(), 1);
    assert!(!index.is_empty());

    let entry = index.get("Dialog").unwrap();
    assert_eq!(entry.name, "Dialog");
}

#[test]
fn lookup_is_case_insensitive() {
    let mut index = RegistryIndex::new();
    index.register(&dialog_contract());

    assert!(index.get("dialog").is_some());
    assert!(index.get("DIALOG").is_some());
    assert!(index.get("Dialog").is_some());
    assert!(index.get("dIaLoG").is_some());
}

#[test]
fn lookup_nonexistent_returns_none() {
    let index = RegistryIndex::new();
    assert!(index.get("NonExistent").is_none());
}

#[test]
fn register_overwrites_duplicate() {
    let mut index = RegistryIndex::new();
    index.register(&dialog_contract());
    index.register(&dialog_contract());

    assert_eq!(index.len(), 1);
}

#[test]
fn list_returns_sorted() {
    let mut index = RegistryIndex::new();
    index.register(&tabs_contract());
    index.register(&dialog_contract());
    index.register(&select_contract());

    let entries = index.list();
    assert_eq!(entries.len(), 3);
    assert_eq!(entries[0].name, "Dialog");
    assert_eq!(entries[1].name, "Select");
    assert_eq!(entries[2].name, "Tabs");
}

#[test]
fn names_returns_sorted() {
    let mut index = RegistryIndex::new();
    index.register(&tabs_contract());
    index.register(&dialog_contract());
    index.register(&select_contract());

    let names = index.names();
    assert_eq!(names, vec!["Dialog", "Select", "Tabs"]);
}

#[test]
fn remove_entry() {
    let mut index = RegistryIndex::new();
    index.register(&dialog_contract());

    let removed = index.remove("Dialog");
    assert!(removed.is_some());
    assert_eq!(removed.unwrap().name, "Dialog");
    assert!(index.is_empty());
}

#[test]
fn remove_case_insensitive() {
    let mut index = RegistryIndex::new();
    index.register(&dialog_contract());

    let removed = index.remove("dialog");
    assert!(removed.is_some());
}

#[test]
fn remove_nonexistent_returns_none() {
    let mut index = RegistryIndex::new();
    assert!(index.remove("Ghost").is_none());
}

// -- Registry generation tests --

#[test]
fn generate_registry_indexes_all_poc_components() {
    let index = generate_registry();

    assert_eq!(index.len(), 3);
    assert!(index.get("Dialog").is_some());
    assert!(index.get("Select").is_some());
    assert!(index.get("Tabs").is_some());
}

#[test]
fn generate_registry_validated_succeeds() {
    let result = generate_registry_validated();
    assert!(result.is_ok(), "Validation failed: {:?}", result.err());

    let index = result.unwrap();
    assert_eq!(index.len(), 3);
}

#[test]
fn generated_entries_have_complete_metadata() {
    let index = generate_registry();

    for entry in index.list() {
        assert!(!entry.name.is_empty(), "{} has empty name", entry.name);
        assert!(!entry.version.is_empty(), "{} has empty version", entry.name);
        assert!(!entry.props.is_empty(), "{} has no props", entry.name);
        assert!(!entry.states.is_empty(), "{} has no states", entry.name);
        assert!(
            !entry.token_dependencies.is_empty(),
            "{} has no token dependencies",
            entry.name
        );
        assert!(
            !entry.required_files.is_empty(),
            "{} has no required files",
            entry.name
        );
    }
}

// -- Performance test --

#[test]
fn registry_generation_under_2_seconds() {
    let start = std::time::Instant::now();
    let _index = generate_registry();
    let elapsed = start.elapsed();

    assert!(
        elapsed.as_secs() < 2,
        "Registry generation took {:?}, exceeds 2-second budget",
        elapsed
    );
}

// -- JSON serialization tests --

#[test]
fn registry_json_roundtrip() {
    let index = generate_registry();
    let json = index.to_json();
    let restored = RegistryIndex::from_json(&json).expect("deserialize");

    assert_eq!(restored.len(), index.len());
    for entry in index.list() {
        let restored_entry = restored.get(&entry.name).unwrap();
        assert_eq!(restored_entry.name, entry.name);
        assert_eq!(restored_entry.version, entry.version);
        assert_eq!(restored_entry.props.len(), entry.props.len());
        assert_eq!(restored_entry.states.len(), entry.states.len());
    }
}

#[test]
fn single_entry_json_roundtrip() {
    let mut index = RegistryIndex::new();
    index.register(&dialog_contract());
    let json = index.to_json();
    let restored = RegistryIndex::from_json(&json).expect("deserialize");

    let entry = index.get("Dialog").unwrap();
    let restored_entry = restored.get("Dialog").unwrap();
    assert_eq!(restored_entry.name, entry.name);
    assert_eq!(restored_entry.version, entry.version);
    assert_eq!(restored_entry.disposition, entry.disposition);
    assert_eq!(restored_entry.variants.len(), entry.variants.len());
    assert_eq!(restored_entry.states, entry.states);
    assert_eq!(restored_entry.props.len(), entry.props.len());
    assert_eq!(restored_entry.required_files, entry.required_files);
}

#[test]
fn registry_json_contains_expected_fields() {
    let index = generate_registry();
    let json = index.to_json();

    assert!(json.contains("\"name\""));
    assert!(json.contains("\"version\""));
    assert!(json.contains("\"disposition\""));
    assert!(json.contains("\"variants\""));
    assert!(json.contains("\"states\""));
    assert!(json.contains("\"props\""));
    assert!(json.contains("\"required_files\""));
    assert!(json.contains("\"token_dependencies\""));

    assert!(json.contains("\"dialog\""));
    assert!(json.contains("\"select\""));
    assert!(json.contains("\"tabs\""));
}

#[test]
fn registry_from_json_rejects_malformed_text() {
    assert!(RegistryIndex::from_json("").is_err());
    assert!(RegistryIndex::from_json("{\n  \"entries\": {").is_err());
}
